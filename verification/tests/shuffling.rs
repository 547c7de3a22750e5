use modular_quiz_app::shuffle::arrange;
use modular_quiz_app::shuffle::random_order;
use modular_quiz_app::shuffle::shuffled;

#[test]
fn arrange_puts_each_item_where_the_order_says() {
    let items = vec!["a".to_string(), "b".to_string(), "c".to_string()];
    let out = arrange(items, &vec![2, 0, 1]).unwrap();
    assert_eq!(out, vec!["c".to_string(), "a".to_string(), "b".to_string()]);
    assert_eq!(arrange(vec![10u8, 20, 30, 40], &vec![0, 1, 2, 3]), Some(vec![10u8, 20, 30, 40]));
    assert_eq!(arrange(vec![10u8, 20, 30, 40], &vec![3, 2, 1, 0]), Some(vec![40u8, 30, 20, 10]));
    assert_eq!(arrange(Vec::<u8>::new(), &vec![]), Some(Vec::<u8>::new()));
    assert_eq!(arrange(vec![7u8], &vec![0]), Some(vec![7u8]));
}

#[test]
fn arrange_turns_down_what_is_no_arrangement() {
    assert_eq!(arrange(vec![1u8, 2, 3], &vec![0, 1]), None);
    assert_eq!(arrange(vec![1u8, 2, 3], &vec![0, 1, 2, 0]), None);
    assert_eq!(arrange(vec![1u8, 2, 3], &vec![0, 1, 1]), None);
    assert_eq!(arrange(vec![1u8, 2, 3], &vec![0, 1, 3]), None);
    assert_eq!(arrange(vec![1u8, 2, 3], &vec![usize::MAX, 1, 2]), None);
    assert_eq!(arrange(Vec::<u8>::new(), &vec![0]), None);
}

#[test]
fn a_random_order_names_each_position_once() {
    for n in [0usize, 1, 2, 5, 64] {
        let mut order = random_order(n);
        assert_eq!(order.len(), n);
        order.sort();
        assert_eq!(order, (0..n).collect::<Vec<usize>>());
    }
}

#[test]
fn random_orders_differ() {
    let first = random_order(32);
    let mut differs = false;
    for _ in 0..20 {
        if random_order(32) != first {
            differs = true;
        }
    }
    assert!(differs);
    let in_order: Vec<usize> = (0..32).collect();
    let mut moved = false;
    for _ in 0..20 {
        if random_order(32) != in_order {
            moved = true;
        }
    }
    assert!(moved);
}

#[test]
fn shuffled_keeps_the_items() {
    let items: Vec<u32> = (0..100).collect();
    let mut out = shuffled(items.clone());
    assert_ne!(out, items);
    out.sort();
    assert_eq!(out, items);
    assert_eq!(shuffled(Vec::<u32>::new()), Vec::<u32>::new());
    assert_eq!(shuffled(vec![9u32]), vec![9u32]);
    let mut twice = shuffled(vec![4u32, 4, 5]);
    twice.sort();
    assert_eq!(twice, vec![4u32, 4, 5]);
}
