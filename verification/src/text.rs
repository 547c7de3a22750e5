//! Small operations on text, stated over sequences of characters.

use vstd::prelude::*;
use vstd::string::StringExecFns;
use vstd::string::StrSliceExecFns;

verus! {

/// `suffix` stands at the end of `s`.
pub open spec fn ends_with(s: Seq<char>, suffix: Seq<char>) -> bool {
    suffix.len() <= s.len() && s.subrange(s.len() - suffix.len(), s.len() as int) == suffix
}

/// `s` without its last `n` characters.
pub open spec fn without_last(s: Seq<char>, n: nat) -> Seq<char>
    recommends
        n <= s.len(),
{
    s.subrange(0, s.len() - n)
}

/// Whatever ends with `suffix` is what stands before it, followed by `suffix`.
pub proof fn lemma_ends_with_splits(s: Seq<char>, suffix: Seq<char>)
    requires
        ends_with(s, suffix),
    ensures
        s == without_last(s, suffix.len()) + suffix,
{
    assert(s =~= without_last(s, suffix.len()) + suffix);
}

/// A text followed by `suffix` ends with it, and gives the text back when the
/// suffix is taken off.
pub proof fn lemma_append_ends_with(stem: Seq<char>, suffix: Seq<char>)
    ensures
        ends_with(stem + suffix, suffix),
        without_last(stem + suffix, suffix.len()) == stem,
{
    let s = stem + suffix;
    assert(s.subrange(s.len() - suffix.len(), s.len() as int) =~= suffix);
    assert(without_last(s, suffix.len()) =~= stem);
}

/// The views of a list of strings.
pub open spec fn texts(v: Seq<String>) -> Seq<Seq<char>> {
    v.map_values(|s: String| s@)
}

/// A copy of a list of strings.
pub fn copy_texts(list: &Vec<String>) -> (copy: Vec<String>)
    ensures
        texts(copy@) == texts(list@),
{
    let mut copy: Vec<String> = Vec::new();
    let mut i: usize = 0;
    while i < list.len()
        invariant
            i <= list.len(),
            copy@.len() == i,
            forall|k: int| 0 <= k < i ==> (#[trigger] copy@[k])@ == list@[k]@,
        decreases list.len() - i,
    {
        copy.push(list[i].clone());
        i += 1;
    }
    assert(texts(copy@) =~= texts(list@));
    copy
}

/// `a` followed by `b`.
pub fn join2(a: &str, b: &str) -> (r: String)
    ensures
        r@ == a@ + b@,
{
    a.to_owned().concat(b)
}

/// `a`, `b` and `c` in a row.
pub fn join3(a: &str, b: &str, c: &str) -> (r: String)
    ensures
        r@ == a@ + b@ + c@,
{
    a.to_owned().concat(b).concat(c)
}

/// Whether `s` ends with `suffix`.
pub fn has_suffix(s: &str, suffix: &str) -> (b: bool)
    ensures
        b == ends_with(s@, suffix@),
{
    let n = s.unicode_len();
    let m = suffix.unicode_len();
    if m > n {
        return false;
    }
    let tail = s.substring_char(n - m, n);
    tail.to_owned() == suffix.to_owned()
}

/// `s` without `suffix` at its end; `None` where `s` does not end with it.
pub fn strip_suffix(s: &str, suffix: &str) -> (r: Option<String>)
    ensures
        match r {
            Some(stem) => ends_with(s@, suffix@) && stem@ == without_last(s@, suffix@.len()),
            None => !ends_with(s@, suffix@),
        },
{
    if has_suffix(s, suffix) {
        let n = s.unicode_len();
        let m = suffix.unicode_len();
        Some(s.substring_char(0, n - m).to_owned())
    } else {
        None
    }
}

} // verus!
