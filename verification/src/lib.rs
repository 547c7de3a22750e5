//! Quiz documents, their cache and the rules that keep the cache in step with
//! a remote repository.
//!
//! The library decides and computes; it reads no file and sends no request.
//! Its callers hand it what they read and do what it asks for.
//!
//! - [`quiz`]: what a valid question is, how a quiz document is read,
//!   counted and handed out in a random order.
//! - [`cache`]: how quizzes are named after their files, and which quizzes a
//!   cache directory holds.
//! - [`sync`]: the pass that fills an empty cache from the remote source,
//!   step by step; [`world`] states what a whole pass achieves.
//! - [`github`]: the addresses of the remote source and the reading of its
//!   answers.
//! - [`appconfig`]: where the cache lies below the application's directory.
//! - [`json`], [`decode`]: JSON values and the reading of their members.
//! - [`shuffle`]: random orders, and the rearranging of a list by one.
//! - [`error`], [`text`], [`seqs`]: failures, text and sequence helpers.

pub mod appconfig;
pub mod cache;
pub mod decode;
pub mod error;
pub mod github;
pub mod json;
pub mod quiz;
pub mod seqs;
pub mod shuffle;
pub mod sync;
pub mod text;
pub mod world;
