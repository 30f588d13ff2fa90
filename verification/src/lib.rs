use vstd::prelude::*;

pub mod demo;
pub mod http;
pub mod json;
pub mod kit;
pub mod seeding;
pub mod tally;
pub mod text;
pub mod yaml;

pub use kit::Kit;

verus! {
}
