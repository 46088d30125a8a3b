//! Small verified programs: a line-search tool, a number-guessing game, and a
//! set of short exercises on ownership, structs, enums, modules, generics,
//! traits and iteration.

pub mod basics;
pub mod collections;
pub mod generics;
pub mod guessing;
pub mod iterators;
pub mod lifetimes;
pub mod minigrep;
pub mod restaurant;
pub mod testing;
mod text;
pub mod traits;

pub use minigrep::{search, Config};
pub use testing::{add_two, greeting, private_add_two, Rectangle};
