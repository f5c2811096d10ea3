//! Command interpretation and project lifecycle rules of a scaffolding tool
//! for native projects, stated as contracts over sequences of characters.

pub mod conan;
pub mod error;
pub mod information_meta;
pub mod meta;
pub mod terminal;
pub mod text;
pub mod trace;
