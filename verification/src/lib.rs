use vstd::prelude::*;

pub mod text;
pub mod ini;
pub mod app;
pub mod keys;
pub mod events;
pub mod json;
pub mod control;
pub mod client;
pub mod names;
pub mod probe;
pub mod setup;
pub mod tuning;
pub mod display;

verus! {
} // verus!
