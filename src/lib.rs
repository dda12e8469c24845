use vstd::prelude::*;

pub mod model;
pub mod profile;
pub mod resolve;
pub mod command;
pub mod cli;
pub mod laws;
pub mod parser;
pub mod sources;

verus! {

} // verus!
