//! Synesthesia: normalized activity events, kernel and helper wire formats,
//! procfs sampling, diagnostics and incident recording, with their contracts.
use vstd::prelude::*;

pub mod cli;
pub mod controls;
pub mod doctor;
pub mod event;
pub mod flight;
pub mod parse;
pub mod render;
pub mod source;
pub mod text;
pub mod trigger;
pub mod view;

verus! {

} // verus!
