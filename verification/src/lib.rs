use vstd::prelude::*;

pub mod text;
pub mod osc;
pub mod sensation;
pub mod signal;
pub mod transport;
pub mod config;
pub mod schedule;
pub mod status;
pub mod joycon;
pub mod gui;
pub mod statuslog;
pub mod runtime;
pub mod utility;

verus! {

} // verus!
