//! Core of a small task tracker: due-date parsing, relative-time rendering,
//! task-reference resolution and status filtering, verified with Verus.
//!
//! Time is modelled as seconds since the Unix epoch (UTC). Conversions that
//! depend on the machine's local time zone go through a few trusted wrappers
//! around the `chrono` crate; everything computed from their results is
//! verified.

pub mod civil;
pub mod editor;
pub mod error;
pub mod paging;
pub mod parse;
pub mod render;
pub mod resolve;
pub mod status;
pub mod store;
pub mod task;
pub mod text;
pub mod zone;

use vstd::prelude::*;

verus! {

} // verus!
