//! What a pager needs to know about the output to come. Deciding whether
//! to run one, and running it, is terminal work and happens outside the
//! library.

use vstd::prelude::*;

verus! {

/// How much output a command is about to print, and whether it carries
/// ANSI color escapes.
#[derive(Debug, Clone, Copy)]
pub struct PagerConfig {
    /// Rough number of lines the command is going to print.
    pub lines: usize,
    /// True when the output contains ANSI color escapes.
    pub needs_color: bool,
}

} // verus!
