//! Where in the source a piece of syntax stands.

use vstd::prelude::*;

verus! {

/// A half-open range of positions in the source.
#[derive(PartialEq, Eq, Debug, Clone, Copy)]
pub struct Span {
    pub start: usize,
    pub end: usize,
}

} // verus!
