//! Source locations of tokens and errors.

use vstd::prelude::*;

verus! {

/// A source location. Rows and columns count from one, and the end is the
/// position just behind the last character.
#[derive(Debug, Clone, Copy, PartialEq, Eq, Hash, PartialOrd, Ord, Structural)]
pub struct Span {
    pub row_start: usize,
    pub row_end: Option<usize>,
    pub col_start: usize,
    pub col_end: Option<usize>,
}

impl Span {
    #[must_use]
    pub fn new(row_start: usize, col_start: usize) -> (r: Self)
        ensures
            r == (Span { row_start, row_end: None, col_start, col_end: None }),
    {
        Self { row_start, row_end: None, col_start, col_end: None }
    }

    pub fn complete(&mut self, row_end: usize, col_end: usize)
        ensures
            *final(self) == (Span {
                row_start: old(self).row_start,
                row_end: Some(row_end),
                col_start: old(self).col_start,
                col_end: Some(col_end),
            }),
    {
        self.row_end = Some(row_end);
        self.col_end = Some(col_end);
    }
}

} // verus!
