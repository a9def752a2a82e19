//! A single cell of the input buffer's linked sequence.

use vstd::prelude::*;

verus! {

/// One cell of the input sequence: a text unit occupying one display cell,
/// together with the handles of its logical neighbours.
///
/// The cells live in an arena owned by the buffer, so `next` and `prev` are
/// stable arena indices rather than references. The buffer alone links and
/// unlinks nodes, keeping the adjacency invariant (if A's `next` is B then
/// B's `prev` is A) intact across every edit.
pub struct InputBufNode {
    /// Handle of the following node, or `None` for the tail.
    pub next: Option<usize>,
    /// Handle of the preceding node, or `None` for the head.
    pub prev: Option<usize>,
    /// The text unit this cell displays; treated as one display cell wide.
    pub value: String,
}

impl InputBufNode {
    /// A fresh, unlinked node holding one text unit; both links start out empty.
    pub fn new(value: String) -> (r: Self)
        ensures
            r.value == value,
            r.next is None,
            r.prev is None,
    {
        Self { next: None, prev: None, value }
    }

    /// True exactly when this node has no predecessor.
    #[inline]
    pub fn is_head(&self) -> (r: bool)
        ensures
            r == (self.prev is None),
    {
        self.prev.is_none()
    }

    /// True exactly when this node has no successor.
    #[inline]
    pub fn is_tail(&self) -> (r: bool)
        ensures
            r == (self.next is None),
    {
        self.next.is_none()
    }
}

} // verus!
