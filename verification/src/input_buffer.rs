//! The cursor-aware, line-wrapped input buffer.

pub mod input_buffer_node;

use vstd::prelude::*;
use vstd::arithmetic::div_mod::lemma_div_nonincreasing;
use vstd::arithmetic::div_mod::lemma_div_pos_is_pos;
use vstd::arithmetic::div_mod::lemma_fundamental_div_mod;
use vstd::arithmetic::div_mod::lemma_fundamental_div_mod_converse;
use vstd::std_specs::vec::spec_vec_len;

use input_buffer_node::InputBufNode;

verus! {

/// Stepping the cursor one cell forward obeys the wrap rule: from the last
/// column of a row it moves to column 0 of the next row, otherwise it moves
/// one column right within the same row.
proof fn lemma_wrap_step(p: int, w: int)
    requires
        w >= 1,
        0 <= p,
    ensures
        p % w + 1 == w ==> (p + 1) % w == 0 && (p + 1) / w == p / w + 1,
        p % w + 1 < w ==> (p + 1) % w == p % w + 1 && (p + 1) / w == p / w,
        0 <= p % w < w,
{
    lemma_fundamental_div_mod(p, w);
    if p % w + 1 == w {
        assert((p / w + 1) * w + 0 == p + 1) by (nonlinear_arith)
            requires
                p == w * (p / w) + p % w,
                p % w + 1 == w,
        ;
        lemma_fundamental_div_mod_converse(p + 1, w, p / w + 1, 0);
    } else {
        assert((p / w) * w + (p % w + 1) == p + 1) by (nonlinear_arith)
            requires
                p == w * (p / w) + p % w,
        ;
        lemma_fundamental_div_mod_converse(p + 1, w, p / w, p % w + 1);
    }
}

/// Stepping the cursor one cell back obeys the row-boundary rule: from
/// column 0 it moves to the last column of the previous row (every row
/// before the cursor is exactly full), otherwise one column left.
proof fn lemma_unwrap_step(p: int, w: int)
    requires
        w >= 1,
        1 <= p,
    ensures
        p % w == 0 ==> (p - 1) % w == w - 1 && (p - 1) / w == p / w - 1,
        p % w >= 1 ==> (p - 1) % w == p % w - 1 && (p - 1) / w == p / w,
        0 <= p % w < w,
{
    lemma_fundamental_div_mod(p, w);
    if p % w == 0 {
        assert((p / w - 1) * w + (w - 1) == p - 1) by (nonlinear_arith)
            requires
                p == w * (p / w) + p % w,
                p % w == 0,
        ;
        lemma_fundamental_div_mod_converse(p - 1, w, p / w - 1, w - 1);
    } else {
        assert((p / w) * w + (p % w - 1) == p - 1) by (nonlinear_arith)
            requires
                p == w * (p / w) + p % w,
        ;
        lemma_fundamental_div_mod_converse(p - 1, w, p / w, p % w - 1);
    }
}

/// The node at position `i` of the list sits in a live arena slot and is
/// doubly linked to its neighbours: its `prev` names position `i - 1` (none
/// at the head) and its `next` names position `i + 1` (none at the tail).
spec fn linked_at(ns: Seq<InputBufNode>, ord: Seq<usize>, i: int) -> bool {
    &&& ord[i] < ns.len()
    &&& ns[ord[i] as int].prev == (if i == 0 {
        Option::<usize>::None
    } else {
        Some(ord[i - 1])
    })
    &&& ns[ord[i] as int].next == (if i == ord.len() - 1 {
        Option::<usize>::None
    } else {
        Some(ord[i + 1])
    })
}

/// Where `advance` moves the cursor offset: one cell toward the tail when
/// a cell sits at the cursor and another follows it; otherwise nowhere.
pub open spec fn advance_cursor(c: int, len: int) -> int {
    if 1 <= c < len {
        c + 1
    } else {
        c
    }
}

/// Where `un_advance` moves the cursor offset: one cell toward the head
/// when a predecessor exists; at the head or the start, nowhere.
pub open spec fn un_advance_cursor(c: int) -> int {
    if c >= 2 {
        c - 1
    } else {
        c
    }
}

/// The state of one line of user input: an ordered sequence of text units,
/// an edit cursor inside that sequence, and the cursor's visual coordinates
/// under line wrapping at a fixed screen width.
///
/// The nodes are stored in an arena (`nodes`); `head` and `current` are
/// arena handles. `current` names the node the cursor sits immediately
/// after, or is `None` when the cursor is at the very start. The cursor's
/// offset from the head (the number of cells at or before `current`) fully
/// determines the visual coordinates: `line` is the offset divided by
/// `screen_width` and `idx` is the remainder.
pub struct InputBuf {
    /// Column of the cursor within the current display row.
    idx: usize,
    /// Display row of the cursor.
    line: usize,
    /// Handle of the first node of the sequence, or `None` when empty.
    head: Option<usize>,
    /// Handle of the node the cursor sits after, or `None` at the start.
    current: Option<usize>,
    /// Cells per display row; always at least 1.
    screen_width: usize,
    /// Arena owning every node; a deleted node's slot simply goes dead.
    nodes: Vec<InputBufNode>,
    /// Arena handles of the live nodes, in list order.
    order: Ghost<Seq<usize>>,
    /// The cursor's offset from the head: how many cells sit at or before
    /// `current`; 0 when the cursor is at the very start.
    pos: Ghost<int>,
}

impl View for InputBuf {
    type V = Seq<Seq<char>>;

    /// The abstract content: the text units in list order.
    closed spec fn view(&self) -> Seq<Seq<char>> {
        self.order@.map(|i: int, n: usize| self.nodes@[n as int].value@)
    }
}

impl InputBuf {
    /// The cursor's offset from the head of the sequence.
    pub closed spec fn cursor(self) -> int {
        self.pos@
    }

    /// The screen width the coordinates are computed against.
    pub closed spec fn width(self) -> int {
        self.screen_width as int
    }

    /// The display row the cursor is on.
    pub closed spec fn spec_line(self) -> int {
        self.line as int
    }

    /// The column of the cursor within its display row.
    pub closed spec fn spec_idx(self) -> int {
        self.idx as int
    }

    /// The linked structure is consistent: the handles in `order` are
    /// distinct live slots, `head` is the first of them, every adjacent
    /// pair is doubly linked, and `current` is the node at the cursor.
    spec fn links_ok(self) -> bool {
        let ord = self.order@;
        let p = self.pos@;
        &&& 0 <= p <= ord.len()
        &&& ord.len() <= self.nodes@.len()
        &&& ord.no_duplicates()
        &&& forall|i: int| 0 <= i < ord.len() ==> #[trigger] linked_at(self.nodes@, ord, i)
        &&& self.head == (if ord.len() == 0 {
            Option::<usize>::None
        } else {
            Some(ord[0])
        })
        &&& self.current == (if p == 0 {
            Option::<usize>::None
        } else {
            Some(ord[p - 1])
        })
    }

    /// Well-formedness: the links are consistent, the width is positive, and
    /// the visual coordinates are the relayout of the cursor offset.
    pub closed spec fn inv(self) -> bool {
        &&& self.links_ok()
        &&& self.screen_width >= 1
        &&& self.idx == self.pos@ % (self.screen_width as int)
        &&& self.line == self.pos@ / (self.screen_width as int)
    }

    /// An empty buffer for a screen holding `screen_width` cells per row.
    ///
    /// A width of 0 cannot lay text out, so it is clamped to 1; any other
    /// width is kept as given.
    pub fn new(screen_width: usize) -> (r: Self)
        ensures
            r.inv(),
            r@ == Seq::<Seq<char>>::empty(),
            r.cursor() == 0,
            r.width() == if screen_width >= 1 {
                screen_width as int
            } else {
                1
            },
            r.spec_line() == 0,
            r.spec_idx() == 0,
    {
        let width = if screen_width == 0 {
            1
        } else {
            screen_width
        };
        let r = Self {
            idx: 0,
            line: 0,
            head: None,
            current: None,
            screen_width: width,
            nodes: Vec::new(),
            order: Ghost(Seq::empty()),
            pos: Ghost(0),
        };
        proof {
            assert(r@ =~= Seq::<Seq<char>>::empty());
        }
        r
    }

    /// Inserts one text unit at the cursor: the new cell goes immediately
    /// after `current` (at the very start when the cursor is there), becomes
    /// the new `current`, and the coordinates advance one cell, wrapping to
    /// the next row when the column reaches the screen width.
    pub fn insert(&mut self, value: String)
        requires
            old(self).inv(),
        ensures
            final(self).inv(),
            final(self)@ == old(self)@.insert(old(self).cursor(), value@),
            final(self).cursor() == old(self).cursor() + 1,
            final(self).width() == old(self).width(),
    {
        let ghost ord0 = self.order@;
        let ghost len0 = ord0.len() as int;
        let ghost p = self.pos@;
        let n = self.nodes.len();
        proof {
            if p >= 1 {
                assert(linked_at(self.nodes@, ord0, p - 1));
            }
            if p == 0 && len0 > 0 {
                assert(linked_at(self.nodes@, ord0, 0));
            }
        }
        let next_link: Option<usize> = match self.current {
            Some(c) => self.nodes[c].next,
            None => self.head,
        };
        proof {
            // the old successor of the cursor is the node at offset p
            assert(next_link == (if p < len0 {
                Some(ord0[p])
            } else {
                Option::<usize>::None
            }));
            if p < len0 {
                assert(linked_at(self.nodes@, ord0, p));
            }
        }
        self.nodes.push(InputBufNode { next: next_link, prev: self.current, value });
        match self.current {
            Some(c) => {
                self.nodes[c].next = Some(n);
            },
            None => {
                self.head = Some(n);
            },
        }
        match next_link {
            Some(j) => {
                self.nodes[j].prev = Some(n);
            },
            None => {},
        }
        self.current = Some(n);
        self.order = Ghost(ord0.insert(p, n));
        self.pos = Ghost(p + 1);
        proof {
            let ord1 = self.order@;
            let ns0 = old(self).nodes@;
            let ns = self.nodes@;
            ord0.insert_ensures(p, n);
            assert forall|k: int| 0 <= k < len0 implies #[trigger] ord0[k] < n by {
                assert(linked_at(ns0, ord0, k));
            }
            // the three touched slots: the pushed node, the old cursor node,
            // and the old successor; every other slot kept its links
            assert(ns[n as int].prev == old(self).current && ns[n as int].next == (if p < len0 {
                Some(ord0[p])
            } else {
                Option::<usize>::None
            }) && ns[n as int].value == value);
            assert forall|m: int|
                0 <= m < n && (p == 0 || m != ord0[p - 1] as int) && (p >= len0 || m != ord0[p] as int)
                implies ns[m] == ns0[m] by {}
            assert forall|i: int, j: int|
                0 <= i < ord1.len() && 0 <= j < ord1.len() && i != j implies ord1[i] != ord1[j] by {
                if i < p {
                    assert(ord1[i] == ord0[i]);
                } else if i > p {
                    assert(ord1[i] == ord0[i - 1]);
                }
                if j < p {
                    assert(ord1[j] == ord0[j]);
                } else if j > p {
                    assert(ord1[j] == ord0[j - 1]);
                }
            }
            assert forall|i: int| 0 <= i < ord1.len() implies #[trigger] linked_at(
                ns,
                ord1,
                i,
            ) by {
                if i < p - 1 {
                    assert(linked_at(ns0, ord0, i));
                    assert(ord1[i] == ord0[i]);
                    assert(ord1[i + 1] == ord0[i + 1]);
                    if i >= 1 {
                        assert(ord1[i - 1] == ord0[i - 1]);
                    }
                    assert(ns[ord0[i] as int] == ns0[ord0[i] as int]);
                } else if i == p - 1 {
                    // the old cursor node: next now names the new node
                    assert(linked_at(ns0, ord0, i));
                    assert(ord1[i] == ord0[i]);
                    assert(ord1[p] == n);
                    if i >= 1 {
                        assert(ord1[i - 1] == ord0[i - 1]);
                    }
                } else if i == p {
                    // the new node itself
                    assert(ord1[i] == n);
                    if p >= 1 {
                        assert(ord1[p - 1] == ord0[p - 1]);
                    }
                    if p < len0 {
                        assert(ord1[p + 1] == ord0[p]);
                    }
                } else if i == p + 1 {
                    // the old successor: prev now names the new node
                    assert(linked_at(ns0, ord0, p));
                    assert(ord1[i] == ord0[p]);
                    assert(ord1[p] == n);
                    if i < ord1.len() - 1 {
                        assert(ord1[i + 1] == ord0[i]);
                    }
                } else {
                    assert(linked_at(ns0, ord0, i - 1));
                    assert(ord1[i] == ord0[i - 1]);
                    assert(ord1[i - 1] == ord0[i - 2]);
                    if i < ord1.len() - 1 {
                        assert(ord1[i + 1] == ord0[i]);
                    }
                    assert(ns[ord0[i - 1] as int] == ns0[ord0[i - 1] as int]);
                }
            }
            old(self)@.insert_ensures(p, value@);
            assert forall|k: int|
                0 <= k < ord1.len() implies self@[k] == old(self)@.insert(p, value@)[k] by {
                if k < p {
                    assert(linked_at(ns0, ord0, k));
                    assert(ord1[k] == ord0[k]);
                    assert(old(self)@[k] == ns0[ord0[k] as int].value@);
                } else if k > p {
                    assert(linked_at(ns0, ord0, k - 1));
                    assert(ord1[k] == ord0[k - 1]);
                    assert(old(self)@[k - 1] == ns0[ord0[k - 1] as int].value@);
                }
            }
            assert(self@.len() == ord1.len() && old(self)@.insert(p, value@).len() == len0 + 1);
            assert(self@ =~= old(self)@.insert(p, value@));
            lemma_wrap_step(p, self.screen_width as int);
            lemma_div_nonincreasing(p, self.screen_width as int);
            // the arena length fits in usize, so the new offset p + 1 does too
            assert(spec_vec_len(&self.nodes) == ns.len());
            assert(p + 1 <= usize::MAX);
        }
        if self.idx + 1 == self.screen_width {
            self.idx = 0;
            self.line = self.line + 1;
        } else {
            self.idx = self.idx + 1;
        }
    }

    /// Removes the cell at the cursor, if any: its former neighbours are
    /// relinked directly to each other, the node before it becomes
    /// `current` (the cursor moves one cell left), and the coordinates
    /// retreat one cell with the row-boundary rule. With the cursor at the
    /// very start there is nothing at it, and the buffer is left unchanged.
    pub fn delete(&mut self)
        requires
            old(self).inv(),
        ensures
            final(self).inv(),
            final(self).width() == old(self).width(),
            old(self).cursor() == 0 ==> final(self)@ == old(self)@ && final(self).cursor() == 0,
            old(self).cursor() >= 1 ==> final(self)@ == old(self)@.remove(old(self).cursor() - 1)
                && final(self).cursor() == old(self).cursor() - 1,
    {
        let c = match self.current {
            Some(c) => c,
            None => {
                return ;
            },
        };
        let ghost ord0 = self.order@;
        let ghost len0 = ord0.len() as int;
        let ghost p = self.pos@;
        proof {
            assert(linked_at(self.nodes@, ord0, p - 1));
            if p >= 2 {
                assert(linked_at(self.nodes@, ord0, p - 2));
            }
            if p < len0 {
                assert(linked_at(self.nodes@, ord0, p));
            }
        }
        let pv = self.nodes[c].prev;
        let nx = self.nodes[c].next;
        match pv {
            Some(i) => {
                self.nodes[i].next = nx;
            },
            None => {
                self.head = nx;
            },
        }
        match nx {
            Some(j) => {
                self.nodes[j].prev = pv;
            },
            None => {},
        }
        self.current = pv;
        self.order = Ghost(ord0.remove(p - 1));
        self.pos = Ghost(p - 1);
        proof {
            let ord1 = self.order@;
            let ns0 = old(self).nodes@;
            let ns = self.nodes@;
            ord0.remove_ensures(p - 1);
            // only the two relinked slots changed; the removed slot goes dead
            assert forall|m: int|
                0 <= m < ns.len() && (p <= 1 || m != ord0[p - 2] as int) && (p >= len0 || m != ord0[p] as int)
                implies ns[m] == ns0[m] by {}
            assert forall|i: int, j: int|
                0 <= i < ord1.len() && 0 <= j < ord1.len() && i != j implies ord1[i] != ord1[j] by {
                if i < p - 1 {
                    assert(ord1[i] == ord0[i]);
                } else {
                    assert(ord1[i] == ord0[i + 1]);
                }
                if j < p - 1 {
                    assert(ord1[j] == ord0[j]);
                } else {
                    assert(ord1[j] == ord0[j + 1]);
                }
            }
            assert forall|i: int| 0 <= i < ord1.len() implies #[trigger] linked_at(
                ns,
                ord1,
                i,
            ) by {
                if i < p - 2 {
                    assert(linked_at(ns0, ord0, i));
                    assert(ord1[i] == ord0[i]);
                    assert(ord1[i + 1] == ord0[i + 1]);
                    if i >= 1 {
                        assert(ord1[i - 1] == ord0[i - 1]);
                    }
                    assert(ns[ord0[i] as int] == ns0[ord0[i] as int]);
                } else if i == p - 2 {
                    // the node before the removed one: next skips to its new successor
                    assert(linked_at(ns0, ord0, i));
                    assert(ord1[i] == ord0[i]);
                    if i >= 1 {
                        assert(ord1[i - 1] == ord0[i - 1]);
                    }
                    if i < ord1.len() - 1 {
                        assert(ord1[i + 1] == ord0[i + 2]);
                    }
                } else if i == p - 1 {
                    // the node after the removed one: prev skips back
                    assert(linked_at(ns0, ord0, p));
                    assert(ord1[i] == ord0[p]);
                    if i >= 1 {
                        assert(ord1[i - 1] == ord0[i - 1]);
                    }
                    if i < ord1.len() - 1 {
                        assert(ord1[i + 1] == ord0[i + 2]);
                    }
                } else {
                    assert(linked_at(ns0, ord0, i + 1));
                    assert(ord1[i] == ord0[i + 1]);
                    assert(ord1[i - 1] == ord0[i]);
                    if i < ord1.len() - 1 {
                        assert(ord1[i + 1] == ord0[i + 2]);
                    }
                    assert(ns[ord0[i + 1] as int] == ns0[ord0[i + 1] as int]);
                }
            }
            old(self)@.remove_ensures(p - 1);
            assert forall|k: int|
                0 <= k < ord1.len() implies self@[k] == old(self)@.remove(p - 1)[k] by {
                if k < p - 1 {
                    assert(linked_at(ns0, ord0, k));
                    assert(ord1[k] == ord0[k]);
                    assert(old(self)@[k] == ns0[ord0[k] as int].value@);
                } else {
                    assert(linked_at(ns0, ord0, k + 1));
                    assert(ord1[k] == ord0[k + 1]);
                    assert(old(self)@[k + 1] == ns0[ord0[k + 1] as int].value@);
                }
            }
            assert(self@ =~= old(self)@.remove(p - 1));
            lemma_unwrap_step(p, self.screen_width as int);
            lemma_div_pos_is_pos(p - 1, self.screen_width as int);
        }
        if self.idx == 0 {
            self.idx = self.screen_width - 1;
            self.line = self.line - 1;
        } else {
            self.idx = self.idx - 1;
        }
    }

    /// Moves the cursor one cell toward the tail: if `current` has a
    /// successor, that node becomes `current` and the coordinates advance
    /// one cell with the wrap rule. At the tail, or with nothing at the
    /// cursor, there is no further position and the buffer is unchanged.
    pub fn advance(&mut self)
        requires
            old(self).inv(),
        ensures
            final(self).inv(),
            final(self)@ == old(self)@,
            final(self).width() == old(self).width(),
            final(self).cursor() == advance_cursor(old(self).cursor(), old(self)@.len() as int),
    {
        let c = match self.current {
            Some(x) => x,
            None => {
                return ;
            },
        };
        let ghost ord0 = self.order@;
        let ghost p = self.pos@;
        proof {
            assert(linked_at(self.nodes@, ord0, p - 1));
        }
        match self.nodes[c].next {
            Some(x) => {
                self.current = Some(x);
                self.pos = Ghost(p + 1);
                proof {
                    lemma_wrap_step(p, self.screen_width as int);
                    lemma_div_nonincreasing(p, self.screen_width as int);
                    assert(spec_vec_len(&self.nodes) == self.nodes@.len());
                }
                if self.idx + 1 == self.screen_width {
                    self.idx = 0;
                    self.line = self.line + 1;
                } else {
                    self.idx = self.idx + 1;
                }
            },
            None => {},
        }
    }

    /// Moves the cursor one cell toward the head, mirroring `advance`: if
    /// `current` has a predecessor, that node becomes `current` and the
    /// coordinates retreat one cell with the row-boundary rule. At the
    /// head, or with nothing at the cursor, the buffer is unchanged.
    pub fn un_advance(&mut self)
        requires
            old(self).inv(),
        ensures
            final(self).inv(),
            final(self)@ == old(self)@,
            final(self).width() == old(self).width(),
            final(self).cursor() == un_advance_cursor(old(self).cursor()),
    {
        let c = match self.current {
            Some(x) => x,
            None => {
                return ;
            },
        };
        let ghost ord0 = self.order@;
        let ghost p = self.pos@;
        proof {
            assert(linked_at(self.nodes@, ord0, p - 1));
            if p >= 2 {
                assert(linked_at(self.nodes@, ord0, p - 2));
            }
        }
        match self.nodes[c].prev {
            Some(x) => {
                self.current = Some(x);
                self.pos = Ghost(p - 1);
                proof {
                    lemma_unwrap_step(p, self.screen_width as int);
                    lemma_div_pos_is_pos(p - 1, self.screen_width as int);
                }
                if self.idx == 0 {
                    self.idx = self.screen_width - 1;
                    self.line = self.line - 1;
                } else {
                    self.idx = self.idx - 1;
                }
            },
            None => {},
        }
    }

    /// Replaces the screen width and performs a full relayout: the list is
    /// walked from the head up to `current`, recounting the cells at or
    /// before the cursor, and the coordinates are recomputed from scratch
    /// under the new width. A width of 0 is clamped to 1, as in `new`.
    pub fn resize(&mut self, new_screen_width: usize)
        requires
            old(self).inv(),
        ensures
            final(self).inv(),
            final(self)@ == old(self)@,
            final(self).cursor() == old(self).cursor(),
            final(self).width() == if new_screen_width >= 1 {
                new_screen_width as int
            } else {
                1
            },
    {
        let w = if new_screen_width == 0 {
            1
        } else {
            new_screen_width
        };
        self.screen_width = w;
        let ghost ord0 = self.order@;
        let ghost p = self.pos@;
        let ghost snap = *self;
        let mut count: usize = 0;
        match self.current {
            None => {},
            Some(c) => {
                proof {
                    assert(spec_vec_len(&self.nodes) == self.nodes@.len());
                }
                let mut i: usize = self.head.unwrap();
                count = 1;
                while i != c
                    invariant
                        *self == snap,
                        snap.links_ok(),
                        ord0 == snap.order@,
                        p == snap.pos@,
                        1 <= p <= ord0.len(),
                        p <= usize::MAX,
                        c == ord0[p - 1],
                        1 <= count <= p,
                        i == ord0[count - 1],
                    decreases p - count,
                {
                    proof {
                        assert(linked_at(self.nodes@, ord0, count - 1));
                        // handles are distinct, so reaching `c` means offset p
                        assert(count < p);
                    }
                    i = self.nodes[i].next.unwrap();
                    count += 1;
                }
            },
        }
        proof {
            assert(count == p);
        }
        self.idx = count % w;
        self.line = count / w;
    }

    /// The full text content: the in-order concatenation of every unit
    /// from head to tail. Read-only; the cursor state is untouched.
    pub fn materialize(&self) -> (r: String)
        requires
            self.inv(),
        ensures
            r@ == self@.flatten(),
    {
        let ghost len0 = self.order@.len() as int;
        let mut r = String::new();
        let mut link = self.head;
        let ghost mut k: int = 0;
        while link.is_some()
            invariant
                self.inv(),
                0 <= k <= len0,
                len0 == self.order@.len(),
                link == (if k == len0 {
                    Option::<usize>::None
                } else {
                    Some(self.order@[k])
                }),
                r@ == self@.take(k).flatten(),
            decreases len0 - k,
        {
            let i = link.unwrap();
            proof {
                assert(linked_at(self.nodes@, self.order@, k));
            }
            r.append(self.nodes[i].value.as_str());
            link = self.nodes[i].next;
            proof {
                assert(self@[k] == self.nodes@[self.order@[k] as int].value@);
                self@.take(k).lemma_flatten_push(self@[k]);
                assert(self@.take(k).push(self@[k]) =~= self@.take(k + 1));
                k = k + 1;
            }
        }
        proof {
            assert(self@.take(len0) =~= self@);
        }
        r
    }

    /// The visual coordinates are always the full relayout of the cursor
    /// offset under the current width: the cursor sits on display row
    /// `offset / width`, at column `offset % width`. In particular, after
    /// inserting units one by one from an empty buffer the offset equals
    /// the number of units inserted, and immediately after a resize the
    /// coordinates agree with an independent relayout of the unchanged
    /// offset under the new width.
    pub proof fn lemma_coordinates_are_relayout(self)
        requires
            self.inv(),
        ensures
            0 <= self.cursor() <= self@.len(),
            self.width() >= 1,
            self.spec_line() == self.cursor() / self.width(),
            self.spec_idx() == self.cursor() % self.width(),
    {
    }

    /// An `advance` followed immediately by `un_advance` restores the
    /// cursor offset and both visual coordinates, from every position
    /// where `advance` has a cell to move over (and trivially from the
    /// start of the buffer, where both calls leave it unchanged). Here
    /// `b0` is the state before the pair, `b1` the state after `advance`,
    /// and `b2` the state after `un_advance`, each related to the one
    /// before it exactly as the two calls' contracts promise.
    pub proof fn lemma_advance_then_un_advance_restores(b0: InputBuf, b1: InputBuf, b2: InputBuf)
        requires
            b0.inv(),
            b1.inv(),
            b2.inv(),
            b0.cursor() <= 1 || b0.cursor() < b0@.len(),
            b1@ == b0@,
            b1.width() == b0.width(),
            b1.cursor() == advance_cursor(b0.cursor(), b0@.len() as int),
            b2@ == b1@,
            b2.width() == b1.width(),
            b2.cursor() == un_advance_cursor(b1.cursor()),
        ensures
            b2.cursor() == b0.cursor(),
            b2.spec_idx() == b0.spec_idx(),
            b2.spec_line() == b0.spec_line(),
    {
    }

    /// The cursor's visual coordinates, `(line, idx)`, for the renderer.
    pub fn cursor_position(&self) -> (r: (usize, usize))
        requires
            self.inv(),
        ensures
            r.0 == self.spec_line(),
            r.1 == self.spec_idx(),
            r.0 == self.cursor() / self.width(),
            r.1 == self.cursor() % self.width(),
    {
        (self.line, self.idx)
    }
}

} // verus!
