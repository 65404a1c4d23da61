//! Generic paginated selection menu over (preview, item) pairs: owns the
//! cursor and activation state, wraps on navigation, and renders one page
//! of previews into a bounded number of lines.

use vstd::prelude::*;
use crate::engine::Completion;
use crate::text::spec_truncate;
use crate::text::truncate;

verus! {

/// Abstract state of a menu: the item pairs in order, the cursor position,
/// and whether the menu is active.
pub ghost struct MenuView<P, M> {
    pub items: Seq<(P, M)>,
    pub cursor: nat,
    pub active: bool,
}

/// Where the cursor lands after one forward step in a list of `len` items:
/// one past `c`, wrapping from the last index to 0.
pub open spec fn next_cursor(c: nat, len: nat) -> nat {
    if c + 1 >= len {
        0
    } else {
        c + 1
    }
}

/// Where the cursor lands after one backward step in a list of `len`
/// items: one before `c`, wrapping from 0 to the last index.
pub open spec fn prev_cursor(c: nat, len: nat) -> nat {
    if c == 0 {
        if len == 0 {
            0
        } else {
            (len - 1) as nat
        }
    } else {
        (c - 1) as nat
    }
}

/// The cursor after `k` forward steps from `c`.
pub open spec fn iterate_next(c: nat, len: nat, k: nat) -> nat
    decreases k,
{
    if k == 0 {
        c
    } else {
        next_cursor(iterate_next(c, len, (k - 1) as nat), len)
    }
}

/// Up to `len` forward steps move the cursor by exactly that many places,
/// less one full turn once it has passed the end.
proof fn lemma_iterate_next_shift(c: nat, len: nat, k: nat)
    requires
        c < len,
        k <= len,
    ensures
        iterate_next(c, len, k) == if c + k < len {
            c + k
        } else {
            (c + k - len) as nat
        },
    decreases k,
{
    if k > 0 {
        lemma_iterate_next_shift(c, len, (k - 1) as nat);
    }
}

/// Wrap-around closure: in a non-empty list, stepping forward once per
/// item returns the cursor to where it started.
pub proof fn lemma_next_full_cycle(c: nat, len: nat)
    requires
        0 < len,
        c < len,
    ensures
        iterate_next(c, len, len) == c,
{
    lemma_iterate_next_shift(c, len, len);
}

/// One step back undoes one step forward, and one step forward undoes one
/// step back, at every cursor position of a non-empty list.
pub proof fn lemma_next_previous_inverse(c: nat, len: nat)
    requires
        0 < len,
        c < len,
    ensures
        prev_cursor(next_cursor(c, len), len) == c,
        next_cursor(prev_cursor(c, len), len) == c,
{
}

/// A paginated, previewable selector over a list of (preview, item) pairs.
/// Created inactive and empty; the host fills it with candidates,
/// activates it, navigates with wrapping, reads the selection, and
/// deactivates it. Navigation and queries on an inactive or empty menu are
/// safe no-ops, never faults.
pub struct SelectionMenu<P, M> {
    items: Vec<(P, M)>,
    cursor: usize,
    active: bool,
}

impl<P, M> View for SelectionMenu<P, M> {
    type V = MenuView<P, M>;

    closed spec fn view(&self) -> MenuView<P, M> {
        MenuView { items: self.items@, cursor: self.cursor as nat, active: self.active }
    }
}

impl<P, M> SelectionMenu<P, M> {
    /// The cursor stays inside the list, and rests at 0 while the list is
    /// empty.
    #[verifier::type_invariant]
    spec fn cursor_in_bounds(self) -> bool {
        if self.items@.len() == 0 {
            self.cursor == 0
        } else {
            self.cursor < self.items@.len()
        }
    }

    /// A new menu: no items, cursor at 0, inactive.
    pub fn new() -> (m: Self)
        ensures
            m@.items == Seq::<(P, M)>::empty(),
            m@.cursor == 0,
            !m@.active,
    {
        SelectionMenu { items: Vec::new(), cursor: 0, active: false }
    }

    /// Become active, but only if the menu holds at least one item; an
    /// empty menu stays as it was.
    pub fn activate(&mut self)
        ensures
            final (self)@.items == old(self)@.items,
            final (self)@.cursor == old(self)@.cursor,
            final (self)@.active == (old(self)@.active || old(self)@.items.len() > 0),
    {
        proof {
            use_type_invariant(&*self);
        }
        if self.items.len() > 0 {
            self.active = true;
        }
    }

    /// Become inactive and clear the cursor; the items stay until replaced.
    pub fn disactivate(&mut self)
        ensures
            final (self)@.items == old(self)@.items,
            final (self)@.cursor == 0,
            !final (self)@.active,
    {
        proof {
            use_type_invariant(&*self);
        }
        self.active = false;
        self.cursor = 0;
    }

    /// Move the cursor one item forward, wrapping from the last item to
    /// the first; a no-op while inactive or empty.
    pub fn next(&mut self)
        ensures
            final (self)@.items == old(self)@.items,
            final (self)@.active == old(self)@.active,
            final (self)@.cursor == if old(self)@.active && old(self)@.items.len() > 0 {
                next_cursor(old(self)@.cursor, old(self)@.items.len())
            } else {
                old(self)@.cursor
            },
    {
        proof {
            use_type_invariant(&*self);
        }
        if self.active && self.items.len() > 0 {
            let c = if self.cursor + 1 >= self.items.len() {
                0
            } else {
                self.cursor + 1
            };
            self.cursor = c;
        }
    }

    /// Move the cursor one item backward, wrapping from the first item to
    /// the last; a no-op while inactive or empty.
    pub fn previous(&mut self)
        ensures
            final (self)@.items == old(self)@.items,
            final (self)@.active == old(self)@.active,
            final (self)@.cursor == if old(self)@.active && old(self)@.items.len() > 0 {
                prev_cursor(old(self)@.cursor, old(self)@.items.len())
            } else {
                old(self)@.cursor
            },
    {
        proof {
            use_type_invariant(&*self);
        }
        if self.active && self.items.len() > 0 {
            let c = if self.cursor == 0 {
                self.items.len() - 1
            } else {
                self.cursor - 1
            };
            self.cursor = c;
        }
    }

    /// The item under the cursor, exactly when the menu is active and
    /// non-empty; the menu itself is left as it is, deactivation being the
    /// caller's explicit step.
    pub fn accept(&self) -> (r: Option<&M>)
        ensures
            r is Some <==> (self@.active && self@.items.len() > 0),
            r matches Some(m) ==> *m == self@.items[self@.cursor as int].1,
    {
        proof {
            use_type_invariant(self);
        }
        if self.active && self.items.len() > 0 {
            Some(&self.items[self.cursor].1)
        } else {
            None
        }
    }

    /// The item under the cursor without any state change: the same answer
    /// as `accept`.
    pub fn current_selection(&self) -> (r: Option<&M>)
        ensures
            r is Some <==> (self@.active && self@.items.len() > 0),
            r matches Some(m) ==> *m == self@.items[self@.cursor as int].1,
    {
        proof {
            use_type_invariant(self);
        }
        if self.active && self.items.len() > 0 {
            Some(&self.items[self.cursor].1)
        } else {
            None
        }
    }

    /// The current cursor position: 0 while the list is empty, and a
    /// valid index into it otherwise.
    pub fn cursor(&self) -> (c: usize)
        ensures
            c == self@.cursor,
            self@.items.len() == 0 ==> c == 0,
            self@.items.len() > 0 ==> c < self@.items.len(),
    {
        proof {
            use_type_invariant(&*self);
        }
        self.cursor
    }

    /// Whether the menu is active.
    pub fn is_active(&self) -> (b: bool)
        ensures
            b == self@.active,
    {
        self.active
    }

    /// The current list of (preview, item) pairs, for read-only iteration.
    pub fn items(&self) -> (v: &Vec<(P, M)>)
        ensures
            v@ == self@.items,
    {
        &self.items
    }

    /// Replace the whole item list and reset the cursor to 0; whether the
    /// menu is active does not change.
    pub fn set_items(&mut self, items: Vec<(P, M)>)
        ensures
            final (self)@.items == items@,
            final (self)@.cursor == 0,
            final (self)@.active == old(self)@.active,
    {
        self.cursor = 0;
        self.items = items;
    }
}

/// A menu item that carries the completion it stands for.
pub struct Mesh(pub Completion);

impl Mesh {
    /// The completion this item was built from.
    pub fn as_ref(&self) -> (r: &Completion)
        ensures
            *r == self.0,
    {
        &self.0
    }
}

/// The human-readable rendering of a menu item; turning it into text never
/// fails.
pub struct MeshPreview(pub String);

impl MeshPreview {
    /// The preview text itself.
    pub fn text(&self) -> (r: &str)
        ensures
            r@ == self.0@,
    {
        self.0.as_str()
    }
}

/// How many of `len` items fit on the page the cursor is on when each page
/// holds `rows` items: the first index of that page.
pub open spec fn page_start(cursor: nat, rows: nat) -> nat
    recommends
        rows > 0,
{
    (cursor / rows) * rows
}

/// How many terminal rows a render will need: nothing while inactive, and
/// otherwise at most one page worth of items.
pub open spec fn spec_required_lines(len: nat, active: bool, max_rows: nat) -> nat {
    if !active {
        0
    } else if len <= max_rows {
        len
    } else {
        max_rows
    }
}

impl<M> SelectionMenu<MeshPreview, M> {
    /// How many terminal rows `render_lines` may produce for this menu
    /// under a budget of `max_rows` rows; a pure function of the current
    /// state and the budget.
    pub fn required_lines(&self, max_rows: usize) -> (n: usize)
        ensures
            n == spec_required_lines(self@.items.len(), self@.active, max_rows as nat),
    {
        if !self.active {
            0
        } else if self.items.len() <= max_rows {
            self.items.len()
        } else {
            max_rows
        }
    }

    /// The page of preview lines the cursor is on: nothing while inactive
    /// or with no row budget; otherwise one preview per line from the
    /// start of the cursor's page, each shortened to `width` characters by
    /// the ellipsis rule, and never more lines than `required_lines`
    /// allows.
    pub fn render_lines(&self, width: usize, max_rows: usize) -> (lines: Vec<String>)
        ensures
            lines@.len() <= spec_required_lines(self@.items.len(), self@.active, max_rows as nat),
            !(self@.active && max_rows > 0) ==> lines@.len() == 0,
            self@.active && max_rows > 0 ==> {
                let start = page_start(self@.cursor, max_rows as nat);
                &&& lines@.len() == if self@.items.len() - start <= max_rows as int {
                    self@.items.len() - start
                } else {
                    max_rows as int
                }
                &&& forall|i: int|
                    0 <= i < lines@.len() ==> #[trigger] lines@[i]@ == spec_truncate(
                        self@.items[start + i].0.0@,
                        width as nat,
                    )
            },
    {
        proof {
            use_type_invariant(&*self);
        }
        if !self.active || max_rows == 0 {
            return Vec::new();
        }
        let c = self.cursor;
        proof {
            vstd::arithmetic::div_mod::lemma_fundamental_div_mod(c as int, max_rows as int);
            vstd::arithmetic::div_mod::lemma_mod_bound(c as int, max_rows as int);
            assert((c as int / max_rows as int) * (max_rows as int) == (max_rows as int) * (
            c as int / max_rows as int)) by (nonlinear_arith);
            assert((c as int / max_rows as int) * (max_rows as int) <= c as int);
        }
        let start = (c / max_rows) * max_rows;
        let remaining = self.items.len() - start;
        let count = if remaining <= max_rows {
            remaining
        } else {
            max_rows
        };
        let mut lines: Vec<String> = Vec::new();
        let mut i: usize = 0;
        while i < count
            invariant
                start + count <= self.items@.len() <= usize::MAX,
                i <= count,
                lines@.len() == i,
                forall|k: int|
                    0 <= k < i ==> #[trigger] lines@[k]@ == spec_truncate(
                        self.items@[start + k].0.0@,
                        width as nat,
                    ),
            decreases count - i,
        {
            lines.push(truncate(self.items[start + i].0.text(), width));
            i = i + 1;
        }
        lines
    }
}

} // verus!
