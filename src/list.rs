use vstd::prelude::*;

verus! {

/// Drawn before the selected row of the list.
pub const HIGHLIGHT_SYMBOL: &'static str = "> ";

/// The cursor after `next` over `len` items: nothing selected or the last item
/// selected moves to the first item, any other selection moves one down. With
/// no items the cursor stays as it is.
pub open spec fn next_cursor(cursor: Option<usize>, len: nat) -> Option<usize> {
    if len == 0 {
        cursor
    } else {
        match cursor {
            Some(i) => if i + 1 < len {
                Some((i + 1) as usize)
            } else {
                Some(0usize)
            },
            None => Some(0usize),
        }
    }
}

/// The cursor after `previous` over `len` items: nothing selected moves to the
/// first item (not the last), the first item wraps to the last, any other
/// selection moves one up. With no items the cursor stays as it is.
pub open spec fn previous_cursor(cursor: Option<usize>, len: nat) -> Option<usize> {
    if len == 0 {
        cursor
    } else {
        match cursor {
            Some(i) => if i == 0 {
                Some((len - 1) as usize)
            } else {
                Some((i - 1) as usize)
            },
            None => Some(0usize),
        }
    }
}

/// The cursor after `unselect`: nothing is selected, whatever was before.
pub open spec fn unselect_cursor(cursor: Option<usize>) -> Option<usize> {
    None
}

/// The cursor after `next` applied `k` times.
pub open spec fn next_times(cursor: Option<usize>, len: nat, k: nat) -> Option<usize>
    decreases k,
{
    if k == 0 {
        cursor
    } else {
        next_cursor(next_times(cursor, len, (k - 1) as nat), len)
    }
}

/// A cursor that points into `len` items, or points nowhere.
pub open spec fn cursor_in_range(cursor: Option<usize>, len: nat) -> bool {
    match cursor {
        Some(i) => i < len,
        None => true,
    }
}

/// A fixed sequence of items with an optional selection that moves with
/// wraparound at both ends.
pub struct FuzzyList<T> {
    items: Vec<T>,
    selected: Option<usize>,
    filter: Option<String>,
}

impl<T> FuzzyList<T> {
    #[verifier::type_invariant]
    spec fn cursor_valid(&self) -> bool {
        cursor_in_range(self.selected, self.items@.len())
    }

    /// The items, in order.
    pub closed spec fn elements(&self) -> Seq<T> {
        self.items@
    }

    /// The index of the selected item, if any.
    pub closed spec fn cursor(&self) -> Option<usize> {
        self.selected
    }

    /// The filter text, which nothing applies yet.
    pub closed spec fn filter_text(&self) -> Option<String> {
        self.filter
    }

    /// A list over `items` with nothing selected and no filter.
    pub fn with_items(items: Vec<T>) -> (r: Self)
        ensures
            r.elements() == items@,
            r.cursor() is None,
            r.filter_text() is None,
    {
        FuzzyList { items, selected: None, filter: None }
    }

    /// Selects the next item, wrapping from the last to the first.
    pub fn next(&mut self)
        ensures
            final(self).elements() == old(self).elements(),
            final(self).filter_text() == old(self).filter_text(),
            final(self).cursor() == next_cursor(old(self).cursor(), old(self).elements().len()),
    {
        proof {
            use_type_invariant(&*self);
        }
        let len = self.items.len();
        if len == 0 {
            return;
        }
        let i: usize = match self.selected {
            Some(i) if i < len - 1 => i + 1,
            _ => 0,
        };
        self.selected = Some(i);
    }

    /// Selects the previous item, wrapping from the first to the last; with
    /// nothing selected it selects the first item.
    pub fn previous(&mut self)
        ensures
            final(self).elements() == old(self).elements(),
            final(self).filter_text() == old(self).filter_text(),
            final(self).cursor() == previous_cursor(
                old(self).cursor(),
                old(self).elements().len(),
            ),
    {
        proof {
            use_type_invariant(&*self);
        }
        let len = self.items.len();
        if len == 0 {
            return;
        }
        let start_of_list: usize = 0;
        let end_of_list: usize = len - 1;
        let i: usize = match self.selected {
            Some(i) if i == 0 => end_of_list,
            Some(i) => i - 1,
            None => start_of_list,
        };
        self.selected = Some(i);
    }

    /// Clears the selection.
    pub fn unselect(&mut self)
        ensures
            final(self).elements() == old(self).elements(),
            final(self).filter_text() == old(self).filter_text(),
            final(self).cursor() == unselect_cursor(old(self).cursor()),
    {
        self.selected = None;
    }

    /// The items, in order.
    pub fn items(&self) -> (r: &Vec<T>)
        ensures
            r@ == self.elements(),
    {
        &self.items
    }

    /// The index of the selected item, if any; it always points into the items.
    pub fn selected(&self) -> (r: Option<usize>)
        ensures
            r == self.cursor(),
            cursor_in_range(r, self.elements().len()),
    {
        proof {
            use_type_invariant(self);
        }
        self.selected
    }

    /// The filter text, which has no effect on the items or the selection.
    pub fn filter(&self) -> (r: &Option<String>)
        ensures
            *r == self.filter_text(),
    {
        &self.filter
    }
}

proof fn lemma_next_times_from_none(len: nat, k: nat)
    requires
        1 <= k <= len <= usize::MAX,
    ensures
        next_times(None, len, k) == Some((k - 1) as usize),
    decreases k,
{
    assert(next_times(None, len, k) == next_cursor(next_times(None, len, (k - 1) as nat), len));
    if k > 1 {
        lemma_next_times_from_none(len, (k - 1) as nat);
    } else {
        assert(next_times(None, len, 0) is None);
    }
}

proof fn lemma_next_times_from_first(len: nat, k: nat)
    requires
        k < len <= usize::MAX,
    ensures
        next_times(Some(0usize), len, k) == Some(k as usize),
    decreases k,
{
    if k > 0 {
        lemma_next_times_from_first(len, (k - 1) as nat);
        assert(next_times(Some(0usize), len, k) == next_cursor(
            next_times(Some(0usize), len, (k - 1) as nat),
            len,
        ));
    }
}

/// A full wraparound cycle of `next`: from the first item, one `next` per item
/// comes back to the first item. From no selection the first `next` only
/// selects the first item, so there `len` steps end on the last item and one
/// more step comes back to the first.
pub proof fn lemma_next_full_cycle(len: nat)
    requires
        0 < len <= usize::MAX,
    ensures
        next_times(Some(0usize), len, len) == Some(0usize),
        next_times(None, len, len) == Some((len - 1) as usize),
        next_times(None, len, len + 1) == Some(0usize),
{
    lemma_next_times_from_first(len, (len - 1) as nat);
    assert(next_times(Some(0usize), len, len) == next_cursor(
        next_times(Some(0usize), len, (len - 1) as nat),
        len,
    ));
    lemma_next_times_from_none(len, len);
    assert(next_times(None, len, len + 1) == next_cursor(next_times(None, len, len), len));
}

/// `previous` with nothing selected selects the first item, and from the first
/// item it wraps to the last.
pub proof fn lemma_previous_edges(len: nat)
    requires
        0 < len <= usize::MAX,
    ensures
        previous_cursor(None, len) == Some(0usize),
        previous_cursor(Some(0usize), len) == Some((len - 1) as usize),
{
}

/// Over no items, `next` and `previous` leave an empty selection empty.
pub proof fn lemma_empty_navigation()
    ensures
        next_cursor(None, 0) is None,
        previous_cursor(None, 0) is None,
{
}

/// Clearing the selection twice leaves the same state as clearing it once.
pub proof fn lemma_unselect_idempotent(cursor: Option<usize>)
    ensures
        unselect_cursor(unselect_cursor(cursor)) == unselect_cursor(cursor),
        unselect_cursor(cursor) is None,
{
}

} // verus!
