use std::collections::VecDeque;
use vstd::prelude::*;

verus! {

/// The mathematical model of an [`UndoHistory`]: the stored values (oldest first),
/// the position of the current value and the number of values that may be kept.
pub struct HistoryModel<T> {
    pub entries: Seq<T>,
    pub index: nat,
    pub capacity: nat,
}

impl<T> HistoryModel<T> {
    /// At least one value is kept, never more than the capacity, and the current
    /// position points at a stored value.
    pub open spec fn inv(self) -> bool {
        &&& 0 < self.capacity
        &&& 1 <= self.entries.len() <= self.capacity
        &&& self.index < self.entries.len()
    }

    pub open spec fn current(self) -> T {
        self.entries[self.index as int]
    }

    /// Stepping back one position; nothing changes at the oldest value.
    pub open spec fn undo(self) -> HistoryModel<T> {
        if self.index == 0 {
            self
        } else {
            HistoryModel { index: (self.index - 1) as nat, ..self }
        }
    }

    /// Stepping forward one position; nothing changes at the newest value.
    pub open spec fn redo(self) -> HistoryModel<T> {
        if self.index + 1 == self.entries.len() {
            self
        } else {
            HistoryModel { index: self.index + 1, ..self }
        }
    }

    /// The history after `n` steps back, one at a time.
    pub open spec fn undo_times(self, n: nat) -> HistoryModel<T>
        decreases n,
    {
        if n == 0 {
            self
        } else {
            self.undo().undo_times((n - 1) as nat)
        }
    }

    /// The history after `n` steps forward, one at a time.
    pub open spec fn redo_times(self, n: nat) -> HistoryModel<T>
        decreases n,
    {
        if n == 0 {
            self
        } else {
            self.redo().redo_times((n - 1) as nat)
        }
    }

    /// Everything after the current value is dropped and `value` becomes the new
    /// current value; when the history is full, the oldest value is dropped.
    pub open spec fn commit(self, value: T) -> HistoryModel<T> {
        let kept = self.entries.take(self.index + 1 as int);
        if kept.len() == self.capacity {
            HistoryModel { entries: kept.drop_first().push(value), index: self.index, capacity: self.capacity }
        } else {
            HistoryModel { entries: kept.push(value), index: self.index + 1, capacity: self.capacity }
        }
    }
}

/// A bounded history of values with undo and redo.
#[derive(Debug)]
pub struct UndoHistory<T> {
    history: VecDeque<T>,
    current_index: usize,
    capacity: usize,
}

impl<T> View for UndoHistory<T> {
    type V = HistoryModel<T>;

    closed spec fn view(&self) -> HistoryModel<T> {
        HistoryModel { entries: self.history@, index: self.current_index as nat, capacity: self.capacity as nat }
    }
}

impl<T> UndoHistory<T> {
    pub open spec fn wf(&self) -> bool {
        self@.inv()
    }

    /// Creates a history that holds `initial` and keeps at most `capacity` values.
    pub fn new(capacity: usize, initial: T) -> (res: Self)
        requires
            capacity > 0,
        ensures
            res.wf(),
            res@.entries == seq![initial],
            res@.index == 0,
            res@.capacity == capacity,
    {
        let mut history = VecDeque::with_capacity(capacity);
        history.push_back(initial);
        let res = Self { history, current_index: 0, capacity };
        assert(res@.entries =~= seq![initial]);
        res
    }

    /// Steps back to the previous value and returns it, or returns `None` at the oldest value.
    pub fn undo(&mut self) -> (res: Option<&T>)
        requires
            old(self).wf(),
        ensures
            final(self).wf(),
            final(self)@ == old(self)@.undo(),
            res == (if old(self)@.index == 0 {
                None
            } else {
                Some(&old(self)@.entries[old(self)@.index - 1])
            }),
    {
        if self.current_index == 0 {
            return None;
        }
        self.current_index -= 1;
        Some(&self.history[self.current_index])
    }

    /// Steps forward to the next value and returns it, or returns `None` at the newest value.
    pub fn redo(&mut self) -> (res: Option<&T>)
        requires
            old(self).wf(),
        ensures
            final(self).wf(),
            final(self)@ == old(self)@.redo(),
            res == (if old(self)@.index + 1 == old(self)@.entries.len() {
                None
            } else {
                Some(&old(self)@.entries[old(self)@.index + 1 as int])
            }),
    {
        if self.current_index + 1 == self.history.len() {
            return None;
        }
        self.current_index += 1;
        Some(&self.history[self.current_index])
    }

    /// Drops every value after the current one and appends `value` as the new current value.
    pub fn commit_change(&mut self, value: T)
        requires
            old(self).wf(),
        ensures
            final(self).wf(),
            final(self)@ == old(self)@.commit(value),
    {
        let ghost old_entries = self.history@;
        self.history.truncate(self.current_index + 1);
        assert(self.history@ =~= old_entries.take(self.current_index + 1));
        if self.history.len() == self.capacity {
            let _ = self.history.pop_front();
        } else {
            self.current_index += 1;
        }
        self.history.push_back(value);
        assert(self@.entries =~= old(self)@.commit(value).entries);
    }

    pub fn current(&self) -> (res: &T)
        requires
            self.wf(),
        ensures
            *res == self@.current(),
    {
        &self.history[self.current_index]
    }

    pub fn current_index(&self) -> (res: usize)
        ensures
            res == self@.index,
    {
        self.current_index
    }

    pub fn len(&self) -> (res: usize)
        ensures
            res == self@.entries.len(),
    {
        self.history.len()
    }

    /// The number of values the history keeps at most.
    pub fn capacity(&self) -> (res: usize)
        ensures
            res == self@.capacity,
    {
        self.capacity
    }

    /// Keeps only the current value, which becomes the new initial value: nothing is
    /// left to undo or to redo.
    pub fn clear(&mut self)
        requires
            old(self).wf(),
        ensures
            final(self).wf(),
            final(self)@.entries == seq![old(self)@.current()],
            final(self)@.index == 0,
            final(self)@.capacity == old(self)@.capacity,
    {
        let current = self.history.remove(self.current_index);
        self.history.clear();
        match current {
            Some(v) => self.history.push_back(v),
            None => {},
        }
        self.current_index = 0;
        assert(self@.entries =~= seq![old(self)@.current()]);
    }

    /// Replaces all stored values by `initial_value`.
    pub fn clear_with_new_initial(&mut self, initial_value: T)
        requires
            old(self).wf(),
        ensures
            final(self).wf(),
            final(self)@.entries == seq![initial_value],
            final(self)@.index == 0,
            final(self)@.capacity == old(self)@.capacity,
    {
        self.history.clear();
        self.history.push_back(initial_value);
        self.current_index = 0;
        assert(self@.entries =~= seq![initial_value]);
    }
}

/// Undoing a step and redoing it returns to the same state.
pub proof fn lemma_redo_undoes_undo<T>(h: HistoryModel<T>)
    requires
        h.inv(),
        h.index > 0,
    ensures
        h.undo().redo() == h,
{
}

/// Redoing a step and undoing it returns to the same state.
pub proof fn lemma_undo_undoes_redo<T>(h: HistoryModel<T>)
    requires
        h.inv(),
        h.index + 1 < h.entries.len(),
    ensures
        h.redo().undo() == h,
{
}

/// From any history, exactly as many steps back succeed as the current position: after
/// `n` steps back the next one still finds a value exactly when `n` is below the current
/// position, and the stored values are untouched.
pub proof fn lemma_undo_count<T>(h: HistoryModel<T>, n: nat)
    requires
        h.inv(),
    ensures
        h.undo_times(n).inv(),
        h.undo_times(n).entries == h.entries,
        h.undo_times(n).capacity == h.capacity,
        h.undo_times(n).index > 0 <==> n < h.index,
        n <= h.index ==> h.undo_times(n).index == h.index - n,
        n >= h.index ==> h.undo_times(n).index == 0,
    decreases n,
{
    if n > 0 {
        lemma_undo_count(h.undo(), (n - 1) as nat);
    }
}

/// From any history, exactly as many steps forward succeed as there are values after the
/// current one: after `n` steps forward the next one still finds a value exactly when `n`
/// is below that number, and the stored values are untouched.
pub proof fn lemma_redo_count<T>(h: HistoryModel<T>, n: nat)
    requires
        h.inv(),
    ensures
        h.redo_times(n).inv(),
        h.redo_times(n).entries == h.entries,
        h.redo_times(n).capacity == h.capacity,
        h.redo_times(n).index + 1 < h.entries.len() <==> n < h.entries.len() - 1 - h.index,
        n <= h.entries.len() - 1 - h.index ==> h.redo_times(n).index == h.index + n,
        n >= h.entries.len() - 1 - h.index ==> h.redo_times(n).index + 1 == h.entries.len(),
    decreases n,
{
    if n > 0 {
        lemma_redo_count(h.redo(), (n - 1) as nat);
    }
}

/// A commit keeps every value up to the current one and appends the new value; the oldest
/// value is dropped only when that would hold more values than the capacity. So the history
/// then holds `min(index + 2, capacity)` values, the new value is current and last, and
/// below the capacity the current position moves one step on.
pub proof fn lemma_commit_drops_only_when_full<T>(h: HistoryModel<T>, value: T)
    requires
        h.inv(),
    ensures
        h.commit(value).capacity == h.capacity,
        h.commit(value).entries.len() == if h.index + 2 <= h.capacity { h.index + 2int } else { h.capacity as int },
        h.commit(value).index + 1 == h.commit(value).entries.len(),
        h.index + 1 < h.capacity ==> h.commit(value).index == h.index + 1,
        h.commit(value).entries.last() == value,
        forall|i: int| 0 <= i < h.commit(value).entries.len() - 1 ==> #[trigger] h.commit(value).entries[i]
            == h.entries[i + (h.index + 2 - h.commit(value).entries.len())],
{
    let kept = h.entries.take(h.index + 1 as int);
    let c = h.commit(value);
    assert(kept.len() == h.index + 1);
    assert forall|i: int| 0 <= i < c.entries.len() - 1 implies #[trigger] c.entries[i]
        == h.entries[i + (h.index + 2 - c.entries.len())] by {
        if kept.len() == h.capacity {
            assert(c.entries[i] == kept[i + 1]);
        } else {
            assert(c.entries[i] == kept[i]);
        }
    }
}

/// After a commit the committed value is current, nothing is left to redo, and
/// (with room for at least two values) undo brings back the value that was current before.
pub proof fn lemma_commit_then_undo<T>(h: HistoryModel<T>, value: T)
    requires
        h.inv(),
    ensures
        h.commit(value).inv(),
        h.commit(value).current() == value,
        h.commit(value).redo() == h.commit(value),
        h.capacity >= 2 ==> h.commit(value).undo().current() == h.current(),
{
    let kept = h.entries.take(h.index + 1 as int);
    assert(kept.len() == h.index + 1);
    if kept.len() == h.capacity {
        assert(kept.drop_first().push(value)[h.index as int] == value);
    } else {
        assert(kept.push(value)[h.index + 1 as int] == value);
    }
}

/// Every operation keeps the invariant of the history.
pub proof fn lemma_operations_keep_invariant<T>(h: HistoryModel<T>, value: T)
    requires
        h.inv(),
    ensures
        h.undo().inv(),
        h.redo().inv(),
        h.commit(value).inv(),
        h.commit(value).capacity == h.capacity,
{
}

/// A property of every stored value holds after committing a value that has it.
pub proof fn lemma_commit_keeps_property<T>(h: HistoryModel<T>, value: T, p: spec_fn(T) -> bool)
    requires
        h.inv(),
        forall|i: int| 0 <= i < h.entries.len() ==> p(#[trigger] h.entries[i]),
        p(value),
    ensures
        forall|i: int| 0 <= i < h.commit(value).entries.len() ==> p(#[trigger] h.commit(value).entries[i]),
{
    let kept = h.entries.take(h.index + 1 as int);
    let c = h.commit(value);
    assert forall|i: int| 0 <= i < c.entries.len() implies p(#[trigger] c.entries[i]) by {
        if kept.len() == h.capacity {
            if i < c.entries.len() - 1 {
                assert(c.entries[i] == h.entries[i + 1]);
            }
        } else {
            if i < c.entries.len() - 1 {
                assert(c.entries[i] == h.entries[i]);
            }
        }
    }
}

} // verus!
