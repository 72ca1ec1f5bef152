//! Signals: mutable reactive cells.
use crate::model::{Effect, Formula};
use crate::propagation::{propagates, trigger_all, written};
use crate::runtime::Runtime;
use std::marker::PhantomData;
use vstd::prelude::*;

verus! {

/// A handle to a mutable cell of a runtime. Copies of a handle name the
/// same cell.
pub struct Ref<T> {
    index: usize,
    marker: PhantomData<T>,
}

impl<T: Copy> Ref<T> {
    /// The index of the cell that this handle names.
    pub closed spec fn cell(self) -> usize {
        self.index
    }

    /// Adds a cell that holds `value` and has no subscriber.
    pub fn new<E, C>(rt: &mut Runtime<T, E, C>, value: T) -> (r: Self)
        ensures
            r.cell() == old(rt)@.cells.len(),
            final(rt)@ == old(rt)@.with_cell(value),
    {
        let index = rt.add_cell(value);
        Ref { index, marker: PhantomData }
    }

    /// The index of the cell that this handle names.
    pub fn index(&self) -> (i: usize)
        ensures
            i == self.cell(),
    {
        self.index
    }

    /// Whether `rt` has the cell that this handle names.
    pub fn is_live<E, C>(&self, rt: &Runtime<T, E, C>) -> (b: bool)
        ensures
            b == rt@.has_cell(self.cell()),
    {
        self.index < rt.cell_count()
    }

    /// Returns the value of the cell. Where an effect is running, it is
    /// recorded as one more subscriber of the cell, also where it is one
    /// already.
    pub fn get<E, C>(&self, rt: &mut Runtime<T, E, C>) -> (value: T)
        requires
            old(rt)@.has_cell(self.cell()),
        ensures
            value == old(rt)@.cells[self.cell() as int].value,
            final(rt)@ == old(rt)@.read(self.cell()),
    {
        rt.read_cell(self.index)
    }

    /// Replaces the value of the cell, then fires the cell's subscribers.
    /// The call returns when each of them has run to its end, with
    /// everything that it triggered in turn: no run is put off. Where `rt`
    /// does not have the cell, nothing happens.
    ///
    /// A cascade is cut short in one case only: a run that would nest
    /// deeper than the runtime's limit is refused and the fault recorded.
    /// With the limit of [`Runtime::new`] a dependency cycle recurses until
    /// the stack is exhausted instead, which ends the process.
    pub fn set<E: Effect<T, C>, C: Formula<T, E>>(&self, rt: &mut Runtime<T, E, C>, new_value: T)
        ensures
            written(old(rt)@, self.cell(), new_value, final(rt)@),
    {
        if self.index < rt.cell_count() {
            rt.store(self.index, new_value);
            self.trigger(rt);
        }
    }

    /// Fires the effects that subscribed to the cell up to this moment, in
    /// the order of their subscriptions.
    pub(crate) fn trigger<E: Effect<T, C>, C: Formula<T, E>>(&self, rt: &mut Runtime<T, E, C>)
        requires
            old(rt)@.has_cell(self.cell()),
        ensures
            propagates(old(rt)@, old(rt)@.cells[self.cell() as int].subscribers, final(rt)@),
    {
        let ids = rt.subscribers(self.index);
        trigger_all(rt, &ids);
    }

    /// Reads the cell as [`Ref::get`] does, applies `update_fn` to the
    /// value, and writes the result as [`Ref::set`] does.
    pub fn update<E: Effect<T, C>, C: Formula<T, E>, F: FnOnce(T) -> T>(
        &self,
        rt: &mut Runtime<T, E, C>,
        update_fn: F,
    )
        requires
            old(rt)@.has_cell(self.cell()),
            call_requires(update_fn, (old(rt)@.cells[self.cell() as int].value,)),
        ensures
            exists|new_value: T| #[trigger]
                call_ensures(update_fn, (old(rt)@.cells[self.cell() as int].value,), new_value)
                    && written(old(rt)@.read(self.cell()), self.cell(), new_value, final(rt)@),
    {
        let value = update_fn(self.get(rt));
        self.set(rt, value);
    }
}

impl<T> Clone for Ref<T> {
    /// Another handle to the same cell.
    fn clone(&self) -> (r: Self)
        ensures
            r == *self,
    {
        Ref { index: self.index, marker: PhantomData }
    }
}

impl<T> Copy for Ref<T> {

}

/// Adds a cell that holds `value` to `rt`.
pub fn use_ref<T: Copy, E, C>(rt: &mut Runtime<T, E, C>, value: T) -> (r: Ref<T>)
    ensures
        r.cell() == old(rt)@.cells.len(),
        final(rt)@ == old(rt)@.with_cell(value),
{
    Ref::new(rt, value)
}

} // verus!
