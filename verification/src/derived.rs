//! Computed values: cached values derived from other cells.
use crate::model::{Effect, Entry, Formula, Model};
use crate::propagation::{fire, fires, propagates, trigger_all, written};
use crate::runtime::{Runtime, Slot};
use std::marker::PhantomData;
use std::rc::Rc;
use vstd::prelude::*;

verus! {

/// A handle to a derived cell of a runtime. The cell caches the last result
/// of a formula; an updater effect that the cell owns recomputes it
/// whenever a cell that the formula read is written.
pub struct Computed<T> {
    index: usize,
    marker: PhantomData<T>,
}

/// Constructing a computed value from `formula` in state `pre` may end in
/// state `post` with the value in cell `cell`.
///
/// The formula is evaluated once for the first value, which goes into a new
/// cell. Then the cell's updater is registered and fired, which evaluates
/// the formula once more; the cells read during that second evaluation get
/// the updater as a subscriber. The first evaluation loses no registration.
pub open spec fn constructs<T, E: Effect<T, C>, C: Formula<T, E>>(
    pre: Model<T, E, C>,
    formula: C,
    cell: usize,
    post: Model<T, E, C>,
) -> bool {
    exists|first: T, mid: Model<T, E, C>| #[trigger]
        formula.yields(pre, first, mid) && pre.grows_to(mid) && cell == mid.cells.len() && fires(
            mid.with_cell(first).registered(Entry::Updater { cell, formula }),
            mid.registry.len() as usize,
            post,
        )
}

impl<T: Copy> Computed<T> {
    /// The index of the cell that this handle names.
    pub closed spec fn cell(self) -> usize {
        self.index
    }

    /// The handle to cell `index`.
    pub(crate) fn at(index: usize) -> (c: Self)
        ensures
            c.cell() == index,
    {
        Computed { index, marker: PhantomData }
    }

    /// Makes a derived cell from `compute_fn`.
    pub fn new<E: Effect<T, C>, C: Formula<T, E>>(rt: &mut Runtime<T, E, C>, compute_fn: C) -> (c: Self)
        ensures
            constructs(old(rt)@, compute_fn, c.cell(), final(rt)@),
    {
        let formula = Rc::new(compute_fn);
        let first = formula.eval(rt);
        let ghost mid = rt@;
        let index = rt.add_cell(first);
        let id = rt.register(Slot::Updater { cell: index, formula });
        fire(rt, id);
        assert(compute_fn.yields(old(rt)@, first, mid));
        Computed { index, marker: PhantomData }
    }

    /// The index of the cell that this handle names.
    pub fn index(&self) -> (i: usize)
        ensures
            i == self.cell(),
    {
        self.index
    }

    /// Whether `rt` has the cell that this handle names.
    pub fn is_live<E, C>(&self, rt: &Runtime<T, E, C>) -> (b: bool)
        ensures
            b == rt@.has_cell(self.cell()),
    {
        self.index < rt.cell_count()
    }

    /// Returns the cached value. Where an effect is running, it is recorded
    /// as one more subscriber of the cell, also where it is one already.
    pub fn get<E, C>(&self, rt: &mut Runtime<T, E, C>) -> (value: T)
        requires
            old(rt)@.has_cell(self.cell()),
        ensures
            value == old(rt)@.cells[self.cell() as int].value,
            final(rt)@ == old(rt)@.read(self.cell()),
    {
        rt.read_cell(self.index)
    }

    /// Caches `value`, then fires the cell's subscribers. Where `rt` does
    /// not have the cell, nothing happens.
    pub(crate) fn publish<E: Effect<T, C>, C: Formula<T, E>>(&self, rt: &mut Runtime<T, E, C>, value: T)
        ensures
            written(old(rt)@, self.cell(), value, final(rt)@),
            final(rt)@.depth == old(rt)@.depth,
            final(rt)@.limit == old(rt)@.limit,
        decreases
            old(rt)@.limit - old(rt)@.depth,
            old(rt)@.cells[self.cell() as int].subscribers.len() + 3,
    {
        if self.index < rt.cell_count() {
            rt.store(self.index, value);
            self.trigger(rt);
        }
    }

    /// Fires the effects that subscribed to the cell up to this moment, in
    /// the order of their subscriptions.
    pub(crate) fn trigger<E: Effect<T, C>, C: Formula<T, E>>(&self, rt: &mut Runtime<T, E, C>)
        requires
            old(rt)@.has_cell(self.cell()),
        ensures
            propagates(old(rt)@, old(rt)@.cells[self.cell() as int].subscribers, final(rt)@),
            final(rt)@.depth == old(rt)@.depth,
            final(rt)@.limit == old(rt)@.limit,
        decreases
            old(rt)@.limit - old(rt)@.depth,
            old(rt)@.cells[self.cell() as int].subscribers.len() + 2,
    {
        let ids = rt.subscribers(self.index);
        trigger_all(rt, &ids);
    }
}

impl<T> Clone for Computed<T> {
    /// Another handle to the same cell.
    fn clone(&self) -> (r: Self)
        ensures
            r == *self,
    {
        Computed { index: self.index, marker: PhantomData }
    }
}

impl<T> Copy for Computed<T> {

}

/// Makes a derived cell from `compute_fn` in `rt`.
pub fn computed<T: Copy, E: Effect<T, C>, C: Formula<T, E>>(
    rt: &mut Runtime<T, E, C>,
    compute_fn: C,
) -> (c: Computed<T>)
    ensures
        constructs(old(rt)@, compute_fn, c.cell(), final(rt)@),
{
    Computed::new(rt, compute_fn)
}

} // verus!
