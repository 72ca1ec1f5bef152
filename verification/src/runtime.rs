//! The runtime: the store of cells, the effect registry and the ambient
//! context.
use crate::model::{CellModel, Entry, Model};
use std::rc::Rc;
use vstd::prelude::*;

verus! {

struct Cell<T> {
    value: T,
    subscribers: Vec<usize>,
}

/// A registered body, shared so that it can be run while the runtime it is
/// stored in is handed to it.
pub(crate) enum Slot<E, C> {
    Effect(Rc<E>),
    Updater { cell: usize, formula: Rc<C> },
}

impl<E, C> Slot<E, C> {
    pub(crate) open spec fn entry(self) -> Entry<E, C> {
        match self {
            Slot::Effect(body) => Entry::Effect(*body),
            Slot::Updater { cell, formula } => Entry::Updater { cell, formula: *formula },
        }
    }
}

/// The root of a reactive tree. Every cell and every effect belongs to one
/// runtime, and every operation on them names it.
///
/// The cells of one runtime hold values of one type `T`, and an effect
/// reads the cells of the runtime it is registered in. A program whose
/// cells hold values of several types gives the runtime an enum of them as
/// `T`; with a runtime for each type, no effect could read cells of two.
pub struct Runtime<T, E, C> {
    cells: Vec<Cell<T>>,
    registry: Vec<Slot<E, C>>,
    current: Option<usize>,
    depth: usize,
    limit: usize,
    faulted: bool,
}

impl<T, E, C> View for Runtime<T, E, C> {
    type V = Model<T, E, C>;

    closed spec fn view(&self) -> Model<T, E, C> {
        Model {
            cells: Seq::new(
                self.cells.len() as nat,
                |i: int|
                    CellModel {
                        value: self.cells[i].value,
                        subscribers: self.cells[i].subscribers@,
                    },
            ),
            registry: Seq::new(self.registry.len() as nat, |i: int| self.registry[i].entry()),
            current: self.current,
            depth: self.depth as nat,
            limit: self.limit as nat,
            faulted: self.faulted,
        }
    }
}

impl<T, E, C> Runtime<T, E, C> {
    /// The numbers of cells and of effects fit the machine's word, so the
    /// index of the next cell and the identity of the next effect are
    /// those numbers themselves.
    pub proof fn lemma_counts_fit(self)
        ensures
            self@.cells.len() <= usize::MAX,
            self@.registry.len() <= usize::MAX,
            self@.depth <= usize::MAX,
            self@.limit <= usize::MAX,
    {
    }
}

impl<T: Copy, E, C> Runtime<T, E, C> {
    /// A runtime with no cell and no effect, and with the largest nesting
    /// limit there is: it refuses no run. A dependency cycle then recurses
    /// until the stack is exhausted, which ends the process.
    pub fn new() -> (rt: Self)
        ensures
            rt@ == Model::<T, E, C>::empty(usize::MAX as nat),
    {
        Self::with_depth_limit(usize::MAX)
    }

    /// A runtime with no cell and no effect that nests effect runs no
    /// deeper than `limit`. A run that would nest deeper is refused and
    /// the fault recorded, so that a dependency cycle ends in a fault that
    /// [`Runtime::is_faulted`] reports. A cascade without a cycle that is
    /// deeper than `limit` is cut in the same way.
    pub fn with_depth_limit(limit: usize) -> (rt: Self)
        ensures
            rt@ == Model::<T, E, C>::empty(limit as nat),
    {
        let rt = Runtime {
            cells: Vec::new(),
            registry: Vec::new(),
            current: None,
            depth: 0,
            limit,
            faulted: false,
        };
        assert(rt@.cells =~= Seq::empty());
        assert(rt@.registry =~= Seq::empty());
        rt
    }

    /// The deepest nesting of effect runs that this runtime performs.
    pub fn depth_limit(&self) -> (limit: usize)
        ensures
            limit == self@.limit,
    {
        self.limit
    }

    /// The number of cells.
    pub fn cell_count(&self) -> (n: usize)
        ensures
            n == self@.cells.len(),
    {
        self.cells.len()
    }

    /// The number of registered effects, which is also the identity that
    /// the next one gets.
    pub fn effect_count(&self) -> (n: usize)
        ensures
            n == self@.registry.len(),
    {
        self.registry.len()
    }

    /// The effect that is running, if any.
    pub fn current_effect(&self) -> (id: Option<usize>)
        ensures
            id == self@.current,
    {
        self.current
    }

    /// Whether a run was refused because it would have nested deeper than
    /// the limit.
    pub fn is_faulted(&self) -> (b: bool)
        ensures
            b == self@.faulted,
    {
        self.faulted
    }

    /// Clears a recorded fault, so that effects fire again.
    pub fn clear_fault(&mut self)
        ensures
            final(self)@ == (Model { faulted: false, ..old(self)@ }),
    {
        self.faulted = false;
        assert(self@.cells =~= old(self)@.cells);
        assert(self@.registry =~= old(self)@.registry);
    }

    /// The subscribers of cell `index`, in the order in which they will be
    /// fired.
    pub fn subscribers(&self, index: usize) -> (ids: Vec<usize>)
        requires
            self@.has_cell(index),
        ensures
            ids@ == self@.cells[index as int].subscribers,
    {
        let list = &self.cells[index].subscribers;
        let mut ids: Vec<usize> = Vec::new();
        let mut k: usize = 0;
        while k < list.len()
            invariant
                k <= list.len(),
                ids@ == list@.take(k as int),
            decreases list.len() - k,
        {
            ids.push(list[k]);
            k = k + 1;
            assert(list@.take(k as int) =~= list@.take(k - 1).push(list@[k - 1]));
        }
        assert(list@.take(k as int) =~= list@);
        ids
    }

    /// Adds a cell that holds `value` and has no subscriber, and returns
    /// its index.
    pub(crate) fn add_cell(&mut self, value: T) -> (index: usize)
        ensures
            index == old(self)@.cells.len(),
            final(self)@ == old(self)@.with_cell(value),
    {
        let index = self.cells.len();
        self.cells.push(Cell { value, subscribers: Vec::new() });
        assert(self@.cells =~= old(self)@.with_cell(value).cells);
        assert(self@.registry =~= old(self)@.registry);
        index
    }

    /// Reads cell `index`: records the running effect, if any, as one more
    /// subscriber, and returns the value.
    pub(crate) fn read_cell(&mut self, index: usize) -> (value: T)
        requires
            old(self)@.has_cell(index),
        ensures
            value == old(self)@.cells[index as int].value,
            final(self)@ == old(self)@.read(index),
    {
        if let Some(id) = self.current {
            self.cells[index].subscribers.push(id);
        }
        assert(self@.cells =~= old(self)@.read(index).cells);
        assert(self@.registry =~= old(self)@.registry);
        self.cells[index].value
    }

    /// Stores `value` in cell `index` and triggers nothing.
    pub(crate) fn store(&mut self, index: usize, value: T)
        requires
            old(self)@.has_cell(index),
        ensures
            final(self)@ == old(self)@.stored(index, value),
    {
        self.cells[index].value = value;
        assert(self@.cells =~= old(self)@.stored(index, value).cells);
        assert(self@.registry =~= old(self)@.registry);
    }

    /// Registers `slot` under the next identity and returns that identity.
    pub(crate) fn register(&mut self, slot: Slot<E, C>) -> (id: usize)
        ensures
            id == old(self)@.registry.len(),
            final(self)@ == old(self)@.registered(slot.entry()),
    {
        let id = self.registry.len();
        self.registry.push(slot);
        assert(self@.cells =~= old(self)@.cells);
        assert(self@.registry =~= old(self)@.registry.push(slot.entry()));
        id
    }

    /// The body registered under `id`, if there is one.
    pub(crate) fn lookup(&self, id: usize) -> (found: Option<Slot<E, C>>)
        ensures
            match found {
                Some(slot) => id < self@.registry.len() && slot.entry() == self@.registry[id as int],
                None => id >= self@.registry.len(),
            },
    {
        if id < self.registry.len() {
            Some(
                match &self.registry[id] {
                    Slot::Effect(body) => Slot::Effect(Rc::clone(body)),
                    Slot::Updater { cell, formula } => Slot::Updater {
                        cell: *cell,
                        formula: Rc::clone(formula),
                    },
                },
            )
        } else {
            None
        }
    }

    /// Whether a run of an effect would be made now.
    pub(crate) fn can_fire(&self) -> (b: bool)
        ensures
            b == self@.can_fire(),
    {
        !self.faulted && self.depth < self.limit
    }

    /// The present nesting of effect runs.
    pub(crate) fn depth(&self) -> (d: usize)
        ensures
            d == self@.depth,
    {
        self.depth
    }

    /// Makes `id` the running effect, one level deeper.
    pub(crate) fn enter(&mut self, id: usize)
        requires
            old(self)@.depth < old(self)@.limit,
        ensures
            final(self)@ == old(self)@.entered(id),
    {
        self.current = Some(id);
        self.depth = self.depth + 1;
        assert(self@.cells =~= old(self)@.cells);
        assert(self@.registry =~= old(self)@.registry);
    }

    /// Ends a run: no effect is running, and the nesting and its limit are
    /// `depth` and `limit` again.
    pub(crate) fn leave(&mut self, depth: usize, limit: usize)
        ensures
            final(self)@ == old(self)@.left(depth as nat, limit as nat),
    {
        self.current = None;
        self.depth = depth;
        self.limit = limit;
        assert(self@.cells =~= old(self)@.cells);
        assert(self@.registry =~= old(self)@.registry);
    }

    /// Sets the nesting to `depth` and its limit to `limit`.
    pub(crate) fn resume(&mut self, depth: usize, limit: usize)
        ensures
            final(self)@ == old(self)@.resumed(depth as nat, limit as nat),
    {
        self.depth = depth;
        self.limit = limit;
        assert(self@.cells =~= old(self)@.cells);
        assert(self@.registry =~= old(self)@.registry);
    }

    /// Records that a run was refused.
    pub(crate) fn mark_fault(&mut self)
        ensures
            final(self)@ == old(self)@.fault(),
    {
        self.faulted = true;
        assert(self@.cells =~= old(self)@.cells);
        assert(self@.registry =~= old(self)@.registry);
    }
}

} // verus!
