//! The mathematical model of a runtime, and the traits that effect bodies
//! and compute functions implement.
use crate::runtime::Runtime;
use vstd::prelude::*;

verus! {

/// What a runtime stores under an effect identity.
pub enum Entry<E, C> {
    /// A reaction given by the caller.
    Effect(E),
    /// The updater that a computed value owns: it recomputes the value of
    /// `cell` from `formula` and then triggers the subscribers of `cell`.
    Updater { cell: usize, formula: C },
}

/// One reactive cell: its value and the identities of the effects that read
/// it, in the order of the reads. Every read made while an effect runs adds
/// an entry, so an effect that reads a cell twice, or reads it again when
/// it is re-run, occurs in the list as often, and a write fires it as
/// often.
pub struct CellModel<T> {
    pub value: T,
    pub subscribers: Seq<usize>,
}

/// The state of a runtime.
pub struct Model<T, E, C> {
    /// The cells, signals and computed values alike, by index.
    pub cells: Seq<CellModel<T>>,
    /// The registered effects; an effect's identity is its index.
    pub registry: Seq<Entry<E, C>>,
    /// The effect that is running, if any.
    pub current: Option<usize>,
    /// How many effect runs enclose the present point.
    pub depth: nat,
    /// The deepest nesting of effect runs that the runtime performs, chosen
    /// when the runtime is made. A run that would nest deeper is not made;
    /// the runtime records a fault instead.
    pub limit: nat,
    /// Whether a run was refused because it would have nested deeper than
    /// the limit. A faulted runtime fires no effect until the fault is
    /// cleared.
    pub faulted: bool,
}

impl<T, E, C> Model<T, E, C> {
    /// The state with no cell and no effect, and the nesting limit `limit`.
    pub open spec fn empty(limit: nat) -> Self {
        Model {
            cells: Seq::empty(),
            registry: Seq::empty(),
            current: None,
            depth: 0,
            limit,
            faulted: false,
        }
    }

    /// Whether `index` names a cell of this state.
    pub open spec fn has_cell(self, index: usize) -> bool {
        index < self.cells.len()
    }

    /// The state after a new cell holding `value` was added.
    pub open spec fn with_cell(self, value: T) -> Self {
        Model { cells: self.cells.push(CellModel { value, subscribers: Seq::empty() }), ..self }
    }

    /// The subscriber list of cell `index` after one read: the running
    /// effect, if there is one, is appended, whether or not it is in the
    /// list already.
    pub open spec fn subscribers_after_read(self, index: usize) -> Seq<usize> {
        match self.current {
            Some(id) => self.cells[index as int].subscribers.push(id),
            None => self.cells[index as int].subscribers,
        }
    }

    /// The state after cell `index` was read.
    pub open spec fn read(self, index: usize) -> Self {
        Model {
            cells: self.cells.update(
                index as int,
                CellModel {
                    value: self.cells[index as int].value,
                    subscribers: self.subscribers_after_read(index),
                },
            ),
            ..self
        }
    }

    /// The state after `value` was stored in cell `index`, before anything
    /// is triggered.
    pub open spec fn stored(self, index: usize, value: T) -> Self {
        Model {
            cells: self.cells.update(
                index as int,
                CellModel { value, subscribers: self.cells[index as int].subscribers },
            ),
            ..self
        }
    }

    /// The state after `entry` was registered under the next identity.
    pub open spec fn registered(self, entry: Entry<E, C>) -> Self {
        Model { registry: self.registry.push(entry), ..self }
    }

    /// The state on entry to a run of effect `id`.
    pub open spec fn entered(self, id: usize) -> Self {
        Model { current: Some(id), depth: self.depth + 1, ..self }
    }

    /// The state on leaving a run that was entered at nesting `depth`
    /// under the limit `limit`: no effect is current any more, also where
    /// the run was itself nested in another.
    pub open spec fn left(self, depth: nat, limit: nat) -> Self {
        Model { current: None, depth, limit, ..self }
    }

    /// The state with the nesting set to `depth` and its limit to `limit`.
    pub open spec fn resumed(self, depth: nat, limit: nat) -> Self {
        Model { depth, limit, ..self }
    }

    /// The state after a run was refused.
    pub open spec fn fault(self) -> Self {
        Model { faulted: true, ..self }
    }

    /// Whether a run of an effect would be made in this state.
    pub open spec fn can_fire(self) -> bool {
        !self.faulted && self.depth < self.limit
    }

    /// Whether the state is consistent: the nesting is within its limit,
    /// the running effect and every subscriber of every cell are registered
    /// effects, and every updater belongs to a cell of the state.
    pub open spec fn wf(self) -> bool {
        &&& self.depth <= self.limit
        &&& self.current matches Some(id) ==> id < self.registry.len()
        &&& forall|c: int, k: int|
            0 <= c < self.cells.len() && 0 <= k < self.cells[c].subscribers.len()
                ==> #[trigger] self.cells[c].subscribers[k] < self.registry.len()
        &&& forall|i: int|
            0 <= i < self.registry.len() ==> (#[trigger] self.registry[i] matches Entry::Updater {
                cell,
                ..
            } ==> cell < self.cells.len())
    }

    /// Whether this state keeps everything that `earlier` had registered:
    /// every effect of `earlier` is still registered under its identity,
    /// every cell is still there, and every subscriber list of `earlier`
    /// is the beginning of the list that the cell has now.
    pub open spec fn extends(self, earlier: Self) -> bool {
        &&& earlier.registry.is_prefix_of(self.registry)
        &&& earlier.cells.len() <= self.cells.len()
        &&& forall|c: int|
            0 <= c < earlier.cells.len() ==> (#[trigger] earlier.cells[c]).subscribers.is_prefix_of(
                self.cells[c].subscribers,
            )
    }

    /// Whether a step from `self` to `later` loses no registration and
    /// keeps a consistent state consistent.
    pub open spec fn grows_to(self, later: Self) -> bool {
        &&& later.extends(self)
        &&& self.wf() ==> later.wf()
    }
}

/// The body of an effect. It may read and write any cell of the runtime it
/// is handed, register further effects, and so cause further runs.
///
/// A body acts on the runtime through the runtime's operations and in no
/// other way. None of them removes an effect, a cell or a subscriber, so a
/// run loses no registration and keeps a consistent state consistent: that
/// is what `run` owes. A body that puts another runtime in the place of
/// the one it was handed breaks it.
///
/// What a run does beyond that is for the implementation to say, in
/// `outcome`, and can be said only of a body that reads. A body that writes
/// a cell, registers an effect or makes a computed value starts a
/// propagation that may come back to the body itself: such a `run` cannot
/// be verified, nor can its `outcome` be stated through the relations of a
/// write or a firing, because each would rest on the implementation that is
/// being given. It is written in code that is not verified and keeps the
/// `outcome` that admits every state. Of a firing of such a body the
/// contracts still say that no registration is lost, that no effect is
/// running afterwards and that the nesting is what it was.
pub trait Effect<T, C>: Sized {
    /// What one run may do: `post` is a state that a run begun in `pre` may
    /// end in. Where an implementation does not say, a run may end in any
    /// state that `run` allows.
    open spec fn outcome(&self, pre: Model<T, Self, C>, post: Model<T, Self, C>) -> bool {
        true
    }

    fn run(&self, rt: &mut Runtime<T, Self, C>)
        ensures
            self.outcome(old(rt)@, final(rt)@),
            old(rt)@.grows_to(final(rt)@),
    ;
}

/// The compute function of a derived value. It reads the cells it depends
/// on through the runtime, which records the reads.
///
/// As an effect body does, it acts on the runtime through the runtime's
/// operations alone, so that an evaluation loses no registration and keeps
/// a consistent state consistent; and as there, `yields` can say more only
/// of a formula that reads and does not write.
pub trait Formula<T, E>: Sized {
    /// What one evaluation may do: begun in `pre`, it may return `value`
    /// and leave the runtime in `post`. Where an implementation does not
    /// say, an evaluation may return any value and end in any state that
    /// `eval` allows.
    open spec fn yields(&self, pre: Model<T, E, Self>, value: T, post: Model<T, E, Self>) -> bool {
        true
    }

    fn eval(&self, rt: &mut Runtime<T, E, Self>) -> (value: T)
        ensures
            self.yields(old(rt)@, value, final(rt)@),
            old(rt)@.grows_to(final(rt)@),
    ;
}

} // verus!
