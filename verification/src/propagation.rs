//! Propagation: what a trigger does, as a relation between states, and the
//! functions that do it.
use crate::derived::Computed;
use crate::model::{Effect, Entry, Formula, Model};
use crate::runtime::{Runtime, Slot};
use std::rc::Rc;
use vstd::prelude::*;

verus! {

/// Firing effect `id` in state `pre` may end in state `post`.
///
/// An identity that is not registered is passed over. On a faulted runtime,
/// or at the nesting limit, the run is refused and the fault recorded.
/// Otherwise the effect becomes the running effect one level deeper, its
/// body runs, and afterwards no effect is running and the nesting is what
/// it was before. The body of an updater evaluates the formula, stores the
/// result in the updater's cell and triggers that cell's subscribers. A
/// body loses no registration.
///
/// The nesting and its limit are the runtime's own: whatever a body leaves
/// in their place, the run goes on with those it had.
pub open spec fn fires<T, E: Effect<T, C>, C: Formula<T, E>>(
    pre: Model<T, E, C>,
    id: usize,
    post: Model<T, E, C>,
) -> bool
    decreases pre.limit - pre.depth, 0nat,
{
    if id >= pre.registry.len() {
        post == pre
    } else if !pre.can_fire() {
        post == pre.fault()
    } else {
        match pre.registry[id as int] {
            Entry::Effect(body) => exists|mid: Model<T, E, C>|
                #[trigger] body.outcome(pre.entered(id), mid) && pre.entered(id).grows_to(mid)
                    && post == mid.left(pre.depth, pre.limit),
            Entry::Updater { cell, formula } => exists|
                value: T,
                mid: Model<T, E, C>,
                after: Model<T, E, C>,
            |
                #[trigger] formula.yields(pre.entered(id), value, mid) && pre.entered(id).grows_to(
                    mid,
                ) && written(mid.resumed(pre.depth + 1, pre.limit), cell, value, after) && post
                    == #[trigger] after.left(pre.depth, pre.limit),
        }
    }
}

/// Firing the effects `ids` in state `pre`, one after the other in the
/// order of the sequence, may end in state `post`. An identity that occurs
/// more than once is fired once for each occurrence. Each firing runs to
/// its end, with everything that it triggers in turn, before the next
/// begins.
pub open spec fn propagates<T, E: Effect<T, C>, C: Formula<T, E>>(
    pre: Model<T, E, C>,
    ids: Seq<usize>,
    post: Model<T, E, C>,
) -> bool
    decreases pre.limit - pre.depth, ids.len() + 1,
{
    if ids.len() == 0 {
        post == pre
    } else {
        exists|mid: Model<T, E, C>|
            fires(pre, ids[0], mid) && propagates(
                #[trigger] mid.resumed(pre.depth, pre.limit),
                ids.drop_first(),
                post,
            )
    }
}

/// Writing `value` to cell `index` in state `pre` may end in state `post`:
/// the value is stored, then the effects that subscribed to the cell up to
/// this moment are fired in the order of their subscriptions. Of a cell
/// that the state does not have, nothing is written.
pub open spec fn written<T, E: Effect<T, C>, C: Formula<T, E>>(
    pre: Model<T, E, C>,
    index: usize,
    value: T,
    post: Model<T, E, C>,
) -> bool
    decreases pre.limit - pre.depth, pre.cells[index as int].subscribers.len() + 2,
{
    if pre.has_cell(index) {
        propagates(pre.stored(index, value), pre.cells[index as int].subscribers, post)
    } else {
        post == pre
    }
}

/// A run of a caller's effect, put together from its parts.
proof fn lemma_effect_fires<T, E: Effect<T, C>, C: Formula<T, E>>(
    pre: Model<T, E, C>,
    id: usize,
    body: E,
    mid: Model<T, E, C>,
    post: Model<T, E, C>,
)
    requires
        id < pre.registry.len(),
        pre.can_fire(),
        pre.registry[id as int] == Entry::<E, C>::Effect(body),
        body.outcome(pre.entered(id), mid),
        pre.entered(id).grows_to(mid),
        post == mid.left(pre.depth, pre.limit),
    ensures
        fires(pre, id, post),
{
    assert(pre.registry[id as int] is Effect);
    assert(pre.registry[id as int]->Effect_0 == body);
}

/// A run of an updater, put together from its parts.
proof fn lemma_updater_fires<T, E: Effect<T, C>, C: Formula<T, E>>(
    pre: Model<T, E, C>,
    id: usize,
    cell: usize,
    formula: C,
    value: T,
    mid: Model<T, E, C>,
    after: Model<T, E, C>,
    post: Model<T, E, C>,
)
    requires
        id < pre.registry.len(),
        pre.can_fire(),
        pre.registry[id as int] == (Entry::<E, C>::Updater { cell, formula }),
        formula.yields(pre.entered(id), value, mid),
        pre.entered(id).grows_to(mid),
        written(mid.resumed(pre.depth + 1, pre.limit), cell, value, after),
        post == after.left(pre.depth, pre.limit),
    ensures
        fires(pre, id, post),
{
    assert(pre.registry[id as int] is Updater);
    assert(pre.registry[id as int]->cell == cell);
    assert(pre.registry[id as int]->formula == formula);
}

/// Fires effect `id` once: makes it the running effect, runs its body, and
/// leaves no effect running. It returns when the body has returned, and so
/// when everything that the body triggered has run. A missing identity is
/// passed over, and a run that would nest deeper than the runtime's limit
/// is refused.
pub fn fire<T: Copy, E: Effect<T, C>, C: Formula<T, E>>(rt: &mut Runtime<T, E, C>, id: usize)
    ensures
        fires(old(rt)@, id, final(rt)@),
        final(rt)@.depth == old(rt)@.depth,
        final(rt)@.limit == old(rt)@.limit,
    decreases old(rt)@.limit - old(rt)@.depth, 0nat,
{
    let found = rt.lookup(id);
    match found {
        None => {},
        Some(slot) => {
            if !rt.can_fire() {
                rt.mark_fault();
            } else {
                let depth = rt.depth();
                let limit = rt.depth_limit();
                rt.enter(id);
                match slot {
                    Slot::Effect(body) => {
                        body.run(rt);
                        let ghost mid = rt@;
                        rt.leave(depth, limit);
                        let ghost model = slot.entry();
                        proof {
                            lemma_effect_fires(old(rt)@, id, model->Effect_0, mid, rt@);
                        }
                    },
                    Slot::Updater { cell, formula } => {
                        let value = formula.eval(rt);
                        let ghost mid = rt@;
                        rt.resume(depth + 1, limit);
                        Computed::at(cell).publish(rt, value);
                        let ghost after = rt@;
                        rt.leave(depth, limit);
                        let ghost model = slot.entry();
                        proof {
                            lemma_updater_fires(
                                old(rt)@,
                                id,
                                cell,
                                model->formula,
                                value,
                                mid,
                                after,
                                rt@,
                            );
                        }
                    },
                }
            }
        },
    }
}

/// Fires the effects `ids` one after the other, in the order of the list.
pub fn trigger_all<T: Copy, E: Effect<T, C>, C: Formula<T, E>>(
    rt: &mut Runtime<T, E, C>,
    ids: &Vec<usize>,
)
    ensures
        propagates(old(rt)@, ids@, final(rt)@),
        final(rt)@.depth == old(rt)@.depth,
        final(rt)@.limit == old(rt)@.limit,
    decreases old(rt)@.limit - old(rt)@.depth, ids@.len() + 1,
{
    let mut k: usize = 0;
    assert(ids@.skip(0) =~= ids@);
    while k < ids.len()
        invariant
            k <= ids.len(),
            rt@.depth == old(rt)@.depth,
            rt@.limit == old(rt)@.limit,
            forall|post: Model<T, E, C>|
                propagates(rt@, ids@.skip(k as int), post) ==> propagates(old(rt)@, ids@, post),
        decreases ids.len() - k,
    {
        let ghost before = rt@;
        fire(rt, ids[k]);
        proof {
            let rest = ids@.skip(k as int);
            assert(rest.drop_first() =~= ids@.skip(k + 1));
            assert(rt@.resumed(before.depth, before.limit) == rt@);
            assert forall|post: Model<T, E, C>|
                propagates(rt@, ids@.skip(k + 1), post) implies propagates(
                before,
                rest,
                post,
            ) by {
                assert(fires(before, rest[0], rt@));
            }
        }
        k = k + 1;
    }
    assert(ids@.skip(k as int) =~= Seq::empty());
}

/// Registers `body` as an effect under the next identity and fires it
/// once, so that the cells it reads during that run get it as a subscriber.
/// The effect is never removed.
///
/// The call returns when the first run has ended, with everything that it
/// triggered. A body that writes a cell it has read triggers itself: that
/// cycle recurses until the runtime's nesting limit refuses a run and the
/// fault is recorded, and with the limit of [`Runtime::new`] until the
/// stack is exhausted, which ends the process. Nothing else cuts a cascade
/// short.
pub fn effect<T: Copy, E: Effect<T, C>, C: Formula<T, E>>(rt: &mut Runtime<T, E, C>, body: E)
    ensures
        fires(
            old(rt)@.registered(Entry::Effect(body)),
            old(rt)@.registry.len() as usize,
            final(rt)@,
        ),
{
    let id = rt.register(Slot::Effect(Rc::new(body)));
    fire(rt, id);
}

} // verus!
