//! What holds of every propagation.
use crate::derived::constructs;
use crate::model::{Effect, Entry, Formula, Model};
use crate::propagation::{fires, propagates, written};
use vstd::prelude::*;

verus! {

/// Firing an effect ends at the nesting at which it began, under the same
/// limit.
pub proof fn lemma_fires_keeps_depth<T, E: Effect<T, C>, C: Formula<T, E>>(
    pre: Model<T, E, C>,
    id: usize,
    post: Model<T, E, C>,
)
    requires
        fires(pre, id, post),
    ensures
        post.depth == pre.depth,
        post.limit == pre.limit,
{
}

/// Firing a sequence of effects ends at the nesting at which it began,
/// under the same limit.
pub proof fn lemma_propagates_keeps_depth<T, E: Effect<T, C>, C: Formula<T, E>>(
    pre: Model<T, E, C>,
    ids: Seq<usize>,
    post: Model<T, E, C>,
)
    requires
        propagates(pre, ids, post),
    ensures
        post.depth == pre.depth,
        post.limit == pre.limit,
    decreases ids.len(),
{
    if ids.len() > 0 {
        let mid = choose|mid: Model<T, E, C>|
            fires(pre, ids[0], mid) && propagates(
                #[trigger] mid.resumed(pre.depth, pre.limit),
                ids.drop_first(),
                post,
            );
        lemma_propagates_keeps_depth(mid.resumed(pre.depth, pre.limit), ids.drop_first(), post);
    }
}

/// Firing one effect and then a sequence of effects is firing the sequence
/// with that effect put in front.
pub proof fn lemma_propagates_cons<T, E: Effect<T, C>, C: Formula<T, E>>(
    pre: Model<T, E, C>,
    ids: Seq<usize>,
    mid: Model<T, E, C>,
    post: Model<T, E, C>,
)
    requires
        ids.len() > 0,
        fires(pre, ids[0], mid),
        propagates(mid, ids.drop_first(), post),
    ensures
        propagates(pre, ids, post),
{
    lemma_fires_keeps_depth(pre, ids[0], mid);
    assert(mid.resumed(pre.depth, pre.limit) == mid);
}

/// The first firing of a sequence, and the state between it and the rest.
pub proof fn lemma_propagates_uncons<T, E: Effect<T, C>, C: Formula<T, E>>(
    pre: Model<T, E, C>,
    ids: Seq<usize>,
    post: Model<T, E, C>,
) -> (mid: Model<T, E, C>)
    requires
        ids.len() > 0,
        propagates(pre, ids, post),
    ensures
        fires(pre, ids[0], mid),
        propagates(mid, ids.drop_first(), post),
{
    let mid = choose|mid: Model<T, E, C>|
        fires(pre, ids[0], mid) && propagates(
            #[trigger] mid.resumed(pre.depth, pre.limit),
            ids.drop_first(),
            post,
        );
    lemma_fires_keeps_depth(pre, ids[0], mid);
    assert(mid.resumed(pre.depth, pre.limit) == mid);
    mid
}

/// Effects fire in the order of the sequence: all of the first `k` have
/// fired, and the state between is reached, before any of the others
/// fires.
pub proof fn lemma_propagates_split<T, E: Effect<T, C>, C: Formula<T, E>>(
    pre: Model<T, E, C>,
    ids: Seq<usize>,
    k: int,
    post: Model<T, E, C>,
) -> (mid: Model<T, E, C>)
    requires
        0 <= k <= ids.len(),
        propagates(pre, ids, post),
    ensures
        propagates(pre, ids.take(k), mid),
        propagates(mid, ids.skip(k), post),
    decreases k,
{
    if k == 0 {
        assert(ids.take(0) =~= Seq::empty());
        assert(ids.skip(0) =~= ids);
        pre
    } else {
        let first = lemma_propagates_uncons(pre, ids, post);
        let mid = lemma_propagates_split(first, ids.drop_first(), k - 1, post);
        assert(ids.take(k).drop_first() =~= ids.drop_first().take(k - 1));
        assert(ids.drop_first().skip(k - 1) =~= ids.skip(k));
        lemma_propagates_cons(pre, ids.take(k), first, mid);
        mid
    }
}

/// Firing one sequence of effects and then another is firing the two
/// sequences joined.
pub proof fn lemma_propagates_join<T, E: Effect<T, C>, C: Formula<T, E>>(
    pre: Model<T, E, C>,
    front: Seq<usize>,
    mid: Model<T, E, C>,
    back: Seq<usize>,
    post: Model<T, E, C>,
)
    requires
        propagates(pre, front, mid),
        propagates(mid, back, post),
    ensures
        propagates(pre, front + back, post),
    decreases front.len(),
{
    if front.len() == 0 {
        assert(front + back =~= back);
    } else {
        let first = lemma_propagates_uncons(pre, front, mid);
        lemma_propagates_join(first, front.drop_first(), mid, back, post);
        assert((front + back).drop_first() =~= front.drop_first() + back);
        lemma_propagates_cons(pre, front + back, first, post);
    }
}

/// Of two subscribers of one cell, the one that subscribed first fires
/// first: triggering the list `ids` fires the effect at position `i`
/// before the effect at a later position `j`, with all of the list's
/// earlier entries fired before it, those between the two fired between
/// them, and the rest after.
pub proof fn lemma_fired_in_order<T, E: Effect<T, C>, C: Formula<T, E>>(
    pre: Model<T, E, C>,
    ids: Seq<usize>,
    i: int,
    j: int,
    post: Model<T, E, C>,
) -> (states: (Model<T, E, C>, Model<T, E, C>, Model<T, E, C>, Model<T, E, C>))
    requires
        0 <= i < j < ids.len(),
        propagates(pre, ids, post),
    ensures
        propagates(pre, ids.take(i), states.0),
        fires(states.0, ids[i], states.1),
        propagates(states.1, ids.subrange(i + 1, j), states.2),
        fires(states.2, ids[j], states.3),
        propagates(states.3, ids.skip(j + 1), post),
{
    let before_first = lemma_propagates_split(pre, ids, i, post);
    let from_first = ids.skip(i);
    let after_first = lemma_propagates_uncons(before_first, from_first, post);
    let between = from_first.drop_first();
    assert(between =~= ids.skip(i + 1));
    let before_second = lemma_propagates_split(after_first, between, j - i - 1, post);
    assert(between.take(j - i - 1) =~= ids.subrange(i + 1, j));
    let from_second = between.skip(j - i - 1);
    assert(from_second =~= ids.skip(j));
    let after_second = lemma_propagates_uncons(before_second, from_second, post);
    assert(from_second.drop_first() =~= ids.skip(j + 1));
    (before_first, after_first, before_second, after_second)
}

/// A step that loses nothing, followed by another, loses nothing.
pub proof fn lemma_grows_transitive<T, E, C>(
    first: Model<T, E, C>,
    second: Model<T, E, C>,
    third: Model<T, E, C>,
)
    requires
        first.grows_to(second),
        second.grows_to(third),
    ensures
        first.grows_to(third),
{
    assert forall|c: int| 0 <= c < first.cells.len() implies (#[trigger] first.cells[c]).subscribers.is_prefix_of(
        third.cells[c].subscribers,
    ) by {
        assert(first.cells[c].subscribers.is_prefix_of(second.cells[c].subscribers));
        assert(second.cells[c].subscribers.is_prefix_of(third.cells[c].subscribers));
    }
}

/// No disposal, for one firing: firing an effect loses no registration,
/// and keeps a consistent state consistent.
pub proof fn lemma_fires_grows<T, E: Effect<T, C>, C: Formula<T, E>>(
    pre: Model<T, E, C>,
    id: usize,
    post: Model<T, E, C>,
)
    requires
        fires(pre, id, post),
    ensures
        pre.grows_to(post),
    decreases pre.limit - pre.depth, 0nat,
{
    if id >= pre.registry.len() {
    } else if !pre.can_fire() {
    } else {
        let entered = pre.entered(id);
        assert(pre.grows_to(entered));
        match pre.registry[id as int] {
            Entry::Effect(body) => {
                let mid = choose|mid: Model<T, E, C>|
                    #[trigger] body.outcome(entered, mid) && entered.grows_to(mid) && post
                        == mid.left(pre.depth, pre.limit);
                assert(entered.grows_to(mid));
                assert(mid.grows_to(post));
                lemma_grows_transitive(pre, entered, mid);
                lemma_grows_transitive(pre, mid, post);
            },
            Entry::Updater { cell, formula } => {
                let (value, mid, after) = choose|
                    value: T,
                    mid: Model<T, E, C>,
                    after: Model<T, E, C>,
                |
                    #[trigger] formula.yields(entered, value, mid) && entered.grows_to(mid)
                        && written(mid.resumed(pre.depth + 1, pre.limit), cell, value, after)
                        && post == #[trigger] after.left(pre.depth, pre.limit);
                let resumed = mid.resumed(pre.depth + 1, pre.limit);
                assert(entered.grows_to(mid));
                assert(mid.grows_to(resumed));
                lemma_written_grows(resumed, cell, value, after);
                assert(after.grows_to(post));
                lemma_grows_transitive(pre, entered, mid);
                lemma_grows_transitive(pre, mid, resumed);
                lemma_grows_transitive(pre, resumed, after);
                lemma_grows_transitive(pre, after, post);
            },
        }
    }
}

/// No disposal, for a trigger: firing a sequence of effects loses no
/// registration, and keeps a consistent state consistent.
pub proof fn lemma_propagates_grows<T, E: Effect<T, C>, C: Formula<T, E>>(
    pre: Model<T, E, C>,
    ids: Seq<usize>,
    post: Model<T, E, C>,
)
    requires
        propagates(pre, ids, post),
    ensures
        pre.grows_to(post),
    decreases pre.limit - pre.depth, ids.len() + 1,
{
    if ids.len() > 0 {
        let mid = lemma_propagates_uncons(pre, ids, post);
        lemma_fires_keeps_depth(pre, ids[0], mid);
        lemma_fires_grows(pre, ids[0], mid);
        lemma_propagates_grows(mid, ids.drop_first(), post);
        lemma_grows_transitive(pre, mid, post);
    }
}

/// No disposal, for a write: a write and the propagation that follows it
/// lose no registration, and keep a consistent state consistent.
pub proof fn lemma_written_grows<T, E: Effect<T, C>, C: Formula<T, E>>(
    pre: Model<T, E, C>,
    index: usize,
    value: T,
    post: Model<T, E, C>,
)
    requires
        written(pre, index, value, post),
    ensures
        pre.grows_to(post),
    decreases pre.limit - pre.depth, pre.cells[index as int].subscribers.len() + 2,
{
    if pre.has_cell(index) {
        let stored = pre.stored(index, value);
        assert(pre.grows_to(stored));
        lemma_propagates_grows(stored, pre.cells[index as int].subscribers, post);
        lemma_grows_transitive(pre, stored, post);
    }
}

/// No disposal, for the construction of a computed value: the
/// construction loses no registration, and the updater that it registers
/// belongs to the new cell.
pub proof fn lemma_constructs_grows<T, E: Effect<T, C>, C: Formula<T, E>>(
    pre: Model<T, E, C>,
    formula: C,
    cell: usize,
    post: Model<T, E, C>,
)
    requires
        constructs(pre, formula, cell, post),
    ensures
        pre.grows_to(post),
        post.has_cell(cell),
{
    let (first, mid) = choose|first: T, mid: Model<T, E, C>| #[trigger]
        formula.yields(pre, first, mid) && pre.grows_to(mid) && cell == mid.cells.len() && fires(
            mid.with_cell(first).registered(Entry::Updater { cell, formula }),
            mid.registry.len() as usize,
            post,
        );
    let added = mid.with_cell(first);
    let registered = added.registered(Entry::Updater { cell, formula });
    assert(pre.grows_to(mid));
    assert(mid.grows_to(added));
    assert(added.grows_to(registered));
    lemma_fires_grows(registered, mid.registry.len() as usize, post);
    lemma_grows_transitive(pre, mid, added);
    lemma_grows_transitive(pre, added, registered);
    lemma_grows_transitive(pre, registered, post);
}

/// No disposal, for the registration of an effect: the registration and
/// the first run lose no registration, and the effect stays registered
/// under the identity it was given.
pub proof fn lemma_effect_grows<T, E: Effect<T, C>, C: Formula<T, E>>(
    pre: Model<T, E, C>,
    body: E,
    post: Model<T, E, C>,
)
    requires
        pre.registry.len() <= usize::MAX,
        fires(pre.registered(Entry::Effect(body)), pre.registry.len() as usize, post),
    ensures
        pre.grows_to(post),
        pre.registry.len() < post.registry.len(),
        post.registry[pre.registry.len() as int] == Entry::<E, C>::Effect(body),
{
    let registered = pre.registered(Entry::Effect(body));
    assert(pre.grows_to(registered));
    lemma_fires_grows(registered, pre.registry.len() as usize, post);
    lemma_grows_transitive(pre, registered, post);
}

/// The steps that run no body lose no registration either: adding a
/// cell, storing a value, and reading a cell, which appends to the cell's
/// subscribers and removes none.
pub proof fn lemma_steps_grow<T, E, C>(pre: Model<T, E, C>, index: usize, value: T)
    ensures
        pre.grows_to(pre.with_cell(value)),
        pre.has_cell(index) ==> pre.grows_to(pre.stored(index, value)),
        pre.has_cell(index) ==> pre.grows_to(pre.read(index)),
{
}

/// A subscription is for good: in every state that extends a consistent
/// state, an effect that had subscribed to a cell is a subscriber of the
/// cell still, at the same place in the list, and it is registered with
/// the body it had.
pub proof fn lemma_subscriber_is_kept<T, E, C>(
    earlier: Model<T, E, C>,
    later: Model<T, E, C>,
    index: usize,
    k: int,
)
    requires
        earlier.wf(),
        later.extends(earlier),
        earlier.has_cell(index),
        0 <= k < earlier.cells[index as int].subscribers.len(),
    ensures
        later.has_cell(index),
        k < later.cells[index as int].subscribers.len(),
        later.cells[index as int].subscribers[k] == earlier.cells[index as int].subscribers[k],
        earlier.cells[index as int].subscribers[k] < earlier.registry.len() <= later.registry.len(),
        later.registry[earlier.cells[index as int].subscribers[k] as int]
            == earlier.registry[earlier.cells[index as int].subscribers[k] as int],
{
    assert(earlier.cells[index as int].subscribers.is_prefix_of(
        later.cells[index as int].subscribers,
    ));
}

/// A write fires every subscriber: for each place `k` in the subscriber
/// list of the cell, the propagation that follows the write fires the
/// effect at that place, after those before it and before those after it.
pub proof fn lemma_write_fires_subscriber<T, E: Effect<T, C>, C: Formula<T, E>>(
    pre: Model<T, E, C>,
    index: usize,
    value: T,
    k: int,
    post: Model<T, E, C>,
) -> (states: (Model<T, E, C>, Model<T, E, C>))
    requires
        pre.has_cell(index),
        0 <= k < pre.cells[index as int].subscribers.len(),
        written(pre, index, value, post),
    ensures
        propagates(
            pre.stored(index, value),
            pre.cells[index as int].subscribers.take(k),
            states.0,
        ),
        fires(states.0, pre.cells[index as int].subscribers[k], states.1),
        propagates(states.1, pre.cells[index as int].subscribers.skip(k + 1), post),
{
    let ids = pre.cells[index as int].subscribers;
    let before = lemma_propagates_split(pre.stored(index, value), ids, k, post);
    let after = lemma_propagates_uncons(before, ids.skip(k), post);
    assert(ids.skip(k).drop_first() =~= ids.skip(k + 1));
    (before, after)
}

/// No disposal: an effect that has read a cell is fired by every later
/// write to that cell. Let the effect be the subscriber at place `k` of
/// cell `index` in a consistent state `earlier`, and let `pre` be any
/// state that extends it, as every state does that the runtime's
/// operations reach from it. Then a write to the cell in `pre` fires that
/// effect, and at that moment it is still registered with the body it had
/// in `earlier`, at the nesting and under the limit of the write: its body
/// runs unless the runtime is faulted by then or the write itself was made
/// at the limit.
pub proof fn lemma_effect_keeps_firing<T, E: Effect<T, C>, C: Formula<T, E>>(
    earlier: Model<T, E, C>,
    pre: Model<T, E, C>,
    index: usize,
    k: int,
    value: T,
    post: Model<T, E, C>,
) -> (states: (Model<T, E, C>, Model<T, E, C>))
    requires
        earlier.wf(),
        earlier.has_cell(index),
        0 <= k < earlier.cells[index as int].subscribers.len(),
        pre.extends(earlier),
        written(pre, index, value, post),
    ensures
        fires(states.0, earlier.cells[index as int].subscribers[k], states.1),
        earlier.cells[index as int].subscribers[k] < states.0.registry.len(),
        states.0.registry[earlier.cells[index as int].subscribers[k] as int]
            == earlier.registry[earlier.cells[index as int].subscribers[k] as int],
        states.0.depth == pre.depth,
        states.0.limit == pre.limit,
        pre.grows_to(states.0),
        states.0.grows_to(states.1),
        states.1.grows_to(post),
{
    lemma_subscriber_is_kept(earlier, pre, index, k);

    let ids = pre.cells[index as int].subscribers;
    let stored = pre.stored(index, value);
    let states = lemma_write_fires_subscriber(pre, index, value, k, post);
    lemma_propagates_keeps_depth(stored, ids.take(k), states.0);
    lemma_propagates_grows(stored, ids.take(k), states.0);
    lemma_fires_grows(states.0, ids[k], states.1);
    lemma_propagates_grows(states.1, ids.skip(k + 1), post);
    assert(pre.grows_to(stored));
    lemma_grows_transitive(pre, stored, states.0);
    assert(pre.registry.is_prefix_of(states.0.registry));
    states
}

/// Cells do not trigger one another: a write to a cell that has no
/// subscriber stores the value and changes nothing else, whatever
/// subscribers the other cells have.
pub proof fn lemma_write_without_subscribers<T, E: Effect<T, C>, C: Formula<T, E>>(
    pre: Model<T, E, C>,
    index: usize,
    value: T,
    post: Model<T, E, C>,
)
    requires
        pre.has_cell(index),
        pre.cells[index as int].subscribers.len() == 0,
        written(pre, index, value, post),
    ensures
        post == pre.stored(index, value),
{
}

/// The ambient context after a run: where firing an effect made a run,
/// the effect was the running effect when its body began, and no effect
/// is running when the firing ends, whatever ran nested in it.
pub proof fn lemma_fired_clears_current<T, E: Effect<T, C>, C: Formula<T, E>>(
    pre: Model<T, E, C>,
    id: usize,
    post: Model<T, E, C>,
)
    requires
        id < pre.registry.len(),
        pre.can_fire(),
        fires(pre, id, post),
    ensures
        pre.entered(id).current == Some(id),
        post.current.is_none(),
        !post.faulted ==> post.can_fire(),
{
}

/// A refused run: on a faulted runtime, or at the nesting limit, firing
/// a registered effect runs nothing and leaves nothing but the fault.
pub proof fn lemma_refused_run_faults<T, E: Effect<T, C>, C: Formula<T, E>>(
    pre: Model<T, E, C>,
    id: usize,
    post: Model<T, E, C>,
)
    requires
        id < pre.registry.len(),
        !pre.can_fire(),
        fires(pre, id, post),
    ensures
        post == pre.fault(),
{
}

/// The state with no cell and no effect is consistent, whatever its
/// nesting limit.
pub proof fn lemma_empty_is_consistent<T, E, C>(limit: nat)
    ensures
        Model::<T, E, C>::empty(limit).wf(),
{
}

} // verus!
