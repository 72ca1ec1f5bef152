use reactivity::propagation::{fire, trigger_all};
use reactivity::{computed, effect, use_ref, Computed, Effect, Formula, Ref, Runtime};
use std::cell::{Cell, RefCell};
use std::rc::Rc;

type Rt = Runtime<i32, Reaction, Derivation>;

type Log = Rc<RefCell<Vec<i32>>>;

struct Reaction(Box<dyn Fn(&mut Rt)>);

struct Derivation(Box<dyn Fn(&mut Rt) -> i32>);

impl Effect<i32, Derivation> for Reaction {
    fn run(&self, rt: &mut Rt) {
        (self.0)(rt)
    }
}

impl Formula<i32, Reaction> for Derivation {
    fn eval(&self, rt: &mut Rt) -> i32 {
        (self.0)(rt)
    }
}

fn reaction(body: impl Fn(&mut Rt) + 'static) -> Reaction {
    Reaction(Box::new(body))
}

fn derivation(formula: impl Fn(&mut Rt) -> i32 + 'static) -> Derivation {
    Derivation(Box::new(formula))
}

fn new_log() -> Log {
    Rc::new(RefCell::new(Vec::new()))
}

fn logging(log: &Log, source: Ref<i32>) -> Reaction {
    let log = Rc::clone(log);
    reaction(move |rt| {
        let value = source.get(rt);
        log.borrow_mut().push(value);
    })
}

fn logging_computed(log: &Log, source: Computed<i32>) -> Reaction {
    let log = Rc::clone(log);
    reaction(move |rt| {
        let value = source.get(rt);
        log.borrow_mut().push(value);
    })
}

fn marking(log: &Log, mark: i32, source: Ref<i32>) -> Reaction {
    let log = Rc::clone(log);
    reaction(move |rt| {
        source.get(rt);
        log.borrow_mut().push(mark);
    })
}

fn sum_of(a: Ref<i32>, b: Ref<i32>) -> Derivation {
    derivation(move |rt| a.get(rt) + b.get(rt))
}

#[test]
fn new_runtime_is_empty() {
    let rt = Rt::new();
    assert_eq!(rt.cell_count(), 0);
    assert_eq!(rt.effect_count(), 0);
    assert_eq!(rt.current_effect(), None);
    assert!(!rt.is_faulted());
    assert_eq!(rt.depth_limit(), usize::MAX);
}

#[test]
fn runtime_with_a_limit_is_empty() {
    let rt = Rt::with_depth_limit(12);
    assert_eq!(rt.cell_count(), 0);
    assert_eq!(rt.effect_count(), 0);
    assert_eq!(rt.current_effect(), None);
    assert!(!rt.is_faulted());
    assert_eq!(rt.depth_limit(), 12);
}

#[test]
fn signal_holds_its_initial_value() {
    let mut rt = Rt::new();
    let s = Ref::new(&mut rt, 7);
    assert_eq!(s.index(), 0);
    assert!(s.is_live(&rt));
    assert_eq!(s.get(&mut rt), 7);
    assert_eq!(rt.subscribers(s.index()), Vec::<usize>::new());
    let t = use_ref(&mut rt, 9);
    assert_eq!(t.index(), 1);
    assert_eq!(t.get(&mut rt), 9);
    assert_eq!(rt.cell_count(), 2);
}

#[test]
fn read_outside_an_effect_records_nothing() {
    let mut rt = Rt::new();
    let s = use_ref(&mut rt, 1);
    s.get(&mut rt);
    s.get(&mut rt);
    assert_eq!(rt.subscribers(s.index()), Vec::<usize>::new());
}

#[test]
fn set_replaces_the_value() {
    let mut rt = Rt::new();
    let s = use_ref(&mut rt, 1);
    s.set(&mut rt, 2);
    assert_eq!(s.get(&mut rt), 2);
}

#[test]
fn copies_of_a_handle_share_the_cell() {
    let mut rt = Rt::new();
    let s = use_ref(&mut rt, 1);
    let copy = s;
    let clone = s.clone();
    copy.set(&mut rt, 8);
    assert_eq!(s.get(&mut rt), 8);
    assert_eq!(clone.get(&mut rt), 8);
    assert_eq!(clone.index(), s.index());
}

#[test]
fn handle_of_another_runtime_is_not_live() {
    let mut first = Rt::new();
    let second = Rt::new();
    let s = use_ref(&mut first, 1);
    assert!(s.is_live(&first));
    assert!(!s.is_live(&second));
}

#[test]
fn set_on_a_missing_cell_does_nothing() {
    let mut first = Rt::new();
    let mut second = Rt::new();
    let s = use_ref(&mut first, 1);
    s.set(&mut second, 5);
    assert_eq!(second.cell_count(), 0);
    assert_eq!(s.get(&mut first), 1);
}

#[test]
fn basic_propagation() {
    let mut rt = Rt::new();
    let s = use_ref(&mut rt, 0);
    let log = new_log();
    effect(&mut rt, logging(&log, s));
    assert_eq!(*log.borrow(), vec![0]);
    s.set(&mut rt, 5);
    assert_eq!(*log.borrow(), vec![0, 5]);
}

#[test]
fn effect_runs_once_on_registration() {
    let mut rt = Rt::new();
    let runs = Rc::new(Cell::new(0));
    let counter = Rc::clone(&runs);
    effect(&mut rt, reaction(move |_| counter.set(counter.get() + 1)));
    assert_eq!(runs.get(), 1);
    assert_eq!(rt.effect_count(), 1);
    assert_eq!(rt.current_effect(), None);
}

#[test]
fn effect_identities_are_sequential() {
    let mut rt = Rt::new();
    let seen = Rc::new(RefCell::new(Vec::new()));
    for _ in 0..3 {
        let seen = Rc::clone(&seen);
        effect(
            &mut rt,
            reaction(move |rt| seen.borrow_mut().push(rt.current_effect())),
        );
    }
    assert_eq!(*seen.borrow(), vec![Some(0), Some(1), Some(2)]);
    assert_eq!(rt.effect_count(), 3);
}

#[test]
fn read_inside_an_effect_subscribes_it() {
    let mut rt = Rt::new();
    let s = use_ref(&mut rt, 0);
    let log = new_log();
    effect(&mut rt, logging(&log, s));
    assert_eq!(rt.subscribers(s.index()), vec![0]);
}

#[test]
fn two_reads_in_one_run_subscribe_twice() {
    let mut rt = Rt::new();
    let s = use_ref(&mut rt, 0);
    let runs = Rc::new(Cell::new(0));
    let counter = Rc::clone(&runs);
    effect(
        &mut rt,
        reaction(move |rt| {
            s.get(rt);
            s.get(rt);
            counter.set(counter.get() + 1);
        }),
    );
    assert_eq!(rt.subscribers(s.index()), vec![0, 0]);
    assert_eq!(runs.get(), 1);
    s.set(&mut rt, 1);
    assert_eq!(runs.get(), 3);
}

#[test]
fn a_rerun_subscribes_again() {
    let mut rt = Rt::new();
    let s = use_ref(&mut rt, 0);
    let log = new_log();
    effect(&mut rt, logging(&log, s));
    s.set(&mut rt, 1);
    assert_eq!(rt.subscribers(s.index()), vec![0, 0]);
    s.set(&mut rt, 2);
    assert_eq!(*log.borrow(), vec![0, 1, 2, 2]);
    assert_eq!(rt.subscribers(s.index()), vec![0, 0, 0, 0]);
}

#[test]
fn derived_recomputation() {
    let mut rt = Rt::new();
    let a = use_ref(&mut rt, 1);
    let b = use_ref(&mut rt, 2);
    let c = computed(&mut rt, sum_of(a, b));
    assert_eq!(c.get(&mut rt), 3);
    a.set(&mut rt, 10);
    assert_eq!(c.get(&mut rt), 12);
    b.set(&mut rt, 20);
    assert_eq!(c.get(&mut rt), 30);
}

#[test]
fn computed_new_is_computed() {
    let mut rt = Rt::new();
    let a = use_ref(&mut rt, 4);
    let b = use_ref(&mut rt, 5);
    let c = Computed::new(&mut rt, sum_of(a, b));
    assert_eq!(c.index(), 2);
    assert!(c.is_live(&rt));
    assert_eq!(c.get(&mut rt), 9);
    let copy = c.clone();
    assert_eq!(copy.get(&mut rt), 9);
}

#[test]
fn formula_runs_twice_at_construction() {
    let mut rt = Rt::new();
    let a = use_ref(&mut rt, 1);
    let runs = Rc::new(Cell::new(0));
    let counter = Rc::clone(&runs);
    let c = computed(
        &mut rt,
        derivation(move |rt| {
            counter.set(counter.get() + 1);
            a.get(rt) * 2
        }),
    );
    assert_eq!(runs.get(), 2);
    assert_eq!(c.get(&mut rt), 2);
    assert_eq!(rt.effect_count(), 1);
    assert_eq!(rt.subscribers(a.index()), vec![0]);
    assert_eq!(rt.subscribers(c.index()), Vec::<usize>::new());
}

#[test]
fn effect_reruns_on_derived_change() {
    let mut rt = Rt::new();
    let a = use_ref(&mut rt, 1);
    let b = use_ref(&mut rt, 2);
    let c = computed(&mut rt, sum_of(a, b));
    let log = new_log();
    effect(&mut rt, logging_computed(&log, c));
    assert_eq!(*log.borrow(), vec![3]);
    a.set(&mut rt, 10);
    assert_eq!(*log.borrow(), vec![3, 12]);
}

#[test]
fn computed_of_computed() {
    let mut rt = Rt::new();
    let a = use_ref(&mut rt, 1);
    let b = use_ref(&mut rt, 2);
    let c = computed(&mut rt, sum_of(a, b));
    let d = computed(&mut rt, derivation(move |rt| c.get(rt) * 10));
    assert_eq!(d.get(&mut rt), 30);
    b.set(&mut rt, 5);
    assert_eq!(c.get(&mut rt), 6);
    assert_eq!(d.get(&mut rt), 60);
}

#[test]
fn independent_signals_do_not_cross_trigger() {
    let mut rt = Rt::new();
    let a = use_ref(&mut rt, 1);
    let b = use_ref(&mut rt, 2);
    let log = new_log();
    effect(&mut rt, logging(&log, a));
    assert_eq!(*log.borrow(), vec![1]);
    b.set(&mut rt, 7);
    assert_eq!(*log.borrow(), vec![1]);
    assert_eq!(rt.subscribers(b.index()), Vec::<usize>::new());
}

#[test]
fn update_combinator() {
    let mut rt = Rt::new();
    let s = use_ref(&mut rt, 4);
    let log = new_log();
    effect(&mut rt, logging(&log, s));
    s.update(&mut rt, |v| v + 1);
    assert_eq!(s.get(&mut rt), 5);
    assert_eq!(*log.borrow(), vec![4, 5]);
}

#[test]
fn update_triggers_as_set_does() {
    let mut updated = Rt::new();
    let s = use_ref(&mut updated, 4);
    let updated_log = new_log();
    effect(&mut updated, logging(&updated_log, s));
    s.update(&mut updated, |v| v + 1);

    let mut written = Rt::new();
    let t = use_ref(&mut written, 4);
    let written_log = new_log();
    effect(&mut written, logging(&written_log, t));
    t.set(&mut written, 5);

    assert_eq!(*updated_log.borrow(), *written_log.borrow());
    assert_eq!(
        updated.subscribers(s.index()),
        written.subscribers(t.index())
    );
    assert_eq!(s.get(&mut updated), t.get(&mut written));
}

#[test]
fn update_inside_an_effect_subscribes_it() {
    let mut rt = Rt::with_depth_limit(256);
    let s = use_ref(&mut rt, 0);
    let t = use_ref(&mut rt, 10);
    effect(
        &mut rt,
        reaction(move |rt| {
            s.get(rt);
            t.update(rt, |v| v + 1);
        }),
    );
    assert_eq!(rt.subscribers(t.index())[0], 0);
    assert!(rt.is_faulted());
    assert_eq!(t.get(&mut rt), 10 + 256);
}

#[test]
fn no_disposal() {
    let mut rt = Rt::new();
    let s = use_ref(&mut rt, 0);
    let log = new_log();
    effect(&mut rt, logging(&log, s));
    for value in 1..=6 {
        let before = log.borrow().len();
        s.set(&mut rt, value);
        let seen = log.borrow();
        assert!(seen.len() > before);
        assert!(seen[before..].iter().all(|v| *v == value));
    }
    assert_eq!(rt.effect_count(), 1);
    assert_eq!(s.get(&mut rt), 6);
}

#[test]
fn subscriber_lists_only_grow() {
    let mut rt = Rt::new();
    let s = use_ref(&mut rt, 0);
    let log = new_log();
    effect(&mut rt, logging(&log, s));
    let mut earlier = rt.subscribers(s.index());
    for value in 1..=4 {
        s.set(&mut rt, value);
        let later = rt.subscribers(s.index());
        assert!(later.len() >= earlier.len());
        assert_eq!(&later[..earlier.len()], &earlier[..]);
        earlier = later;
    }
}

#[test]
fn ordering() {
    let mut rt = Rt::new();
    let s = use_ref(&mut rt, 0);
    let log = new_log();
    effect(&mut rt, marking(&log, 1, s));
    effect(&mut rt, marking(&log, 2, s));
    assert_eq!(*log.borrow(), vec![1, 2]);
    assert_eq!(rt.subscribers(s.index()), vec![0, 1]);
    log.borrow_mut().clear();
    s.set(&mut rt, 1);
    assert_eq!(*log.borrow(), vec![1, 2]);
}

#[test]
fn ordering_follows_subscription_not_identity() {
    let mut rt = Rt::new();
    let gate = use_ref(&mut rt, 0);
    let s = use_ref(&mut rt, 0);
    let log = new_log();
    let late_log = Rc::clone(&log);
    effect(
        &mut rt,
        reaction(move |rt| {
            if gate.get(rt) > 0 {
                s.get(rt);
                late_log.borrow_mut().push(1);
            }
        }),
    );
    effect(&mut rt, marking(&log, 2, s));
    gate.set(&mut rt, 1);
    assert_eq!(rt.subscribers(s.index()), vec![1, 0]);
    log.borrow_mut().clear();
    s.set(&mut rt, 1);
    assert_eq!(*log.borrow(), vec![2, 1]);
}

#[test]
fn trigger_all_fires_in_sequence_order() {
    let mut rt = Rt::new();
    let s = use_ref(&mut rt, 0);
    let log = new_log();
    effect(&mut rt, marking(&log, 1, s));
    effect(&mut rt, marking(&log, 2, s));
    log.borrow_mut().clear();
    trigger_all(&mut rt, &vec![1, 0, 1]);
    assert_eq!(*log.borrow(), vec![2, 1, 2]);
}

#[test]
fn firing_an_unregistered_identity_does_nothing() {
    let mut rt = Rt::new();
    let s = use_ref(&mut rt, 3);
    let log = new_log();
    effect(&mut rt, logging(&log, s));
    fire(&mut rt, 7);
    assert_eq!(*log.borrow(), vec![3]);
    assert!(!rt.is_faulted());
    assert_eq!(rt.effect_count(), 1);
    assert_eq!(rt.current_effect(), None);
}

#[test]
fn fire_runs_a_registered_effect() {
    let mut rt = Rt::new();
    let s = use_ref(&mut rt, 3);
    let log = new_log();
    effect(&mut rt, logging(&log, s));
    fire(&mut rt, 0);
    assert_eq!(*log.borrow(), vec![3, 3]);
    assert_eq!(rt.subscribers(s.index()), vec![0, 0]);
}

#[test]
fn running_effect_is_current_during_its_run_only() {
    let mut rt = Rt::new();
    let s = use_ref(&mut rt, 0);
    let seen = Rc::new(RefCell::new(Vec::new()));
    let inside = Rc::clone(&seen);
    effect(
        &mut rt,
        reaction(move |rt| {
            s.get(rt);
            inside.borrow_mut().push(rt.current_effect());
        }),
    );
    assert_eq!(rt.current_effect(), None);
    s.set(&mut rt, 1);
    assert_eq!(rt.current_effect(), None);
    assert_eq!(*seen.borrow(), vec![Some(0), Some(0)]);
}

#[test]
fn nested_run_clears_the_outer_context() {
    let mut rt = Rt::new();
    let inner_source = use_ref(&mut rt, 0);
    let late = use_ref(&mut rt, 0);
    let log = new_log();
    effect(&mut rt, logging(&log, inner_source));
    let seen = Rc::new(RefCell::new(Vec::new()));
    let inside = Rc::clone(&seen);
    effect(
        &mut rt,
        reaction(move |rt| {
            inside.borrow_mut().push(rt.current_effect());
            inner_source.set(rt, 1);
            inside.borrow_mut().push(rt.current_effect());
            late.get(rt);
        }),
    );
    assert_eq!(*seen.borrow(), vec![Some(1), None]);
    assert_eq!(rt.subscribers(late.index()), Vec::<usize>::new());
    assert_eq!(*log.borrow(), vec![0, 1]);
}

#[test]
fn write_inside_an_effect_cascades_before_it_returns() {
    let mut rt = Rt::new();
    let source = use_ref(&mut rt, 1);
    let target = use_ref(&mut rt, 0);
    let log = new_log();
    effect(&mut rt, logging(&log, target));
    let order = Rc::clone(&log);
    effect(
        &mut rt,
        reaction(move |rt| {
            let value = source.get(rt);
            target.set(rt, value * 100);
            order.borrow_mut().push(-1);
        }),
    );
    assert_eq!(*log.borrow(), vec![0, 100, -1]);
    assert_eq!(rt.subscribers(target.index()), vec![0, 0]);
    source.set(&mut rt, 2);
    assert_eq!(*log.borrow(), vec![0, 100, -1, 200, 200, -1]);
    assert_eq!(rt.subscribers(target.index()), vec![0, 0, 0, 0]);
}

#[test]
fn cycle_faults_at_the_nesting_limit() {
    let mut rt = Rt::with_depth_limit(40);
    let s = use_ref(&mut rt, 0);
    let runs = Rc::new(Cell::new(0usize));
    let counter = Rc::clone(&runs);
    effect(
        &mut rt,
        reaction(move |rt| {
            counter.set(counter.get() + 1);
            let value = s.get(rt);
            s.set(rt, value + 1);
        }),
    );
    assert!(rt.is_faulted());
    assert_eq!(runs.get(), 40);
    assert_eq!(s.get(&mut rt), 40);
    assert_eq!(rt.current_effect(), None);
    assert_eq!(rt.depth_limit(), 40);
}

#[test]
fn limit_of_zero_refuses_every_run() {
    let mut rt = Rt::with_depth_limit(0);
    let s = use_ref(&mut rt, 1);
    let log = new_log();
    effect(&mut rt, logging(&log, s));
    assert!(rt.is_faulted());
    assert_eq!(rt.effect_count(), 1);
    assert_eq!(*log.borrow(), Vec::<i32>::new());
    assert_eq!(rt.subscribers(s.index()), Vec::<usize>::new());
}

#[test]
fn deep_chain_of_effects_runs_to_the_end() {
    let mut rt = Rt::new();
    let length = 300;
    let mut cells = Vec::new();
    for _ in 0..=length {
        cells.push(use_ref(&mut rt, 0));
    }
    for k in 0..length {
        let from = cells[k];
        let to = cells[k + 1];
        effect(
            &mut rt,
            reaction(move |rt| {
                let value = from.get(rt);
                to.set(rt, value + 1);
            }),
        );
    }
    let log = new_log();
    effect(&mut rt, logging(&log, cells[length]));
    log.borrow_mut().clear();
    cells[0].set(&mut rt, 1000);
    assert!(!rt.is_faulted());
    assert_eq!(cells[length].get(&mut rt), 1300);
    assert_eq!(log.borrow().last(), Some(&1300));
    assert_eq!(rt.current_effect(), None);
}

#[test]
fn deep_chain_of_computed_values_runs_to_the_end() {
    let mut rt = Rt::new();
    let source = use_ref(&mut rt, 0);
    let mut last = computed(&mut rt, derivation(move |rt| source.get(rt) + 1));
    for _ in 1..300 {
        let previous = last;
        last = computed(&mut rt, derivation(move |rt| previous.get(rt) + 1));
    }
    let log = new_log();
    effect(&mut rt, logging_computed(&log, last));
    assert_eq!(*log.borrow(), vec![300]);
    source.set(&mut rt, 7);
    assert!(!rt.is_faulted());
    assert_eq!(last.get(&mut rt), 307);
    assert_eq!(*log.borrow(), vec![300, 307]);
}

#[test]
fn chain_deeper_than_a_chosen_limit_is_cut() {
    let mut rt = Rt::with_depth_limit(10);
    let source = use_ref(&mut rt, 0);
    let mut last = computed(&mut rt, derivation(move |rt| source.get(rt) + 1));
    for _ in 1..20 {
        let previous = last;
        last = computed(&mut rt, derivation(move |rt| previous.get(rt) + 1));
    }
    assert!(!rt.is_faulted());
    assert_eq!(last.get(&mut rt), 20);
    source.set(&mut rt, 7);
    assert!(rt.is_faulted());
    assert_eq!(source.get(&mut rt), 7);
    assert_eq!(last.get(&mut rt), 20);
}

#[test]
fn faulted_runtime_fires_nothing_until_cleared() {
    let mut rt = Rt::with_depth_limit(16);
    let s = use_ref(&mut rt, 0);
    effect(
        &mut rt,
        reaction(move |rt| {
            let value = s.get(rt);
            s.set(rt, value + 1);
        }),
    );
    assert!(rt.is_faulted());
    let t = use_ref(&mut rt, 0);
    let log = new_log();
    effect(&mut rt, logging(&log, t));
    assert_eq!(*log.borrow(), Vec::<i32>::new());
    assert_eq!(rt.effect_count(), 2);
    t.set(&mut rt, 1);
    assert_eq!(t.get(&mut rt), 1);
    assert_eq!(*log.borrow(), Vec::<i32>::new());
    rt.clear_fault();
    assert!(!rt.is_faulted());
    fire(&mut rt, 1);
    assert_eq!(*log.borrow(), vec![1]);
    t.set(&mut rt, 2);
    assert_eq!(*log.borrow(), vec![1, 2]);
}

#[test]
fn effect_registered_inside_an_effect() {
    let mut rt = Rt::new();
    let s = use_ref(&mut rt, 5);
    let log = new_log();
    let inner_log = Rc::clone(&log);
    effect(
        &mut rt,
        reaction(move |rt| {
            if rt.effect_count() == 1 {
                effect(rt, logging(&inner_log, s));
            }
        }),
    );
    assert_eq!(rt.effect_count(), 2);
    assert_eq!(*log.borrow(), vec![5]);
    assert_eq!(rt.subscribers(s.index()), vec![1]);
    s.set(&mut rt, 6);
    assert_eq!(*log.borrow(), vec![5, 6]);
}
