use reactivity::{computed, effect, use_ref, Effect, Formula, Runtime};
use std::cell::RefCell;
use std::rc::Rc;

#[derive(Clone, Copy, Debug, PartialEq)]
struct Reading {
    value: i32,
    scale: f64,
}

type Rt = Runtime<Reading, Watcher, Scaled>;

struct Watcher(Box<dyn Fn(&mut Rt)>);

struct Scaled(Box<dyn Fn(&mut Rt) -> Reading>);

impl Effect<Reading, Scaled> for Watcher {
    fn run(&self, rt: &mut Rt) {
        (self.0)(rt)
    }
}

impl Formula<Reading, Watcher> for Scaled {
    fn eval(&self, rt: &mut Rt) -> Reading {
        (self.0)(rt)
    }
}

#[test]
fn record_values_propagate() {
    let mut rt = Rt::new();
    let s = use_ref(&mut rt, Reading { value: 2, scale: 1.0 });
    let log = Rc::new(RefCell::new(Vec::new()));
    let sink = Rc::clone(&log);
    effect(
        &mut rt,
        Watcher(Box::new(move |rt| sink.borrow_mut().push(s.get(rt).value))),
    );
    s.set(&mut rt, Reading { value: 3, scale: 1.0 });
    s.update(&mut rt, |r| Reading { value: r.value + 1, ..r });
    assert_eq!(*log.borrow(), vec![2, 3, 4, 4]);
    assert_eq!(s.get(&mut rt), Reading { value: 4, scale: 1.0 });
}

#[test]
fn record_values_derive() {
    let mut rt = Rt::new();
    let s = use_ref(&mut rt, Reading { value: 2, scale: 0.5 });
    let doubled = computed(
        &mut rt,
        Scaled(Box::new(move |rt| {
            let r = s.get(rt);
            Reading { value: r.value * 2, scale: r.scale * 2.0 }
        })),
    );
    assert_eq!(doubled.get(&mut rt), Reading { value: 4, scale: 1.0 });
    s.set(&mut rt, Reading { value: 5, scale: 1.5 });
    assert_eq!(doubled.get(&mut rt), Reading { value: 10, scale: 3.0 });
}
