use simple_observables::structs::ObservableValue;
use simple_observables::traits::{Observable, Observer, ObserverOf};
use simple_observables::weak_ref::WeakRef;
use std::cell::RefCell;
use std::rc::Rc;

struct SimpleObserver {
    updates: RefCell<Vec<usize>>,
}

impl SimpleObserver {
    fn new() -> SimpleObserver {
        SimpleObserver { updates: RefCell::new(Vec::new()) }
    }
}

impl Observer for SimpleObserver {
    type Observes = usize;

    fn update(&self, data: &usize) {
        self.updates.borrow_mut().push(*data);
    }
}

struct Tally {
    total: RefCell<usize>,
}

impl Observer for Tally {
    type Observes = usize;

    fn update(&self, data: &usize) {
        *self.total.borrow_mut() += *data;
    }
}

#[test]
fn updates_subscribers() {
    let mut observable = ObservableValue::new(5usize);
    let observer = Rc::new(SimpleObserver::new());
    observable.register(WeakRef::downgrade(&observer));

    {
        let observer_2 = Rc::new(SimpleObserver::new());
        observable.register(WeakRef::downgrade(&observer_2));
        observable.clean();

        // Both registered
        assert_eq!(observable.observables(), 2);

        observable.set(10);

        // Value updated
        assert_eq!(*observable.peek(), 10);

        // Both updated
        assert_eq!(observer.updates.borrow().len(), 1);
        assert_eq!(*observer.updates.borrow(), *observer_2.updates.borrow());
        assert_eq!(*observer.updates.borrow(), [10]);
    }

    observable.mutate(|n| n * 2);

    // Value updated
    assert_eq!(*observable.peek(), 20);

    // Dead reference pruned
    assert_eq!(observable.observables(), 1);

    // Observer updated
    assert_eq!(*observer.updates.borrow(), [10, 20]);
}

#[test]
fn set_reaches_two_observers() {
    let mut observable = ObservableValue::new(5usize);
    let a = Rc::new(SimpleObserver::new());
    let b = Rc::new(SimpleObserver::new());
    observable.register(WeakRef::downgrade(&a));
    observable.register(WeakRef::downgrade(&b));
    observable.set(10);
    assert_eq!(*observable.peek(), 10);
    assert_eq!(*a.updates.borrow(), [10]);
    assert_eq!(*b.updates.borrow(), [10]);
}

#[test]
fn dropped_observer_is_pruned_by_mutate() {
    let mut observable = ObservableValue::new(5usize);
    let a = Rc::new(SimpleObserver::new());
    let b = Rc::new(SimpleObserver::new());
    observable.register(WeakRef::downgrade(&a));
    observable.register(WeakRef::downgrade(&b));
    let c = Rc::new(SimpleObserver::new());
    observable.register(WeakRef::downgrade(&c));
    observable.set(6);
    assert_eq!(*c.updates.borrow(), [6]);
    assert_eq!(observable.observables(), 3);
    let c_updates = c.updates.borrow().clone();
    drop(c);
    observable.mutate(|n| n * 2);
    assert_eq!(*observable.peek(), 12);
    assert_eq!(observable.observables(), 2);
    assert_eq!(*a.updates.borrow(), [6, 12]);
    assert_eq!(*b.updates.borrow(), [6, 12]);
    assert_eq!(c_updates, [6]);
}

#[test]
fn set_without_subscribers() {
    let mut observable: ObservableValue<usize, SimpleObserver> = ObservableValue::new(100);
    observable.set(200);
    assert_eq!(*observable.peek(), 200);
    assert_eq!(observable.observables(), 0);
}

#[test]
fn set_if_changed_gates_on_equality() {
    let mut observable = ObservableValue::new(5usize);
    let a = Rc::new(SimpleObserver::new());
    observable.register(WeakRef::downgrade(&a));
    observable.set_if_changed(5);
    assert!(a.updates.borrow().is_empty());
    assert_eq!(*observable.peek(), 5);
    observable.set_if_changed(6);
    assert_eq!(*a.updates.borrow(), [6]);
    assert_eq!(*observable.peek(), 6);
}

#[test]
fn set_silently_notifies_nobody() {
    let mut observable = ObservableValue::new(1usize);
    let a = Rc::new(SimpleObserver::new());
    let b = Rc::new(SimpleObserver::new());
    observable.register(WeakRef::downgrade(&a));
    observable.register(WeakRef::downgrade(&b));
    observable.set_silently(42);
    assert_eq!(*observable.peek(), 42);
    assert!(a.updates.borrow().is_empty());
    assert!(b.updates.borrow().is_empty());
    assert_eq!(observable.observables(), 2);
}

#[test]
fn trigger_pushes_current_value() {
    let mut observable = ObservableValue::new(7usize);
    let a = Rc::new(SimpleObserver::new());
    observable.register(WeakRef::downgrade(&a));
    observable.trigger();
    observable.trigger();
    assert_eq!(*a.updates.borrow(), [7, 7]);
    assert_eq!(*observable.peek(), 7);
}

#[test]
fn mutate_matches_peek_then_set() {
    let a = Rc::new(SimpleObserver::new());
    let b = Rc::new(SimpleObserver::new());
    let mut first = ObservableValue::new(9usize);
    let mut second = ObservableValue::new(9usize);
    first.register(WeakRef::downgrade(&a));
    second.register(WeakRef::downgrade(&b));
    first.mutate(|n| n + 3);
    let next = *second.peek() + 3;
    second.set(next);
    assert_eq!(*first.peek(), *second.peek());
    assert_eq!(*a.updates.borrow(), *b.updates.borrow());
    assert_eq!(*a.updates.borrow(), [12]);
}

#[test]
fn pruning_keeps_live_order_and_delivery() {
    let mut observable = ObservableValue::new(0usize);
    let a = Rc::new(SimpleObserver::new());
    let dead_1 = Rc::new(SimpleObserver::new());
    let b = Rc::new(SimpleObserver::new());
    let dead_2 = Rc::new(SimpleObserver::new());
    let c = Rc::new(SimpleObserver::new());
    observable.register(WeakRef::downgrade(&dead_1));
    observable.register(WeakRef::downgrade(&a));
    observable.register(WeakRef::downgrade(&b));
    observable.register(WeakRef::downgrade(&dead_2));
    observable.register(WeakRef::downgrade(&c));
    drop(dead_1);
    drop(dead_2);
    assert_eq!(observable.observables(), 5);
    observable.set(3);
    assert_eq!(observable.observables(), 3);
    assert_eq!(*a.updates.borrow(), [3]);
    assert_eq!(*b.updates.borrow(), [3]);
    assert_eq!(*c.updates.borrow(), [3]);
}

#[test]
fn clean_prunes_without_notifying() {
    let mut observable = ObservableValue::new(4usize);
    let a = Rc::new(SimpleObserver::new());
    observable.register(WeakRef::downgrade(&a));
    {
        let gone = Rc::new(SimpleObserver::new());
        observable.register(WeakRef::downgrade(&gone));
    }
    assert_eq!(observable.observables(), 2);
    observable.clean();
    assert_eq!(observable.observables(), 1);
    assert!(a.updates.borrow().is_empty());
    assert_eq!(*observable.peek(), 4);
}

#[test]
fn register_does_not_deduplicate() {
    let mut observable = ObservableValue::new(1usize);
    let a = Rc::new(SimpleObserver::new());
    observable.register(WeakRef::downgrade(&a));
    observable.register(WeakRef::downgrade(&a));
    observable.set(2);
    assert_eq!(observable.observables(), 2);
    assert_eq!(*a.updates.borrow(), [2, 2]);
}

#[test]
fn dead_handle_may_be_registered() {
    let mut observable = ObservableValue::new(1usize);
    let gone = Rc::new(SimpleObserver::new());
    let handle = WeakRef::downgrade(&gone);
    drop(gone);
    observable.register(handle);
    assert_eq!(observable.observables(), 1);
    observable.set(5);
    assert_eq!(observable.observables(), 0);
    assert_eq!(*observable.peek(), 5);
}

#[test]
fn boxed_observers_of_different_types() {
    let list = Rc::new(SimpleObserver::new());
    let tally = Rc::new(Tally { total: RefCell::new(0) });
    let mut observable = ObservableValue::new(1usize);
    let boxed_list: Rc<Box<dyn ObserverOf<usize>>> =
        Rc::new(Box::new(SharedList(list.clone())));
    let boxed_tally: Rc<Box<dyn ObserverOf<usize>>> =
        Rc::new(Box::new(SharedTally(tally.clone())));
    observable.register(WeakRef::downgrade(&boxed_list));
    observable.register(WeakRef::downgrade(&boxed_tally));
    observable.set(4);
    observable.mutate(|n| n + 1);
    assert_eq!(*list.updates.borrow(), [4, 5]);
    assert_eq!(*tally.total.borrow(), 9);
}

struct SharedList(Rc<SimpleObserver>);

impl Observer for SharedList {
    type Observes = usize;

    fn update(&self, data: &usize) {
        self.0.update(data);
    }
}

struct SharedTally(Rc<Tally>);

impl Observer for SharedTally {
    type Observes = usize;

    fn update(&self, data: &usize) {
        self.0.update(data);
    }
}

#[test]
fn apply_pass_follows_given_outcomes() {
    let mut observable = ObservableValue::new(8usize);
    let a = Rc::new(SimpleObserver::new());
    let b = Rc::new(SimpleObserver::new());
    let c = Rc::new(SimpleObserver::new());
    observable.register(WeakRef::downgrade(&a));
    observable.register(WeakRef::downgrade(&b));
    observable.register(WeakRef::downgrade(&c));
    observable.apply_pass(vec![Some(a.clone()), None, Some(c.clone())], true);
    assert_eq!(observable.observables(), 2);
    assert_eq!(*a.updates.borrow(), [8]);
    assert!(b.updates.borrow().is_empty());
    assert_eq!(*c.updates.borrow(), [8]);
    assert_eq!(*observable.peek(), 8);
}

#[test]
fn apply_pass_without_delivery_only_prunes() {
    let mut observable = ObservableValue::new(2usize);
    let a = Rc::new(SimpleObserver::new());
    let b = Rc::new(SimpleObserver::new());
    observable.register(WeakRef::downgrade(&a));
    observable.register(WeakRef::downgrade(&b));
    observable.apply_pass(vec![None, Some(b.clone())], false);
    assert_eq!(observable.observables(), 1);
    assert!(a.updates.borrow().is_empty());
    assert!(b.updates.borrow().is_empty());
    observable.trigger();
    assert!(a.updates.borrow().is_empty());
    assert_eq!(*b.updates.borrow(), [2]);
}
