use crate::model::{lemma_pass_sends_value, notified};
use crate::weak_ref::WeakRef;
use vstd::prelude::*;
use vstd::std_specs::cmp::PartialEqSpec;

verus! {

/// A type that can receive the value of an `Observable`.
pub trait Observer {
    /// The type of the value that the `Observable` holds.
    type Observes;

    /// Called by the `Observable` when its value is pushed to its observers.
    fn update(&self, data: &Self::Observes);
}

/// An observer of values of type `T`, in a form that can stand behind `dyn`.
///
/// Every `Observer` is one, so observers of different types that watch the
/// same value can be held together as `Box<dyn ObserverOf<T>>`.
pub trait ObserverOf<T> {
    /// Receives a value.
    fn receive(&self, data: &T);
}

impl<O: Observer> ObserverOf<O::Observes> for O {
    fn receive(&self, data: &O::Observes) {
        self.update(data);
    }
}

/// A boxed observer is an observer: the call goes to the one inside.
impl<T> Observer for Box<dyn ObserverOf<T>> {
    type Observes = T;

    fn update(&self, data: &T) {
        (**self).receive(data);
    }
}

/// A type whose value can be observed by observers of type `O`.
///
/// Implementors give the four primitives; `set`, `set_if_changed` and `mutate`
/// are built from them.
pub trait Observable<O: Observer<Observes = Self::Has>> {
    /// The type of the value held.
    type Has: PartialEq;

    /// The value held.
    spec fn current(&self) -> Self::Has;

    /// The registered handles, in registration order.
    spec fn subscribers(&self) -> Seq<WeakRef<O>>;

    /// Every delivery made so far: the handle it went to and the value sent,
    /// which is the value held at the moment of the call.
    spec fn deliveries(&self) -> Seq<(WeakRef<O>, Self::Has)>;

    /// Appends a handle to the subscribers. Its liveness is not checked here.
    fn register(&mut self, observer: WeakRef<O>)
        ensures
            final(self).current() == old(self).current(),
            final(self).subscribers() == old(self).subscribers().push(observer),
            final(self).deliveries() == old(self).deliveries(),
    ;

    /// Drops the handles whose observer is gone and sends the value held to
    /// each live one, once, in registration order.
    fn trigger(&mut self)
        ensures
            final(self).current() == old(self).current(),
            notified(
                old(self).subscribers(),
                old(self).deliveries(),
                old(self).current(),
                final(self).subscribers(),
                final(self).deliveries(),
            ),
    ;

    /// Replaces the value without pruning or notifying.
    fn set_silently(&mut self, data: Self::Has)
        ensures
            final(self).current() == data,
            final(self).subscribers() == old(self).subscribers(),
            final(self).deliveries() == old(self).deliveries(),
    ;

    /// The value held; reading has no effect.
    fn peek(&self) -> (r: &Self::Has)
        ensures
            *r == self.current(),
    ;

    /// Replaces the value, then notifies: observers see the new value, which
    /// is already held when each of them is called.
    fn set(&mut self, data: Self::Has)
        ensures
            final(self).current() == data,
            final(self).deliveries().len() >= old(self).deliveries().len(),
            forall|j: int|
                old(self).deliveries().len() <= j < final(self).deliveries().len() ==> (
                #[trigger] final(self).deliveries()[j]).1 == final(self).current(),
            notified(
                old(self).subscribers(),
                old(self).deliveries(),
                data,
                final(self).subscribers(),
                final(self).deliveries(),
            ),
    {
        self.set_silently(data);
        self.trigger();
        proof {
            lemma_pass_sends_value(
                old(self).subscribers(),
                old(self).deliveries(),
                data,
                self.subscribers(),
                self.deliveries(),
            );
            assert forall|j: int|
                old(self).deliveries().len() <= j < self.deliveries().len() implies (
                #[trigger] self.deliveries()[j]).1 == self.current() by {
                let m = j - old(self).deliveries().len();
                assert(self.deliveries()[old(self).deliveries().len() + m] == (
                    self.subscribers()[m],
                    data,
                ));
            }
        }
    }

    /// Does what `set` does when `data` differs from the value held, and
    /// nothing otherwise.
    fn set_if_changed(&mut self, data: Self::Has)
        ensures
            Self::Has::obeys_eq_spec() && data.eq_spec(&old(self).current()) ==> {
                &&& final(self).current() == old(self).current()
                &&& final(self).subscribers() == old(self).subscribers()
                &&& final(self).deliveries() == old(self).deliveries()
            },
            Self::Has::obeys_eq_spec() && !data.eq_spec(&old(self).current()) ==> {
                &&& final(self).current() == data
                &&& notified(
                    old(self).subscribers(),
                    old(self).deliveries(),
                    data,
                    final(self).subscribers(),
                    final(self).deliveries(),
                )
            },
    {
        if data != *self.peek() {
            self.set(data)
        }
    }

    /// Computes `f` of the value held and does what `set` does with the result.
    fn mutate<F>(&mut self, f: F)
        where
            F: Fn(&Self::Has) -> Self::Has,
        requires
            f.requires((&old(self).current(),)),
        ensures
            exists|r: Self::Has|
                {
                    &&& f.ensures((&old(self).current(),), r)
                    &&& final(self).current() == r
                    &&& notified(
                        old(self).subscribers(),
                        old(self).deliveries(),
                        r,
                        final(self).subscribers(),
                        final(self).deliveries(),
                    )
                },
    {
        let new_value = f(self.peek());
        self.set(new_value);
    }
}

} // verus!
