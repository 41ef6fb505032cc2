use crate::model::{keep_live, lemma_keep_live_push, notices, pruned, resolved_live};
use std::rc::Rc;
use crate::traits::{Observable, Observer};
use crate::weak_ref::WeakRef;
use vstd::prelude::*;

verus! {

/// A value with a list of non-owning handles to the observers that follow it.
#[verifier::reject_recursive_types(T)]
#[verifier::reject_recursive_types(O)]
pub struct ObservableValue<T, O: Observer<Observes = T>> {
    observables: Vec<WeakRef<O>>,
    value: T,
    /// Each call of `update` made so far: the handle it went through and the
    /// value passed.
    sent: Ghost<Seq<(WeakRef<O>, T)>>,
}

impl<T: PartialEq, O: Observer<Observes = T>> ObservableValue<T, O> {
    /// A container holding `value`, with no subscribers.
    pub fn new(value: T) -> (r: ObservableValue<T, O>)
        ensures
            r.current() == value,
            r.subscribers() == Seq::<WeakRef<O>>::empty(),
            r.deliveries() == Seq::<(WeakRef<O>, T)>::empty(),
    {
        ObservableValue { observables: Vec::new(), value: value, sent: Ghost(Seq::empty()) }
    }

    /// Drops the handles whose observer is gone, keeping the order of the rest.
    pub fn clean(&mut self)
        ensures
            final(self).current() == old(self).current(),
            final(self).deliveries() == old(self).deliveries(),
            pruned(old(self).subscribers(), final(self).subscribers()),
    {
        let resolved = self.resolve_all();
        self.apply_pass(resolved, false);
        proof {
            let live = resolved_live(resolved@);
            assert(live.len() == old(self).subscribers().len() && self.subscribers() == keep_live(
                old(self).subscribers(),
                live,
            ));
        }
    }

    /// The number of handles registered and not yet pruned.
    pub fn observables(&self) -> (r: usize)
        ensures
            r == self.subscribers().len(),
    {
        self.observables.len()
    }

    /// Resolves each handle once, in registration order.
    fn resolve_all(&self) -> (r: Vec<Option<Rc<O>>>)
        ensures
            r@.len() == self.subscribers().len(),
    {
        let mut r: Vec<Option<Rc<O>>> = Vec::new();
        let mut i: usize = 0;
        while i < self.observables.len()
            invariant
                i <= self.observables@.len(),
                r@.len() == i,
            decreases self.observables.len() - i,
        {
            r.push(self.observables[i].upgrade());
            i = i + 1;
        }
        r
    }

    /// Finishes a pass over the handles, given what resolving each of them
    /// gave, in order: a handle that resolved to nothing is removed; one that
    /// resolved to an observer is kept and, if `deliver` is set, that observer
    /// is sent the value held.
    pub fn apply_pass(&mut self, resolved: Vec<Option<Rc<O>>>, deliver: bool)
        requires
            resolved@.len() == old(self).subscribers().len(),
        ensures
            final(self).current() == old(self).current(),
            final(self).subscribers() == keep_live(
                old(self).subscribers(),
                resolved_live(resolved@),
            ),
            final(self).deliveries() == old(self).deliveries() + if deliver {
                notices(final(self).subscribers(), old(self).current())
            } else {
                seq![]
            },
    {
        let ghost subs0 = self.observables@;
        let ghost log0 = self.sent@;
        let ghost flags = resolved_live(resolved@);
        let mut i: usize = 0;
        let mut k: usize = 0;
        while k < resolved.len()
            invariant
                0 <= i <= k <= subs0.len(),
                resolved@.len() == subs0.len(),
                flags == resolved_live(resolved@),
                self.value == old(self).value,
                self.observables@ == keep_live(subs0.take(k as int), flags.take(k as int))
                    + subs0.skip(k as int),
                i == keep_live(subs0.take(k as int), flags.take(k as int)).len(),
                self.sent@ == log0 + if deliver {
                    notices(keep_live(subs0.take(k as int), flags.take(k as int)), self.value)
                } else {
                    seq![]
                },
            decreases resolved.len() - k,
        {
            let ghost live = flags.take(k as int);
            proof {
                assert(self.observables@[i as int] == subs0[k as int]);
                assert(flags.take(k + 1) =~= live.push(flags[k as int]));
                assert(subs0.skip(k as int) =~= seq![subs0[k as int]] + subs0.skip(k + 1));
            }
            match &resolved[k] {
                Some(o) => {
                    if deliver {
                        o.update(&self.value);
                        self.sent = Ghost(
                            self.sent@.push((self.observables@[i as int], self.value)),
                        );
                    }
                    proof {
                        lemma_keep_live_push(subs0, live, true);
                        let kept = keep_live(subs0.take(k as int), live);
                        assert(notices(kept.push(subs0[k as int]), self.value) =~= notices(
                            kept,
                            self.value,
                        ).push((subs0[k as int], self.value)));
                    }
                    i = i + 1;
                },
                None => {
                    self.observables.remove(i);
                    proof {
                        lemma_keep_live_push(subs0, live, false);
                    }
                },
            }
            k = k + 1;
        }
        proof {
            assert(subs0.take(k as int) =~= subs0);
            assert(flags.take(k as int) =~= flags);
        }
    }
}

impl<T: PartialEq, O: Observer<Observes = T>> Observable<O> for ObservableValue<T, O> {
    type Has = T;

    closed spec fn current(&self) -> T {
        self.value
    }

    closed spec fn subscribers(&self) -> Seq<WeakRef<O>> {
        self.observables@
    }

    closed spec fn deliveries(&self) -> Seq<(WeakRef<O>, T)> {
        self.sent@
    }

    fn register(&mut self, observer: WeakRef<O>) {
        self.observables.push(observer);
    }

    fn trigger(&mut self) {
        let resolved = self.resolve_all();
        self.apply_pass(resolved, true);
        proof {
            let live = resolved_live(resolved@);
            assert(live.len() == old(self).subscribers().len() && self.subscribers() == keep_live(
                old(self).subscribers(),
                live,
            ));
        }
    }

    fn set_silently(&mut self, data: T) {
        self.value = data;
    }

    fn peek(&self) -> (r: &T) {
        &self.value
    }
}

} // verus!
