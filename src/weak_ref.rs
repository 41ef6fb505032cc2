use std::rc::{Rc, Weak};
use vstd::prelude::*;

verus! {

/// A non-owning handle to a value held by an `Rc`, wrapping `std::rc::Weak`.
///
/// The handle is opaque: proofs treat it as a value that can only be stored,
/// compared and resolved.
#[verifier::external_body]
#[verifier::reject_recursive_types(T)]
pub struct WeakRef<T> {
    inner: Weak<T>,
}

impl<T> WeakRef<T> {
    /// Relies on `std::rc::Rc::downgrade`: makes a handle that does not keep
    /// the referent alive.
    #[verifier::external_body]
    pub fn downgrade(rc: &Rc<T>) -> (r: WeakRef<T>) {
        WeakRef { inner: Rc::downgrade(rc) }
    }

    /// Relies on `std::rc::Weak::upgrade`: `Some` while the referent is still
    /// owned somewhere, `None` once it has been dropped. Which of the two comes
    /// back depends on the heap, not on the handle, so nothing is promised.
    #[verifier::external_body]
    pub(crate) fn upgrade(&self) -> (r: Option<Rc<T>>) {
        self.inner.upgrade()
    }
}

} // verus!
