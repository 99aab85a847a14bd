//! A value whose changes are reported to observers.
use vstd::prelude::*;

verus! {

/// Something told of each change to an observed value.
pub trait Observer<T> {
    /// Told the value before and after a change.
    fn notify(&self, old: &T, new: &T);
}

impl<T> Observer<T> for Box<dyn Observer<T>> {
    fn notify(&self, old: &T, new: &T) {
        (**self).notify(old, new)
    }
}

/// A value with the observers of its changes.
#[verifier::reject_recursive_types(T)]
pub struct Observable<T: Clone, O: Observer<T> = Box<dyn Observer<T>>> {
    inner: T,
    observers: Vec<O>,
}

impl<T: Clone, O: Observer<T>> Observable<T, O> {
    /// The observed value.
    pub closed spec fn value(&self) -> T {
        self.inner
    }

    /// The observers, in the order in which they registered.
    pub closed spec fn observers(&self) -> Seq<O> {
        self.observers@
    }

    /// An observed value with no observers yet.
    pub fn new(inner: T) -> (r: Self)
        ensures
            r.value() == inner,
            r.observers() == Seq::<O>::empty(),
    {
        Observable { inner, observers: Vec::new() }
    }

    /// Adds an observer after those already registered.
    pub fn register(&mut self, observer: O)
        ensures
            final(self).value() == old(self).value(),
            final(self).observers() == old(self).observers().push(observer),
    {
        self.observers.push(observer)
    }

    /// Changes the value with `predicate`, then tells every observer, in order of registration,
    /// the value before and after. The contract states the change only: `Observer::notify` has
    /// no contract, so that the observers are told is not verified.
    pub fn run<F: FnOnce(&mut T)>(&mut self, predicate: F)
        requires
            forall|t: &mut T| #[trigger] predicate.requires((t,)),
        ensures
            final(self).observers() == old(self).observers(),
            exists|t: &mut T| *t == old(self).value() && *final(t) == final(self).value() && #[trigger] predicate.ensures((t,), ()),
    {
        let old = self.inner.clone();
        predicate(&mut self.inner);
        let mut i: usize = 0;
        while i < self.observers.len()
            invariant
                i <= self.observers@.len(),
            decreases self.observers.len() - i,
        {
            self.observers[i].notify(&old, &self.inner);
            i = i + 1;
        }
    }

    /// Changes the value with `predicate` without telling the observers (which, as for `run`,
    /// the contract does not state).
    pub fn run_silent<F: FnOnce(&mut T)>(&mut self, predicate: F)
        requires
            forall|t: &mut T| #[trigger] predicate.requires((t,)),
        ensures
            final(self).observers() == old(self).observers(),
            exists|t: &mut T| *t == old(self).value() && *final(t) == final(self).value() && #[trigger] predicate.ensures((t,), ()),
    {
        predicate(&mut self.inner);
    }

    /// The observed value.
    pub fn get(&self) -> (r: &T)
        ensures
            *r == self.value(),
    {
        &self.inner
    }
}

} // verus!
