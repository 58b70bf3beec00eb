//! Hooks that turn a signature value into a time-stamp token.
use vstd::prelude::*;

verus! {

/// Produces a time-stamp token for a signature value, for users to implement.
pub trait TimeStampHook {
    /// The token for `signature`.
    fn apply(&self, signature: &[u8]) -> Vec<u8>;
}

/// A hook backed by a closure that accepts every signature.
pub struct ClosureTimeStampHook<F: Fn(&[u8]) -> Vec<u8>> {
    func: F,
}

impl<F: Fn(&[u8]) -> Vec<u8>> ClosureTimeStampHook<F> {
    #[verifier::type_invariant]
    spec fn accepts_all(self) -> bool {
        forall|s: &[u8]| call_requires(self.func, (s,))
    }

    /// A hook calling `func`.
    pub fn new(func: F) -> (r: Self)
        requires
            forall|s: &[u8]| call_requires(func, (s,)),
        ensures
            r.func() == func,
    {
        ClosureTimeStampHook { func }
    }

    /// The closure called.
    pub closed spec fn func(self) -> F {
        self.func
    }
}

impl<F: Fn(&[u8]) -> Vec<u8>> TimeStampHook for ClosureTimeStampHook<F> {
    fn apply(&self, signature: &[u8]) -> (r: Vec<u8>)
        ensures
            call_ensures(self.func(), (signature,), r),
    {
        proof {
            use_type_invariant(self);
        }
        (self.func)(signature)
    }
}

} // verus!
