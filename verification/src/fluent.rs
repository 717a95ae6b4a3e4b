use vstd::prelude::*;

verus! {

/// `.map` / `.when` combinators for fluent conditional composition: the
/// branching lives in the builder chain instead of in imperative code.
pub trait FluentBuilder: Sized {
    /// Apply `f` to `self`.
    fn map<U, F: FnOnce(Self) -> U>(self, f: F) -> (out: U)
        requires
            f.requires((self,)),
        ensures
            f.ensures((self,), out),
    {
        f(self)
    }

    /// Apply `f` only when `cond` holds; otherwise hand `self` back unchanged.
    fn when<F: FnOnce(Self) -> Self>(self, cond: bool, f: F) -> (out: Self)
        requires
            cond ==> f.requires((self,)),
        ensures
            cond ==> f.ensures((self,), out),
            !cond ==> out == self,
    {
        if cond {
            f(self)
        } else {
            self
        }
    }
}

} // verus!
