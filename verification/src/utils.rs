//! Small extensions to std types.

use vstd::prelude::*;

verus! {

/// An observation hook on the error case of a `Result`, returning the result
/// unchanged.
pub trait InspectErr<T, E>: Sized {
    /// Call `f` on the error if there is one, and hand `self` back as it
    /// came.
    fn inspect_err<F: FnOnce(&E)>(self, f: F) -> (r: Self)
        requires
            forall|e: &E| #[trigger] call_requires(f, (e,)),
        ensures
            r == self,
    ;
}

impl<T, E> InspectErr<T, E> for Result<T, E> {
    fn inspect_err<F: FnOnce(&E)>(self, f: F) -> (r: Self) {
        match &self {
            Err(e) => {
                f(e);
            },
            Ok(_) => {},
        }
        self
    }
}

} // verus!
