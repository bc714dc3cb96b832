use vstd::prelude::*;
use crate::error::Error;

verus! {

/// Turns the result of looking up a resource that may be missing into the
/// result of looking up one that must exist.
pub trait OpenResultExt {
    /// The result once the absence has become a failure.
    type Reprocessed;

    /// Makes an absent value a `NotFound` failure.
    fn require_found(self) -> Self::Reprocessed;
}

impl<T> OpenResultExt for Result<Option<T>, Error> {
    type Reprocessed = Result<T, Error>;

    /// A failure passes unchanged, a present value is unwrapped, and an
    /// absent one becomes `Error::NotFound`.
    fn require_found(self) -> (r: Result<T, Error>)
        ensures
            match self {
                Err(e) => r == Err::<T, Error>(e),
                Ok(Some(x)) => r == Ok::<T, Error>(x),
                Ok(None) => r matches Err(Error::NotFound),
            },
    {
        match self {
            Err(e) => Err(e),
            Ok(Some(x)) => Ok(x),
            Ok(None) => Err(Error::NotFound),
        }
    }
}

} // verus!
