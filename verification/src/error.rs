//! The errors of a request and of a bulk operation. `E` is the error type of
//! the store.

use vstd::prelude::*;

verus! {

/// Why a request was given up.
#[derive(Clone, Debug, PartialEq, Eq)]
pub enum RequestError<E> {
    /// The last of `attempts` attempts ran into its timeout.
    Timeout { attempts: usize },
    /// The last of `attempts` attempts was answered with the error `cause`.
    Failed { attempts: usize, cause: E },
    /// The request could not be made, and making it again would not help.
    Rejected { cause: E },
}

/// Why a bulk operation ended early.
#[derive(Clone, Debug, PartialEq, Eq)]
pub enum Error<E> {
    /// A page of the listing could not be fetched.
    Listing { cause: E },
    /// The object `key` could not be copied.
    CopyObject { key: String, error: RequestError<E> },
    /// The object `key` was copied, and could not be deleted.
    DeleteObject { key: String, error: RequestError<E> },
}

impl<E> Error<E> {
    /// The key of the object that the error is about. The error of a listing
    /// is about none, and has the empty key here.
    pub open spec fn key(self) -> Seq<char> {
        match self {
            Error::CopyObject { key, .. } => key@,
            Error::DeleteObject { key, .. } => key@,
            _ => Seq::empty(),
        }
    }
}

} // verus!
