//! The failures that end a session.

use std::io;
use std::sync::mpsc::TryRecvError;
use vstd::prelude::*;
use vstd::std_specs::convert::FromSpecImpl;

verus! {

/// `std::sync::mpsc::TryRecvError`, carried through as it is.
#[verifier::external_type_specification]
#[verifier::external_body]
pub struct ExTryRecvError(TryRecvError);

/// `std::io::Error`, carried through as it is.
#[verifier::external_type_specification]
#[verifier::external_body]
pub struct ExIoError(io::Error);

/// Why a session could not go on.
#[derive(Debug)]
pub enum BioError {
    /// The event bus could not be read.
    RecvError(TryRecvError),
    /// The terminal or a stream of the child failed.
    IoError(io::Error),
}

pub type BioResult<T> = Result<T, BioError>;

impl From<TryRecvError> for BioError {
    fn from(e: TryRecvError) -> (error: Self) {
        Self::RecvError(e)
    }
}

impl FromSpecImpl<TryRecvError> for BioError {
    open spec fn obeys_from_spec() -> bool {
        true
    }

    open spec fn from_spec(e: TryRecvError) -> Self {
        BioError::RecvError(e)
    }
}

impl From<io::Error> for BioError {
    fn from(e: io::Error) -> (error: Self) {
        Self::IoError(e)
    }
}

impl FromSpecImpl<io::Error> for BioError {
    open spec fn obeys_from_spec() -> bool {
        true
    }

    open spec fn from_spec(e: io::Error) -> Self {
        BioError::IoError(e)
    }
}

} // verus!
