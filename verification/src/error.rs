//! What can go wrong while a server is set up.
use std::num::ParseIntError;
use vstd::prelude::*;

verus! {

/// Why a reconciliation failed. `E` is the error of the operator framework.
#[derive(Debug, PartialEq, Eq)]
pub enum Error<E> {
    /// The operator framework reported an error.
    OperatorError { source: E },
    /// The configured port is no port number.
    InvalidPort { reason: ParseIntError },
    /// The config map of the type `cm_type` has no name.
    MissingConfigMapNameError { cm_type: &'static str },
    /// There is no config map of the type `cm_type` for the pod `pod_name`.
    MissingConfigMapError { cm_type: &'static str, pod_name: String },
}

/// An [`Error`] as a mathematical value.
pub ghost enum ErrorView<E> {
    OperatorError { source: E },
    InvalidPort { reason: ParseIntError },
    MissingConfigMapNameError { cm_type: Seq<char> },
    MissingConfigMapError { cm_type: Seq<char>, pod_name: Seq<char> },
}

impl<E> View for Error<E> {
    type V = ErrorView<E>;

    open spec fn view(&self) -> ErrorView<E> {
        match *self {
            Error::OperatorError { source } => ErrorView::OperatorError { source },
            Error::InvalidPort { reason } => ErrorView::InvalidPort { reason },
            Error::MissingConfigMapNameError { cm_type } => ErrorView::MissingConfigMapNameError {
                cm_type: cm_type@,
            },
            Error::MissingConfigMapError { cm_type, pod_name } => ErrorView::MissingConfigMapError {
                cm_type: cm_type@,
                pod_name: pod_name@,
            },
        }
    }
}

/// An error as a mathematical value is of the same sort and tells the same.
pub proof fn error_tells_its_cause<E>(error: Error<E>)
    ensures
        match error {
            Error::OperatorError { source } => error@ == (ErrorView::<E>::OperatorError { source }),
            Error::InvalidPort { reason } => error@ == (ErrorView::<E>::InvalidPort { reason }),
            Error::MissingConfigMapNameError { cm_type } => error@ == (
            ErrorView::<E>::MissingConfigMapNameError { cm_type: cm_type@ }),
            Error::MissingConfigMapError { cm_type, pod_name } => error@ == (
            ErrorView::<E>::MissingConfigMapError { cm_type: cm_type@, pod_name: pod_name@ }),
        },
{
}

} // verus!
