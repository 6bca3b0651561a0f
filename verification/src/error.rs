//! The errors a proving run can end in.

use crate::text::{decimal, decimal_string};
use vstd::prelude::*;
use vstd::string::*;

verus! {

/// Why a proving run failed.
#[derive(Debug, Clone, PartialEq, Eq)]
pub enum ProverError {
    /// The task itself cannot be worked on: no inputs, or an unknown program.
    MalformedTask(String),
    /// The input record at `index` could not be parsed.
    MalformedInput { index: usize, reason: String },
    /// The proof system failed, or the proof it produced did not validate.
    Stwo(String),
    /// The guest program failed.
    GuestProgram(String),
    /// A value could not be serialized.
    Serialization(String),
    /// A unit of concurrent work could not be joined.
    Io(String),
}

/// The mathematical value of a [`ProverError`].
pub ghost enum ProverErrorView {
    MalformedTask(Seq<char>),
    MalformedInput { index: nat, reason: Seq<char> },
    Stwo(Seq<char>),
    GuestProgram(Seq<char>),
    Serialization(Seq<char>),
    Io(Seq<char>),
}

impl View for ProverError {
    type V = ProverErrorView;

    open spec fn view(&self) -> ProverErrorView {
        match self {
            ProverError::MalformedTask(s) => ProverErrorView::MalformedTask(s@),
            ProverError::MalformedInput { index, reason } => ProverErrorView::MalformedInput {
                index: *index as nat,
                reason: reason@,
            },
            ProverError::Stwo(s) => ProverErrorView::Stwo(s@),
            ProverError::GuestProgram(s) => ProverErrorView::GuestProgram(s@),
            ProverError::Serialization(s) => ProverErrorView::Serialization(s@),
            ProverError::Io(s) => ProverErrorView::Io(s@),
        }
    }
}

impl ProverErrorView {
    /// A failure of the proof computation itself, the kind that is reported
    /// to the failure reporter: a proof-system or a guest-program failure.
    pub open spec fn is_proving_failure(self) -> bool {
        self is Stwo || self is GuestProgram
    }

    /// The text shown for the error.
    pub open spec fn message(self) -> Seq<char> {
        match self {
            ProverErrorView::MalformedTask(s) => "Malformed task: "@ + s,
            ProverErrorView::MalformedInput { index, reason } => "Malformed input "@ + decimal(
                index,
            ) + ": "@ + reason,
            ProverErrorView::Stwo(s) => "Stwo prover error: "@ + s,
            ProverErrorView::GuestProgram(s) => "Guest Program error: "@ + s,
            ProverErrorView::Serialization(s) => "Serialization error: "@ + s,
            ProverErrorView::Io(s) => "Io error: "@ + s,
        }
    }
}

/// `prefix` followed by `rest`.
fn prefixed(prefix: &str, rest: &str) -> (out: String)
    ensures
        out@ == prefix@ + rest@,
{
    let mut out = String::from_str(prefix);
    out.append(rest);
    out
}

impl ProverError {
    /// Whether this is a proof-system or guest-program failure.
    pub fn is_proving_failure(&self) -> (b: bool)
        ensures
            b == self@.is_proving_failure(),
    {
        match self {
            ProverError::Stwo(_) => true,
            ProverError::GuestProgram(_) => true,
            _ => false,
        }
    }

    /// The text shown for the error.
    pub fn message(&self) -> (out: String)
        ensures
            out@ == self@.message(),
    {
        match self {
            ProverError::MalformedTask(s) => prefixed("Malformed task: ", s.as_str()),
            ProverError::MalformedInput { index, reason } => {
                let mut out = prefixed("Malformed input ", decimal_string(*index).as_str());
                out.append(": ");
                out.append(reason.as_str());
                out
            },
            ProverError::Stwo(s) => prefixed("Stwo prover error: ", s.as_str()),
            ProverError::GuestProgram(s) => prefixed("Guest Program error: ", s.as_str()),
            ProverError::Serialization(s) => prefixed("Serialization error: ", s.as_str()),
            ProverError::Io(s) => prefixed("Io error: ", s.as_str()),
        }
    }
}

} // verus!
