//! Errors of the crate, and the sequence of identifiers that reports one.

use crate::kernel::types::{ErrorLevel, SequenceVersion, SystemError, UID};
use vstd::prelude::*;
use vstd::std_specs::convert::FromSpecImpl;

verus! {

/// `std::io::Error`: the error of an input or output operation. A value is
/// only carried inside [`CoreError::StorageError`]; nothing is known of what
/// it holds.
#[verifier::external_type_specification]
#[verifier::external_body]
pub struct ExIoError(std::io::Error);

/// An error of the crate.
#[derive(Debug)]
pub enum CoreError {
    /// No such identifier.
    UIDNotFound(UID),
    /// No such position; the text says which.
    InvalidPosition(String),
    /// The sequence is at another version than was expected.
    VersionMismatch { expected: SequenceVersion, actual: SequenceVersion },
    /// No such anchor.
    AnchorNotFound(UID),
    /// The store failed.
    StorageError(std::io::Error),
    /// The input could not be read; the text says why.
    ParseError(String),
    /// An error that came as a code.
    SystemError(SystemError),
}

impl From<SystemError> for CoreError {
    fn from(err: SystemError) -> (wrapped: Self) {
        CoreError::SystemError(err)
    }
}

impl FromSpecImpl<SystemError> for CoreError {
    open spec fn obeys_from_spec() -> bool {
        true
    }

    open spec fn from_spec(err: SystemError) -> Self {
        CoreError::SystemError(err)
    }
}

/// The identifier that opens an error sequence.
pub const ERROR_START: u64 = 0xE000000000000001;

/// The identifier that stands for an error level.
pub open spec fn level_uid(level: ErrorLevel) -> UID {
    match level {
        ErrorLevel::Fatal => UID(0xE000000000000002),
        ErrorLevel::Severe => UID(0xE000000000000003),
        ErrorLevel::Warning => UID(0xE000000000000004),
        ErrorLevel::Info => UID(0xE000000000000005),
    }
}

/// The identifier that stands for an error code: the identifier that the
/// code is about, where it is about one.
pub open spec fn code_uid(code: SystemError) -> UID {
    match code {
        SystemError::UIDNotFound(uid) => uid,
        SystemError::InvalidPosition => UID(0xE000000000000101),
        SystemError::VersionMismatch => UID(0xE000000000000102),
        SystemError::AnchorNotFound(uid) => uid,
        SystemError::OperationNotSupported => UID(0xE000000000000103),
        SystemError::StorageError => UID(0xE000000000000104),
        SystemError::ParseError => UID(0xE000000000000105),
    }
}

/// The sequence that reports an error: the opening mark, the level, the
/// code, the length of the context, the context, the details.
pub open spec fn error_sequence(
    level: ErrorLevel,
    code: SystemError,
    context: Seq<UID>,
    details: Seq<UID>,
) -> Seq<UID> {
    seq![UID(ERROR_START), level_uid(level), code_uid(code), UID(context.len() as u64)] + context
        + details
}

/// Builds the sequence that reports an error.
pub fn make_error_sequence(
    level: ErrorLevel,
    error_code: SystemError,
    context: Vec<UID>,
    details: Vec<UID>,
) -> (sequence: Vec<UID>)
    ensures
        sequence@ == error_sequence(level, error_code, context@, details@),
        sequence@.len() == 4 + context@.len() + details@.len(),
{
    let mut context = context;
    let mut details = details;
    let mut result: Vec<UID> = Vec::new();
    result.push(UID(ERROR_START));
    result.push(
        match level {
            ErrorLevel::Fatal => UID(0xE000000000000002),
            ErrorLevel::Severe => UID(0xE000000000000003),
            ErrorLevel::Warning => UID(0xE000000000000004),
            ErrorLevel::Info => UID(0xE000000000000005),
        },
    );
    let error_uid = match error_code {
        SystemError::UIDNotFound(uid) => uid,
        SystemError::InvalidPosition => UID(0xE000000000000101),
        SystemError::VersionMismatch => UID(0xE000000000000102),
        SystemError::AnchorNotFound(uid) => uid,
        SystemError::OperationNotSupported => UID(0xE000000000000103),
        SystemError::StorageError => UID(0xE000000000000104),
        SystemError::ParseError => UID(0xE000000000000105),
    };
    result.push(error_uid);
    result.push(UID(context.len() as u64));
    result.append(&mut context);
    result.append(&mut details);
    result
}

} // verus!
