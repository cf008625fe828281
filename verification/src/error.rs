//! The shared error abstraction — a user-facing message, an HTTP-style status
//! code, and an optional cause — together with the classification of storage
//! failures. The one place domain meaning is read out of a generic storage
//! failure is the duplicate-email check on a user insert.

use vstd::prelude::*;

verus! {

/// The error every fallible operation returns: a message fit to show to the
/// user, an HTTP-style status code, and the underlying cause when one is kept.
#[derive(Debug)]
pub struct Error {
    /// Message fit to show to the user.
    pub message: String,
    /// HTTP-style status code.
    pub status: u16,
    /// The underlying cause, when one is kept.
    pub cause: Option<String>,
}

/// Mathematical image of an `Error`.
#[verifier::ext_equal]
pub ghost struct ErrorV {
    pub message: Seq<char>,
    pub status: int,
    pub cause: Option<Seq<char>>,
}

impl View for Error {
    type V = ErrorV;

    open spec fn view(&self) -> ErrorV {
        ErrorV {
            message: self.message@,
            status: self.status as int,
            cause: self.cause.deep_view(),
        }
    }
}

/// The message of the user-facing duplicate-email error.
pub open spec fn duplicate_email_message() -> Seq<char> {
    "That email address is already taken."@
}

/// The opaque message under which storage failures are surfaced, so that no
/// storage internals leak to the caller.
pub open spec fn internal_error_message() -> Seq<char> {
    "internal server error"@
}

/// The duplicate-email error: user-facing message, 400-class status, no cause.
pub open spec fn is_duplicate_email_error(e: ErrorV) -> bool {
    &&& e.message == duplicate_email_message()
    &&& e.status == 400
    &&& e.cause is None
}

/// A generic storage failure, wrapped opaquely: internal-server message and a
/// 500 status, whatever the cause carried along.
pub open spec fn is_internal_error(e: ErrorV) -> bool {
    &&& e.message == internal_error_message()
    &&& e.status == 500
}

impl Error {
    /// Build an error from its parts.
    pub fn new(message: String, status: u16, cause: Option<String>) -> (r: Error)
        ensures
            r@ == (ErrorV { message: message@, status: status as int, cause: cause.deep_view() }),
    {
        Error { message, status, cause }
    }

    /// The opaque internal-server error, with no recorded cause.
    pub fn new_ise() -> (r: Error)
        ensures
            is_internal_error(r@),
            r@.cause is None,
    {
        Error { message: "internal server error".to_owned(), status: 500, cause: None }
    }

    /// A generic storage failure wrapping the reported cause.
    pub fn new_storage(cause: String) -> (r: Error)
        ensures
            is_internal_error(r@),
            r@.cause == Some(cause@),
    {
        Error { message: "internal server error".to_owned(), status: 500, cause: Some(cause) }
    }
}

/// What the storage layer reports when a statement fails: either the database
/// itself rejected it — naming the violated constraint, when one was — or the
/// call failed before the database could answer (connection lost, pool
/// closed, and the like).
#[derive(Debug)]
pub enum StorageFailure {
    /// The database rejected the statement.
    Database {
        /// The violated constraint, as the database names it, if any.
        constraint: Option<String>,
        /// The database's description of the failure.
        detail: String,
    },
    /// The call failed before the database answered.
    Other,
}

/// Mathematical image of a `StorageFailure`.
#[verifier::ext_equal]
pub ghost enum StorageFailureV {
    Database { constraint: Option<Seq<char>>, detail: Seq<char> },
    Other,
}

impl View for StorageFailure {
    type V = StorageFailureV;

    open spec fn view(&self) -> StorageFailureV {
        match self {
            StorageFailure::Database { constraint, detail } => StorageFailureV::Database {
                constraint: constraint.deep_view(),
                detail: detail@,
            },
            StorageFailure::Other => StorageFailureV::Other,
        }
    }
}

/// The name of the uniqueness constraint on the users table's email column,
/// as the database reports a violation of it.
pub open spec fn email_unique_constraint() -> Seq<char> {
    "users_email_key"@
}

/// How a failed user insert is surfaced: a database-reported violation of the
/// email-uniqueness constraint becomes the user-facing duplicate-email error;
/// any other database error is wrapped opaquely with its detail as the cause;
/// a failure before the database answered becomes the bare internal error.
pub open spec fn insert_error_of(f: StorageFailureV) -> ErrorV {
    match f {
        StorageFailureV::Database { constraint, detail } => {
            if constraint == Some(email_unique_constraint()) {
                ErrorV { message: duplicate_email_message(), status: 400, cause: None }
            } else {
                ErrorV { message: internal_error_message(), status: 500, cause: Some(detail) }
            }
        },
        StorageFailureV::Other => ErrorV {
            message: internal_error_message(),
            status: 500,
            cause: None,
        },
    }
}

impl StorageFailure {
    /// Classify a failed user insert, exactly as `insert_error_of` says.
    pub fn into_insert_error(self) -> (r: Error)
        ensures
            r@ == insert_error_of(self@),
    {
        match self {
            StorageFailure::Database { constraint, detail } => {
                match constraint {
                    Some(c) => {
                        if c == "users_email_key".to_owned() {
                            Error::new("That email address is already taken.".to_owned(), 400, None)
                        } else {
                            Error::new_storage(detail)
                        }
                    },
                    None => Error::new_storage(detail),
                }
            },
            StorageFailure::Other => Error::new_ise(),
        }
    }
}

} // verus!
