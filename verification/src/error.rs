//! The error taxonomy that the allocator and the capacity query surface, and
//! the classification layer that decides which failures a transaction may
//! retry.

use vstd::prelude::*;
use vstd::string::*;

verus! {

/// A failure surfaced to a caller.  Each variant is either user-facing (the
/// message may be shown verbatim) or internal (the detail is hidden and
/// logged); `is_internal_error` tells them apart.
#[derive(Debug)]
pub enum Error {
    /// The connection pool was exhausted or the connect itself failed.
    DatabaseConnectionError(String),
    /// A statement against the store failed.
    QueryError(String),
    /// A request to the chat service failed.
    SerenityError(String),
    /// The caller is not an authorized supporter.
    UserIsNotSupporterError,
    /// The operation was invoked in a context it does not fit, for instance
    /// outside any guild.
    InvalidCommandError(String),
    /// Every private bot instance is at capacity.
    NoPrivateBotAvailableError,
}

/// The mathematical image of an `Error`: the same variants, with each message
/// taken to its character sequence.
#[verifier::ext_equal]
pub enum ErrorView {
    DatabaseConnectionError(Seq<char>),
    QueryError(Seq<char>),
    SerenityError(Seq<char>),
    UserIsNotSupporterError,
    InvalidCommandError(Seq<char>),
    NoPrivateBotAvailableError,
}

impl View for Error {
    type V = ErrorView;

    open spec fn view(&self) -> ErrorView {
        match self {
            Error::DatabaseConnectionError(m) => ErrorView::DatabaseConnectionError(m@),
            Error::QueryError(m) => ErrorView::QueryError(m@),
            Error::SerenityError(m) => ErrorView::SerenityError(m@),
            Error::UserIsNotSupporterError => ErrorView::UserIsNotSupporterError,
            Error::InvalidCommandError(m) => ErrorView::InvalidCommandError(m@),
            Error::NoPrivateBotAvailableError => ErrorView::NoPrivateBotAvailableError,
        }
    }
}

impl Error {
    /// The numeric code of this error: the 400 000 range is user-facing, the
    /// 500 000 range internal.
    pub open spec fn spec_error_code(&self) -> u32 {
        match self {
            Error::InvalidCommandError(_) => 400_001,
            Error::UserIsNotSupporterError => 400_002,
            Error::NoPrivateBotAvailableError => 400_004,
            Error::DatabaseConnectionError(_) => 500_001,
            Error::QueryError(_) => 500_002,
            Error::SerenityError(_) => 500_003,
        }
    }

    pub fn error_code(&self) -> (code: u32)
        ensures
            code == self.spec_error_code(),
    {
        match self {
            Error::InvalidCommandError(_) => 400_001,
            Error::UserIsNotSupporterError => 400_002,
            Error::NoPrivateBotAvailableError => 400_004,
            Error::DatabaseConnectionError(_) => 500_001,
            Error::QueryError(_) => 500_002,
            Error::SerenityError(_) => 500_003,
        }
    }

    /// Whether the error is internal: its detail is hidden from the caller
    /// and logged.  A user-facing error's message is shown verbatim.
    pub open spec fn spec_is_internal_error(&self) -> bool {
        match self {
            Error::UserIsNotSupporterError
            | Error::InvalidCommandError(_)
            | Error::NoPrivateBotAvailableError => false,
            Error::DatabaseConnectionError(_)
            | Error::QueryError(_)
            | Error::SerenityError(_) => true,
        }
    }

    pub fn is_internal_error(&self) -> (internal: bool)
        ensures
            internal == self.spec_is_internal_error(),
    {
        match self {
            Error::UserIsNotSupporterError
            | Error::InvalidCommandError(_)
            | Error::NoPrivateBotAvailableError => false,
            Error::DatabaseConnectionError(_)
            | Error::QueryError(_)
            | Error::SerenityError(_) => true,
        }
    }
}

impl ErrorView {
    /// The wording of each error, with the dynamic part spliced in.
    pub open spec fn message(self) -> Seq<char> {
        match self {
            ErrorView::DatabaseConnectionError(m) => "Could not establish database connection: "@
                + m,
            ErrorView::QueryError(m) => "There has been an error executing a query: '"@ + m
                + "'"@,
            ErrorView::SerenityError(m) =>
            "There has been an error executing a serenity request: '"@ + m + "'"@,
            ErrorView::UserIsNotSupporterError =>
            "You must be a [supporter](https://ko-fi.com/R5R0XAC5J) to perform this action. To be verified as a supporter, you must have the supporters role in the [aiode discord](https://discord.gg/gdc25AG). This role is assigned automatically if your Ko-fi account is connected to discord."@,
            ErrorView::InvalidCommandError(m) => m,
            ErrorView::NoPrivateBotAvailableError =>
            "There is currently no private bot instance available. Check the [aiode discord](https://discord.gg/gdc25AG) to learn when new availability is added."@,
        }
    }
}

impl Error {
    /// The message shown for this error, the dynamic part spliced in.
    pub fn message(&self) -> (r: String)
        ensures
            r@ == self@.message(),
    {
        match self {
            Error::DatabaseConnectionError(m) => {
                let mut text = String::from_str("Could not establish database connection: ");
                text.append(m.as_str());
                text
            },
            Error::QueryError(m) => {
                let mut text = String::from_str("There has been an error executing a query: '");
                text.append(m.as_str());
                text.append("'");
                text
            },
            Error::SerenityError(m) => {
                let mut text = String::from_str(
                    "There has been an error executing a serenity request: '",
                );
                text.append(m.as_str());
                text.append("'");
                text
            },
            Error::UserIsNotSupporterError => String::from_str(
                "You must be a [supporter](https://ko-fi.com/R5R0XAC5J) to perform this action. To be verified as a supporter, you must have the supporters role in the [aiode discord](https://discord.gg/gdc25AG). This role is assigned automatically if your Ko-fi account is connected to discord.",
            ),
            Error::InvalidCommandError(m) => m.clone(),
            Error::NoPrivateBotAvailableError => String::from_str(
                "There is currently no private bot instance available. Check the [aiode discord](https://discord.gg/gdc25AG) to learn when new availability is added.",
            ),
        }
    }
}

/// How a failed transaction attempt is handled: a `Retry` failure discards
/// the transaction and re-invokes the unit of work from scratch, a
/// `Rollback` failure discards the transaction and propagates immediately.
/// This classification drives the retry executor only and wraps the domain
/// error that callers see.
#[derive(Debug)]
pub enum TransactionRuntimeError {
    Retry(Error),
    Rollback(Error),
}

/// The mathematical image of a `TransactionRuntimeError`.
#[verifier::ext_equal]
pub enum TransactionRuntimeErrorView {
    Retry(ErrorView),
    Rollback(ErrorView),
}

impl View for TransactionRuntimeError {
    type V = TransactionRuntimeErrorView;

    open spec fn view(&self) -> TransactionRuntimeErrorView {
        match self {
            TransactionRuntimeError::Retry(e) => TransactionRuntimeErrorView::Retry(e@),
            TransactionRuntimeError::Rollback(e) => TransactionRuntimeErrorView::Rollback(e@),
        }
    }
}

impl TransactionRuntimeError {
    /// The wrapped error's message: a retryable and a terminal failure read
    /// the same.
    pub fn message(&self) -> (r: String)
        ensures
            r@ == (match self@ {
                TransactionRuntimeErrorView::Retry(e) => e.message(),
                TransactionRuntimeErrorView::Rollback(e) => e.message(),
            }),
    {
        match self {
            TransactionRuntimeError::Retry(e) => e.message(),
            TransactionRuntimeError::Rollback(e) => e.message(),
        }
    }
}

/// The two ways a statement against the store can fail, as far as retry
/// handling cares: a serialization conflict under serializable isolation, or
/// anything else.
#[derive(Clone, Copy, PartialEq, Eq, Structural, Debug)]
pub enum DatabaseErrorKind {
    SerializationFailure,
    Other,
}

impl TransactionRuntimeError {
    /// Classifies a failed statement: only a serialization failure is
    /// retryable, every other failure rolls the transaction back for good.
    pub fn from_database_error(kind: DatabaseErrorKind, message: String) -> (r: Self)
        ensures
            kind == DatabaseErrorKind::SerializationFailure ==> r
                == TransactionRuntimeError::Retry(Error::QueryError(message)),
            kind != DatabaseErrorKind::SerializationFailure ==> r
                == TransactionRuntimeError::Rollback(Error::QueryError(message)),
    {
        match kind {
            DatabaseErrorKind::SerializationFailure => TransactionRuntimeError::Retry(
                Error::QueryError(message),
            ),
            DatabaseErrorKind::Other => TransactionRuntimeError::Rollback(
                Error::QueryError(message),
            ),
        }
    }
}

/// A plain domain error aborts the transaction without retry.
impl From<Error> for TransactionRuntimeError {
    fn from(e: Error) -> (r: Self) {
        TransactionRuntimeError::Rollback(e)
    }
}

impl vstd::std_specs::convert::FromSpecImpl<Error> for TransactionRuntimeError {
    open spec fn obeys_from_spec() -> bool {
        true
    }

    open spec fn from_spec(e: Error) -> Self {
        TransactionRuntimeError::Rollback(e)
    }
}

} // verus!
