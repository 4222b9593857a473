//! What the store's answer to a statement means for the caller: the
//! mapping of driver failures and row counts to the results of the four
//! operations.

use vstd::prelude::*;
use crate::user_core::{User, UserError, UserId};

verus! {

/// What this library needs to know of a driver error.
#[derive(Clone, Copy, Debug, PartialEq, Eq, Structural)]
pub enum DriverFault {
    /// A unique index or the primary key refused the row.
    UniqueViolation,
    /// A query for one row found none.
    RowNotFound,
    /// Anything else: connectivity, a malformed statement, a schema mismatch.
    Other,
}

/// A failed statement: the driver's error and the fault that it stands for.
#[derive(Debug)]
pub struct DriverFailure {
    pub fault: DriverFault,
    pub cause: sqlx::Error,
}

/// The fault that a driver error stands for: `RowNotFound` for the variant
/// of that name, `UniqueViolation` for a database error that the driver
/// reports as a violation of a unique or primary key, `Other` for the rest.
pub uninterp spec fn fault_named(error: sqlx::Error) -> DriverFault;

/// Tells the variants of `sqlx::Error` apart, asking
/// `DatabaseError::is_unique_violation` of a database error.
///
/// The contract names the answer, which depends on the error alone; which
/// driver errors count as unique violations is the driver's knowledge.
#[verifier::external_body]
fn fault_of(error: &sqlx::Error) -> (fault: DriverFault)
    ensures
        fault == fault_named(*error),
{
    match error {
        sqlx::Error::RowNotFound => DriverFault::RowNotFound,
        sqlx::Error::Database(cause) if cause.is_unique_violation() => DriverFault::UniqueViolation,
        _ => DriverFault::Other,
    }
}

/// Keeps a success as it is, and puts beside a driver error the fault that
/// it stands for.
pub fn classify<T>(answer: Result<T, sqlx::Error>) -> (classified: Result<T, DriverFailure>)
    ensures
        classified == match answer {
            Ok(value) => Ok::<T, DriverFailure>(value),
            Err(error) => Err::<T, DriverFailure>(
                (DriverFailure { fault: fault_named(error), cause: error }),
            ),
        },
{
    match answer {
        Ok(value) => Ok(value),
        Err(error) => {
            let fault = fault_of(&error);
            Err(DriverFailure { fault, cause: error })
        },
    }
}

/// The error of a statement that writes and failed: a unique violation is
/// reported as such, anything else as a storage failure with its cause.
pub open spec fn write_error(failure: DriverFailure) -> UserError {
    match failure.fault {
        DriverFault::UniqueViolation => UserError::UniqueConstraintViolation,
        DriverFault::RowNotFound => UserError::StorageFailure { cause: failure.cause },
        DriverFault::Other => UserError::StorageFailure { cause: failure.cause },
    }
}

/// The error of a query for one user that failed: a missing row is reported
/// as such, anything else as a storage failure with its cause.
pub open spec fn read_error(failure: DriverFailure) -> UserError {
    match failure.fault {
        DriverFault::RowNotFound => UserError::NotFound,
        DriverFault::UniqueViolation => UserError::StorageFailure { cause: failure.cause },
        DriverFault::Other => UserError::StorageFailure { cause: failure.cause },
    }
}

/// Computes `write_error`.
fn into_write_error(failure: DriverFailure) -> (error: UserError)
    ensures
        error == write_error(failure),
{
    match failure.fault {
        DriverFault::UniqueViolation => UserError::UniqueConstraintViolation,
        _ => UserError::StorageFailure { cause: failure.cause },
    }
}

/// The result of an insert under `user_id`, given the number of rows that
/// the statement changed or the failure it met: the identifier if exactly one
/// row was written, an integrity violation for any other count.
pub fn insert_outcome(user_id: UserId, executed: Result<u64, DriverFailure>) -> (result: Result<
    UserId,
    UserError,
>)
    ensures
        result == match executed {
            Ok(rows_affected) => if rows_affected == 1 {
                Ok::<UserId, UserError>(user_id)
            } else {
                Err::<UserId, UserError>(UserError::IntegrityViolation { rows_affected })
            },
            Err(failure) => Err::<UserId, UserError>(write_error(failure)),
        },
{
    match executed {
        Ok(rows_affected) => {
            if rows_affected == 1 {
                Ok(user_id)
            } else {
                Err(UserError::IntegrityViolation { rows_affected })
            }
        },
        Err(failure) => Err(into_write_error(failure)),
    }
}

/// The result of an update, given the number of rows that the statement
/// changed or the failure it met. A count of 0 is no error.
pub fn update_outcome(executed: Result<u64, DriverFailure>) -> (result: Result<u64, UserError>)
    ensures
        result == match executed {
            Ok(rows_affected) => Ok::<u64, UserError>(rows_affected),
            Err(failure) => Err::<u64, UserError>(write_error(failure)),
        },
{
    match executed {
        Ok(rows_affected) => Ok(rows_affected),
        Err(failure) => Err(into_write_error(failure)),
    }
}

/// The result of a load by identifier, given the user that was fetched or
/// the failure that the query met.
pub fn load_by_id_outcome(fetched: Result<User, DriverFailure>) -> (result: Result<User, UserError>)
    ensures
        result == match fetched {
            Ok(user) => Ok::<User, UserError>(user),
            Err(failure) => Err::<User, UserError>(read_error(failure)),
        },
{
    match fetched {
        Ok(user) => Ok(user),
        Err(failure) => match failure.fault {
            DriverFault::RowNotFound => Err(UserError::NotFound),
            _ => Err(UserError::StorageFailure { cause: failure.cause }),
        },
    }
}

/// The result of a listing, given the users that were fetched, in their
/// order, or the failure that the query met: every failure of a listing is a
/// storage failure, and no part of a list is handed out with it.
pub fn load_all_sorted_outcome(fetched: Result<Vec<User>, DriverFailure>) -> (result: Result<
    Vec<User>,
    UserError,
>)
    ensures
        result == match fetched {
            Ok(users) => Ok::<Vec<User>, UserError>(users),
            Err(failure) => Err::<Vec<User>, UserError>(
                (UserError::StorageFailure { cause: failure.cause }),
            ),
        },
{
    match fetched {
        Ok(users) => Ok(users),
        Err(failure) => Err(UserError::StorageFailure { cause: failure.cause }),
    }
}

} // verus!
