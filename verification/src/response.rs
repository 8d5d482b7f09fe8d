use vstd::prelude::*;

use crate::item::Item;

verus! {

/// Failure taxonomy of the storage layer. "Not found" is deliberately absent:
/// it is a first-class outcome of the repository operations, never an error.
#[derive(Debug, Clone, Copy, PartialEq, Eq, Structural)]
pub enum RepoError {
    /// The database cannot be reached or authenticated to.
    Connectivity,
    /// A migration step failed during startup.
    Schema,
    /// Any other storage-layer failure during a call.
    Operation,
}

/// An error the handler layer returns to transport: a message and an
/// HTTP-style status code.
#[derive(Debug)]
pub struct AppError {
    pub message: String,
    pub status_code: u16,
}

impl AppError {
    /// Builds an error from a message and a status code, keeping both.
    pub fn new(message: String, status_code: u16) -> (r: AppError)
        ensures
            r.message@ == message@,
            r.status_code == status_code,
    {
        AppError { message, status_code }
    }

    /// Builds a 500 error with the given message.
    pub fn internal_server_error(message: String) -> (r: AppError)
        ensures
            r.message@ == message@,
            r.status_code == 500,
    {
        AppError { message, status_code: 500 }
    }

    /// Builds a 400 error with the given message.
    pub fn bad_request(message: String) -> (r: AppError)
        ensures
            r.message@ == message@,
            r.status_code == 400,
    {
        AppError { message, status_code: 400 }
    }

    /// Builds a 404 error with the given message.
    pub fn not_found(message: String) -> (r: AppError)
        ensures
            r.message@ == message@,
            r.status_code == 404,
    {
        AppError { message, status_code: 404 }
    }

    /// The status code this error maps onto.
    pub fn status_code(&self) -> (c: u16)
        ensures
            c == self.status_code,
    {
        self.status_code
    }
}

/// The conversion the handler applies to any database failure: internal
/// detail is logged by the caller, never echoed, so the message is fixed.
pub fn db_error() -> (r: AppError)
    ensures
        r.status_code == 500,
        r.message@ == "Database error occurred"@,
{
    AppError::internal_server_error("Database error occurred".to_owned())
}

/// Status mapping of the create route: a created item publishes 201, a
/// storage failure 500.
pub fn create_item_status(outcome: &Result<Item, RepoError>) -> (c: u16)
    ensures
        c == if outcome is Ok {
            201u16
        } else {
            500u16
        },
{
    match outcome {
        Ok(_) => 201,
        Err(_) => 500,
    }
}

/// Status mapping of the list route: a listing publishes 200, a storage
/// failure 500.
pub fn get_all_items_status(outcome: &Result<Vec<Item>, RepoError>) -> (c: u16)
    ensures
        c == if outcome is Ok {
            200u16
        } else {
            500u16
        },
{
    match outcome {
        Ok(_) => 200,
        Err(_) => 500,
    }
}

/// Status mapping of the fetch route: a found item publishes 200, an absent
/// identity 404 (not an error), a storage failure 500.
pub fn get_item_by_id_status(outcome: &Result<Option<Item>, RepoError>) -> (c: u16)
    ensures
        c == match outcome {
            Ok(Some(_)) => 200u16,
            Ok(None) => 404u16,
            Err(_) => 500u16,
        },
{
    match outcome {
        Ok(Some(_)) => 200,
        Ok(None) => 404,
        Err(_) => 500,
    }
}

/// Status mapping of the update route: an updated item publishes 200, an
/// absent identity 404 (not an error), a storage failure 500.
pub fn update_item_by_id_status(outcome: &Result<Option<Item>, RepoError>) -> (c: u16)
    ensures
        c == match outcome {
            Ok(Some(_)) => 200u16,
            Ok(None) => 404u16,
            Err(_) => 500u16,
        },
{
    match outcome {
        Ok(Some(_)) => 200,
        Ok(None) => 404,
        Err(_) => 500,
    }
}

/// Status mapping of the delete route: a removal publishes 204, an absent
/// identity 404 (not an error), a storage failure 500.
pub fn delete_item_by_id_status(outcome: &Result<bool, RepoError>) -> (c: u16)
    ensures
        c == match outcome {
            Ok(true) => 204u16,
            Ok(false) => 404u16,
            Err(_) => 500u16,
        },
{
    match outcome {
        Ok(true) => 204,
        Ok(false) => 404,
        Err(_) => 500,
    }
}

} // verus!
