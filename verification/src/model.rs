//! The two entities of the store, and the error type of the data
//! access layer.
//!
//! Text fields are held as UTF-8 bytes: the library states everything
//! about request bodies and responses over byte strings, and the code
//! around it converts `String` values at the boundary.

use vstd::prelude::*;

verus! {

/// A row of the `lists` table.
#[derive(Debug, Clone, PartialEq, Eq)]
pub struct List {
    /// Primary key, assigned by the database.
    pub id: i64,
    /// The list's name, as UTF-8 bytes.
    pub name: Vec<u8>,
}

/// A row of the `todos` table.
#[derive(Debug, Clone, PartialEq, Eq)]
pub struct Todo {
    /// Primary key, assigned by the database.
    pub id: i64,
    /// The todo's content, as UTF-8 bytes.
    pub text: Vec<u8>,
    /// Completion flag.
    pub checked: bool,
    /// Foreign key into the `lists` table.
    pub list_id: i64,
}

/// Any failure of the database layer: connectivity, query execution,
/// schema mismatch. The detail is for the server-side log only and is
/// never part of a response.
#[derive(Debug, Clone, PartialEq, Eq)]
pub struct DataAccessError {
    /// Driver-reported detail, as UTF-8 bytes.
    pub detail: Vec<u8>,
}

/// A finished HTTP response: the status code and the exact body bytes.
#[derive(Debug, Clone, PartialEq, Eq)]
pub struct HttpResponse {
    pub status: u16,
    pub body: Vec<u8>,
}

} // verus!
