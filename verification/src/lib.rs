//! A read-only todo service: two tables (lists, todos), two queries,
//! JSON responses. The query semantics, the JSON wire format, the
//! request routing and the error mapping are all verified; the HTTP
//! listener and the database driver live outside the library and hand
//! it plain values.

pub mod json;
pub mod model;
pub mod router;
pub mod service;
pub mod store;
