//! Typed descriptions of SQL work (filters, statements and table schemas)
//! that a sandboxed guest builds and hands to a host as framed bytes.

pub mod value;
pub mod filter;
pub mod error;
pub mod registry;
pub mod schema;
pub mod catalog;
pub mod compose;
pub mod statement;
pub mod codec;
pub mod rows;
