//! Column type inference and schema construction for spreadsheet ranges.
//!
//! Every cell of a column is classified into a [`types::DType`], the
//! observed types are combined through a fixed promotion lattice, and the
//! resulting columns are collected into an ordered schema whose field names
//! are unique.

pub mod types;
pub mod source;
pub mod classify;
pub mod resolve;
pub mod selection;
pub mod overrides;
pub mod alias;
pub mod schema;
