//! The status of an object in the cross-reference table.
pub use crate::objects::metadata::ObjectStatus;
