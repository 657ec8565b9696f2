//! Generation numbers of objects.
pub use crate::objects::metadata::Generation;
