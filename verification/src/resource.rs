//! Resources: objects that content streams refer to by name (fonts, images, patterns,
//! graphics states).
use vstd::prelude::*;
use crate::resource_category::ResourceCategory;

verus! {

/// A resource that can be embedded in a document and referred to from content streams once
/// it is registered in a resource dictionary.
pub trait Resource {
    /// The category under which the resource is registered.
    fn category(&self) -> ResourceCategory;

    /// A text that tells this resource apart from others of its category.
    fn resource_unique_id(&self) -> String;

    /// The name to use in content streams, if the resource suggests one; otherwise a name is
    /// made up when it is registered.
    fn suggested_name(&self) -> (n: Option<String>)
        ensures
            n is None,
    {
        None
    }
}

} // verus!
