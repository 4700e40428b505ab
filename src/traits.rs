//! The traits that a type implements to take part in a class hierarchy.

use vstd::prelude::*;
use crate::registry::ClassInfo;

verus! {

/// A type with class identity: it can describe itself with a class record.
pub trait Class: Sized {
    /// The class record of this type.
    fn class_info() -> ClassInfo;
}

/// A class that embeds its parent class `T` as a field, and gives access to
/// it. The projection always succeeds: the parent is part of the child.
pub trait Inherits<T: Class>: Class {
    /// The embedded parent.
    fn as_parent(&self) -> &T;

    /// The embedded parent, for change.
    fn as_parent_mut(&mut self) -> &mut T;
}

} // verus!
