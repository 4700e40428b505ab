//! Runtime class hierarchies: class records, a registry of them, ancestry
//! queries, a tagged value container with checked downcasts, and name-based
//! field reflection.

pub mod error;
pub mod identity;
pub mod reflection;
pub mod registry;
pub mod table;
pub mod traits;
pub mod value;

pub use crate::error::DynastyError;
pub use crate::identity::identity_of;
pub use crate::reflection::{FieldInfo, MethodInfo, Reflect, ReflectionData};
pub use crate::registry::{ClassInfo, Registry};
pub use crate::traits::{Class, Inherits};
pub use crate::value::{Downcast, Erasable, SafeDowncast, Value, ValueKind};
