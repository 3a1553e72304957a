//! The CBE (Cool Bar Engine) container format: archives and their resources.
pub mod actor;
pub mod archive;
pub mod map;
pub mod resource;
pub mod sce;

pub use resource::{ResourceEntry, ResourceType};
