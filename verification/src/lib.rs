//! Service bindings: named sets of key/value entries that a platform projects
//! into a workload, with the rules for looking entries up and for selecting
//! bindings by name, type and provider.

pub mod binding;
pub mod bindings;
pub mod path;
pub mod secret;
pub mod text;
