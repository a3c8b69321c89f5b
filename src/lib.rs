//! A registry of local source-code repositories: race-free registration by
//! path, partial updates with three-state script fields, the startup repair
//! of records that still carry the migration placeholder name, and the removal
//! of records that no project or workspace refers to.
pub mod ident;
pub mod naming;
pub mod record;
pub mod model;
pub mod store;
pub mod api;
pub mod laws;
