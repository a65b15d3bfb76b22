//! Backend logic of the Workflowy desktop shell: bookmark storage and its
//! schema migration, installation of the bundled helper server, and the
//! validation of an API key against the Workflowy service.

pub mod credential;
pub mod order;
pub mod paths;
pub mod provision;
pub mod schema;
pub mod store;
