//! Bookkeeping for compiling shader crates to SPIR-V modules and reloading them
//! when their sources change: the store of output handles, the table of watched
//! sources, and the decisions a loader makes around each compile.

pub mod paths;
pub mod store;
pub mod registry;
pub mod loader;
