//! A local-first workspace/app/view folder core.
//!
//! The store serves reads synchronously from local state; a background
//! reconciliation merges remote revisions into the store without blocking
//! readers, and a notification bus tells observers when merged state changed.

pub mod bus;
pub mod controller;
pub mod defaults;
pub mod entities;
pub mod errors;
pub mod ids;
pub mod keyed;
pub mod laws;
pub mod reads;
pub mod reconciler;
pub mod store;
pub mod trash;

pub use errors::FolderError;
