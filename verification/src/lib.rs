//! Module resolution and debug-artifact bookkeeping for a stack-trace
//! symbolication pipeline.
//!
//! A [`lookup::ModuleLookup`] is built once per symbolication request from a
//! flat list of module descriptors.  It keeps the modules sorted by image
//! address for range resolution, infers missing image sizes from the address
//! gaps between neighbours, resolves instruction addresses to modules under
//! absolute and module-relative addressing, drives two batched fetch phases
//! (symbol caches, then debug sources) for the modules that the given stack
//! traces actually reference, and extracts windows of source context lines
//! through debug sessions opened over fetched source objects.

pub mod context;
pub mod fetch;
pub mod lookup;
pub mod resolve;
pub mod source;
pub mod types;
