//! A verified process-creation path: loading an executable image into
//! freshly allocated physical memory, validating its entry point, building
//! the initial argument layout, and publishing the new execution context to
//! the scheduler's run set under a critical section.

pub mod context;
pub mod image;
pub mod laws;
pub mod loader;
pub mod memory;
pub mod sched;
