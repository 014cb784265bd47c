//! A safety layer over a C-style, reference-counted, dynamically typed
//! virtual-machine runtime for compiled machine-learning programs, together
//! with the matching compiler front end.
//!
//! The foreign runtime itself (device drivers, code generation, execution)
//! stays outside this crate; here its object model is made safe: tagged
//! statuses become results, allocator callbacks keep their size headers,
//! element kinds are checked before any slot access, reference counts are
//! balanced, and the process-wide compiler is initialized exactly once.

pub mod allocator;
pub mod compiler;
pub mod context;
pub mod diagnostics;
pub mod error;
pub mod hal;
pub mod instance;
pub mod list;
pub mod module;
pub mod session;
pub mod source;
pub mod status;
pub mod text;
pub mod value;
pub mod vmtype;
