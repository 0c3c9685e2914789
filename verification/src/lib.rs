//! Resolve module specifiers the way a CommonJS-style `require()` does,
//! against an explicit snapshot of the relevant filesystem state.
//!
//! The resolution algorithm itself — specifier classification, the
//! file/extension/index/manifest cascade, the ancestor walk through
//! dependency-package folders, and path normalization — is verified: every
//! public entry point carries a contract that pins its result to a
//! mathematical description of the algorithm.

pub mod builtins;
pub mod fs;
pub mod laws;
pub mod manifest;
pub mod paths;
pub mod resolver;

pub use builtins::is_core_module;
pub use fs::Fs;
pub use fs::FsFile;
pub use paths::normalize_path;
pub use resolver::resolve;
pub use resolver::resolve_from;
pub use resolver::Error;
pub use resolver::IoErrorKind;
pub use resolver::ResolutionError;
pub use resolver::Resolver;
