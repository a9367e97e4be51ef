//! Runs programs under valgrind's memcheck tool and turns its structured
//! report into typed records.
//!
//! The report arrives as a document of elements ([`decode`]); its rules are
//! checked as it becomes the typed model of [`xml`], whose findings are then
//! sorted into leaks and other errors ([`classify`]). The decisions of a run
//! (valgrind's flags, and what a run yields once the process has ended) are
//! in [`valgrind`]; finding the runnable targets of a crate and building
//! them is in [`metadata`], [`target`] and [`cargo`].
pub mod cargo;
pub mod cargo_config;
pub mod classify;
pub mod decode;
pub mod driver;
pub mod hex;
pub mod metadata;
pub mod target;
pub mod text;
pub mod valgrind;
pub mod xml;

pub use cargo::Cargo;
pub use classify::{Function, Leak};
pub use metadata::binaries_from;
pub use target::{Build, Target};
pub use xml::Kind;
