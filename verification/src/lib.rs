//! A minimal build orchestrator's verified core.
//!
//! Given a typed project configuration and a source tree, this library plans
//! and accounts for a whole build: it mirrors the source tree under an
//! intermediate-output root and yields one compile job per regular file
//! ([`walk`]), constructs every compiler and linker invocation with a
//! deterministic, shared flag order ([`command`]), aggregates the outcome of
//! every job without ever discarding a sibling's result, and maps the
//! terminal state to a process exit code ([`outcome`]). Reading the
//! configuration document, spawning the toolchain processes and printing
//! progress are left to the surrounding program; everything it must decide,
//! it decides by calling in here.

pub mod command;
pub mod config;
pub mod outcome;
pub mod walk;
