//! Content-addressed build caching and lifecycle reconciliation for named
//! development containers: a stable identity hash over each declarative
//! container definition, a persisted lock store that decides when a rebuild
//! is due, deterministic build-artifact rendering, and the state machine that
//! maps an engine's observed container state to the next action. Everything
//! here is pure computation over plain values; files, environment variables
//! and engine processes are handled by callers.
pub mod codec;
pub mod config;
pub mod digest;
pub mod dockerfile;
pub mod engine;
pub mod errors;
pub mod invocation;
pub mod laws;
pub mod lifecycle;
pub mod locate;
pub mod lockfile;
pub mod planner;
pub mod runargs;
pub mod simplelock;
pub mod strutil;
