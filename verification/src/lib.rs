//! Micro-benchmark library for comparing layout strategies for dynamically
//! dispatched values.
//!
//! A collection of polymorphic objects can be laid out in several ways: each
//! element as an independent allocation referenced by a two-word (fat) handle,
//! all elements sharing one allocation, or each element as a single block
//! whose first word is the dispatch-table reference (reached through a
//! one-word thin handle). This crate models those layouts over an explicit
//! word-addressed heap, proves that every traversal recovers the right value
//! through the stored dispatch table, and proves that teardown releases every
//! allocation exactly once.

pub mod bench;
pub mod clock;
pub mod handles;
pub mod heap;
pub mod layouts;
pub mod sched;
pub mod values;
