//! A lazy, multi-source mapping combinator.
//!
//! The combinator composes a callable and an ordered list of cursors into a
//! lazily evaluated sequence: each step advances every cursor in order,
//! gathers the values into an argument list, and applies the callable once.
//! The sequence ends as soon as any cursor — or the callable itself —
//! signals exhaustion.

pub mod adapters;
pub mod combinator;
pub mod model;
pub mod protocol;
pub mod registry;
