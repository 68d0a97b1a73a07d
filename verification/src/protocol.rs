//! The capability interfaces the combinator consumes, and the tagged result
//! type its step operation produces.
//!
//! The combinator is polymorphic over two narrow capabilities rather than
//! over concrete value types: a [`Cursor`] yields values one at a time until
//! it is exhausted, and an [`Invocable`] can be called with an ordered
//! argument list. An [`Iterable`] is any value that can be adapted into a
//! cursor, which may fail for values lacking the iteration capability.

use vstd::prelude::*;

verus! {

/// The outcome of one step of the combinator, or of one call of an
/// invocable: a produced value, voluntary exhaustion, or a genuine failure.
///
/// Exhaustion is a control signal, not an error: it means "no further
/// values" and must not be confused with `Failed`.
#[derive(Debug, PartialEq, Eq)]
pub enum StepResult<V, E> {
    Produced(V),
    Ended,
    Failed(E),
}

/// Error: a value offered as a source does not support iteration.
#[derive(Debug, Clone, Copy, PartialEq, Eq)]
pub struct NotIterable;

/// Error reported when the combinator cannot be constructed because the
/// iterable at `position` (0-indexed, left to right) does not support
/// iteration.
#[derive(Debug, Clone, Copy, PartialEq, Eq)]
pub struct ConstructionError {
    pub position: usize,
}

/// A stateful cursor over a sequence of values, advanced one value at a
/// time. The ghost `remaining` sequence is the cursor's model: the values
/// it will still yield, in order.
pub trait Cursor: Sized {
    type Item;

    /// The values this cursor will still yield, in order.
    spec fn remaining(&self) -> Seq<Self::Item>;

    /// Yield the next value, or report exhaustion with `None`.
    ///
    /// An exhausted cursor stays exhausted: advancing it again reports
    /// exhaustion again and yields no value.
    fn advance(&mut self) -> (r: Option<Self::Item>)
        ensures
            old(self).remaining().len() == 0 ==> r is None
                && final(self).remaining() == old(self).remaining(),
            old(self).remaining().len() > 0 ==> r == Some(old(self).remaining()[0])
                && final(self).remaining() == old(self).remaining().drop_first(),
    ;
}

/// A value supporting a generic call operation over an ordered argument
/// list. A call may produce a value, voluntarily signal exhaustion, or
/// fail; it may also update the callable's own state.
pub trait Invocable: Sized {
    type Arg;

    type Out;

    type Error;

    /// What a call on the given argument list returns.
    spec fn outcome(&self, args: Seq<Self::Arg>) -> StepResult<Self::Out, Self::Error>;

    /// The callable's state after a call on the given argument list.
    spec fn post(&self, args: Seq<Self::Arg>) -> Self;

    /// Call the value with an ordered argument list.
    fn call(&mut self, args: Vec<Self::Arg>) -> (r: StepResult<Self::Out, Self::Error>)
        ensures
            r == old(self).outcome(args@),
            *final(self) == old(self).post(args@),
    ;
}

/// A value offering the capability to produce a cursor. Adapting a value
/// may fail: not every value supports iteration.
pub trait Iterable: Sized {
    type Source: Cursor;

    /// Whether this value offers the iteration capability.
    spec fn supports_iteration(&self) -> bool;

    /// The values a fresh cursor over this value will yield, in order,
    /// when the value supports iteration.
    spec fn initial_values(&self) -> Seq<<Self::Source as Cursor>::Item>;

    /// Adapt the value into a cursor, consuming it.
    fn get_iterator(self) -> (r: Result<Self::Source, NotIterable>)
        ensures
            self.supports_iteration() ==> r is Ok && r->Ok_0.remaining()
                == self.initial_values(),
            !self.supports_iteration() ==> r is Err,
    ;
}

} // verus!
