//! Concrete sources and callables for the combinator.
//!
//! A [`VecCursor`] walks a vector of values front to back; a [`HostValue`]
//! models an arbitrary host value, which either carries elements and
//! supports iteration or is a bare scalar and does not; [`SumMapper`] and
//! [`CountdownMapper`] are callables exercising the three call outcomes:
//! a produced value, a genuine failure, and voluntary exhaustion.

use vstd::prelude::*;

use crate::protocol::Cursor;
use crate::protocol::Invocable;
use crate::protocol::Iterable;
use crate::protocol::NotIterable;
use crate::protocol::StepResult;

verus! {

/// A cursor over a vector of values, yielding them front to back.
#[derive(Debug)]
pub struct VecCursor<V> {
    items: Vec<V>,
}

impl<V> VecCursor<V> {
    /// A cursor that will yield the given values in order.
    pub fn new(items: Vec<V>) -> (r: Self)
        ensures
            r.remaining() == items@,
    {
        VecCursor { items }
    }
}

impl<V> Cursor for VecCursor<V> {
    type Item = V;

    closed spec fn remaining(&self) -> Seq<V> {
        self.items@
    }

    fn advance(&mut self) -> (r: Option<V>) {
        if self.items.len() == 0 {
            None
        } else {
            let value = self.items.remove(0);
            proof {
                assert(self.items@ =~= old(self).items@.drop_first());
            }
            Some(value)
        }
    }
}

/// An arbitrary host value offered to the combinator as a source: either a
/// list of elements, which supports iteration, or a bare scalar, which does
/// not.
#[derive(Debug)]
pub enum HostValue<V> {
    Elements(Vec<V>),
    Scalar,
}

impl<V> Iterable for HostValue<V> {
    type Source = VecCursor<V>;

    open spec fn supports_iteration(&self) -> bool {
        self is Elements
    }

    open spec fn initial_values(&self) -> Seq<V> {
        self->Elements_0@
    }

    fn get_iterator(self) -> (r: Result<VecCursor<V>, NotIterable>) {
        match self {
            HostValue::Elements(items) => Ok(VecCursor { items }),
            HostValue::Scalar => Err(NotIterable),
        }
    }
}

/// The sum of a sequence of values.
pub open spec fn seq_sum(s: Seq<u64>) -> int
    decreases s.len(),
{
    if s.len() == 0 {
        0
    } else {
        s[0] + seq_sum(s.drop_first())
    }
}

/// A sequence sum is the sum of its two halves.
pub proof fn lemma_seq_sum_concat(a: Seq<u64>, b: Seq<u64>)
    ensures
        seq_sum(a + b) == seq_sum(a) + seq_sum(b),
    decreases a.len(),
{
    if a.len() == 0 {
        assert(a + b =~= b);
    } else {
        lemma_seq_sum_concat(a.drop_first(), b);
        assert((a + b).drop_first() =~= a.drop_first() + b);
    }
}

/// A sum of unsigned values is never negative.
pub proof fn lemma_seq_sum_nonneg(s: Seq<u64>)
    ensures
        seq_sum(s) >= 0,
    decreases s.len(),
{
    if s.len() > 0 {
        lemma_seq_sum_nonneg(s.drop_first());
    }
}

/// Failure reported by [`SumMapper`] when the sum of its arguments does
/// not fit the value type.
#[derive(Debug, Clone, Copy, PartialEq, Eq)]
pub struct SumOverflow;

/// A stateless callable: the sum of its arguments, or a failure when the
/// sum does not fit. With an empty argument list it produces zero.
#[derive(Debug)]
pub struct SumMapper;

impl Invocable for SumMapper {
    type Arg = u64;

    type Out = u64;

    type Error = SumOverflow;

    open spec fn outcome(&self, args: Seq<u64>) -> StepResult<u64, SumOverflow> {
        if seq_sum(args) <= u64::MAX {
            StepResult::Produced(seq_sum(args) as u64)
        } else {
            StepResult::Failed(SumOverflow)
        }
    }

    open spec fn post(&self, args: Seq<u64>) -> Self {
        *self
    }

    fn call(&mut self, args: Vec<u64>) -> (r: StepResult<u64, SumOverflow>) {
        let mut acc: u64 = 0;
        let mut i: usize = 0;
        while i < args.len()
            invariant
                i <= args@.len(),
                acc == seq_sum(args@.take(i as int)),
            decreases args@.len() - i,
        {
            proof {
                assert(args@.take(i + 1) =~= args@.take(i as int) + seq![args@[i as int]]);
                lemma_seq_sum_concat(args@.take(i as int), seq![args@[i as int]]);
                assert(seq_sum(seq![args@[i as int]]) == args@[i as int]) by {
                    let one = seq![args@[i as int]];
                    assert(one[0] == args@[i as int]);
                    assert(one.drop_first() =~= Seq::<u64>::empty());
                    assert(seq_sum(Seq::<u64>::empty()) == 0);
                }
            }
            match acc.checked_add(args[i]) {
                Some(total) => {
                    acc = total;
                    i = i + 1;
                },
                None => {
                    proof {
                        assert(args@ =~= args@.take(i + 1) + args@.skip(i + 1));
                        lemma_seq_sum_concat(args@.take(i + 1), args@.skip(i + 1));
                        lemma_seq_sum_nonneg(args@.skip(i + 1));
                    }
                    return StepResult::Failed(SumOverflow);
                },
            }
        }
        proof {
            assert(args@.take(args@.len() as int) =~= args@);
        }
        StepResult::Produced(acc)
    }
}

/// Failure type of callables that never fail: no value of it is ever
/// returned.
#[derive(Debug, Clone, Copy, PartialEq, Eq)]
pub struct NeverFails;

/// A stateful callable that voluntarily ends the sequence: it produces its
/// own countdown value, ignoring its arguments, and signals exhaustion on
/// the call after the countdown reaches zero.
#[derive(Debug)]
pub struct CountdownMapper {
    pub calls_left: u64,
}

impl Invocable for CountdownMapper {
    type Arg = u64;

    type Out = u64;

    type Error = NeverFails;

    open spec fn outcome(&self, args: Seq<u64>) -> StepResult<u64, NeverFails> {
        if self.calls_left == 0 {
            StepResult::Ended
        } else {
            StepResult::Produced(self.calls_left)
        }
    }

    open spec fn post(&self, args: Seq<u64>) -> Self {
        if self.calls_left == 0 {
            *self
        } else {
            CountdownMapper { calls_left: (self.calls_left - 1) as u64 }
        }
    }

    fn call(&mut self, args: Vec<u64>) -> (r: StepResult<u64, NeverFails>) {
        if self.calls_left == 0 {
            StepResult::Ended
        } else {
            let produced = self.calls_left;
            self.calls_left = produced - 1;
            StepResult::Produced(produced)
        }
    }
}

} // verus!
