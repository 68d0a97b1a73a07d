//! The combinator object: construction, the single-step advance algorithm,
//! and the self-iterator adapter.

use vstd::prelude::*;

use crate::model::advance_cutoff;
use crate::model::advanced_remainders;
use crate::model::all_iterable;
use crate::model::current_args;
use crate::model::lemma_cutoff_is;
use crate::model::lockstep_ready;
use crate::model::remainders;
use crate::protocol::ConstructionError;
use crate::protocol::Cursor;
use crate::protocol::Invocable;
use crate::protocol::Iterable;
use crate::protocol::StepResult;

verus! {

/// The combinator: one callable and an ordered list of cursors, fixed at
/// construction. Each step advances the cursors in stored order and applies
/// the callable to the gathered values; the sequence ends as soon as any
/// cursor, or the callable itself, signals exhaustion.
///
/// The combinator is single-pass: it has no reset or rewind operation.
#[derive(Debug)]
pub struct PyMap<C, F> {
    mapper: F,
    iterators: Vec<C>,
}

impl<C, F> PyMap<C, F> {
    /// The callable this combinator applies on each step.
    pub closed spec fn callable(&self) -> F {
        self.mapper
    }

    /// The cursors this combinator holds, in stored order.
    pub closed spec fn sources(&self) -> Seq<C> {
        self.iterators@
    }
}

/// Construct a combinator from a callable and an ordered list of iterables.
///
/// Each iterable is adapted into a cursor, strictly left to right. The
/// first value that does not support iteration aborts construction with a
/// construction error naming its position; iterables after that position
/// are never adapted and no partial combinator is returned. Zero iterables
/// is legal: the resulting combinator applies the callable to an empty
/// argument list on every step.
pub fn map_new<I: Iterable, F>(function: F, iterables: Vec<I>) -> (r: Result<
    PyMap<I::Source, F>,
    ConstructionError,
>)
    ensures
        match r {
            Ok(m) => {
                &&& all_iterable(iterables@)
                &&& m.callable() == function
                &&& m.sources().len() == iterables@.len()
                &&& remainders(m.sources()) == iterables@.map(
                    |j: int, it: I| it.initial_values(),
                )
            },
            Err(e) => {
                &&& !all_iterable(iterables@)
                &&& e.position < iterables@.len()
                &&& !iterables@[e.position as int].supports_iteration()
                &&& forall|j: int| 0 <= j < e.position ==> iterables@[j].supports_iteration()
            },
        },
{
    let ghost offered: Seq<I> = iterables@;
    let mut rest = iterables;
    let mut iterators: Vec<I::Source> = Vec::new();
    while rest.len() > 0
        invariant
            offered == iterables@,
            iterators@.len() + rest@.len() == offered.len(),
            rest@ == offered.subrange(iterators@.len() as int, offered.len() as int),
            forall|j: int|
                0 <= j < iterators@.len() ==> (#[trigger] offered[j].supports_iteration()),
            forall|j: int|
                0 <= j < iterators@.len() ==> (#[trigger] iterators@[j]).remaining()
                    == offered[j].initial_values(),
        decreases rest@.len(),
    {
        let ghost k: int = iterators@.len() as int;
        let item = rest.remove(0);
        proof {
            assert(item == offered[k]);
        }
        match item.get_iterator() {
            Ok(cursor) => {
                iterators.push(cursor);
                proof {
                    assert(rest@ =~= offered.subrange(
                        iterators@.len() as int,
                        offered.len() as int,
                    ));
                }
            },
            Err(_) => {
                let position = iterators.len();
                proof {
                    assert(!offered[k].supports_iteration());
                }
                return Err(ConstructionError { position });
            },
        }
    }
    let m = PyMap { mapper: function, iterators };
    proof {
        let target = offered.map(|j: int, it: I| it.initial_values());
        assert forall|j: int| 0 <= j < offered.len() implies remainders(m.sources())[j]
            == target[j] by {
            assert(remainders(m.sources())[j] == m.sources()[j].remaining());
            assert(m.sources()[j].remaining() == offered[j].initial_values());
        }
        assert(remainders(m.sources()) =~~= target);
    }
    Ok(m)
}

impl<C: Cursor, F: Invocable<Arg = C::Item>> PyMap<C, F> {
    /// One step of the combinator.
    ///
    /// The step requests the next value from each cursor in stored order.
    /// If a cursor reports exhaustion, the step reports exhaustion at once
    /// and the callable is not applied; cursors before the exhausted one
    /// have already been advanced in this same step and are not rolled
    /// back, while cursors after it are not touched. If every cursor
    /// produces a value, the callable is applied exactly once to the
    /// gathered argument list, and whatever it returns — a value, the
    /// exhaustion signal, or a failure — becomes the step's result,
    /// unchanged.
    pub fn next(&mut self) -> (r: StepResult<F::Out, F::Error>)
        ensures
            final(self).sources().len() == old(self).sources().len(),
            remainders(final(self).sources()) == advanced_remainders(
                remainders(old(self).sources()),
            ),
            forall|j: int|
                advance_cutoff(remainders(old(self).sources())) < j < old(self).sources().len()
                    ==> final(self).sources()[j] == old(self).sources()[j],
            lockstep_ready(remainders(old(self).sources())) ==> r == old(self).callable().outcome(
                current_args(remainders(old(self).sources())),
            ) && final(self).callable() == old(self).callable().post(
                current_args(remainders(old(self).sources())),
            ),
            !lockstep_ready(remainders(old(self).sources())) ==> r is Ended
                && final(self).callable() == old(self).callable(),
    {
        let ghost orig: Seq<C> = self.iterators@;
        let ghost orig_rems: Seq<Seq<C::Item>> = remainders(orig);
        let mut args: Vec<C::Item> = Vec::new();
        let mut idx: usize = 0;
        while idx < self.iterators.len()
            invariant
                idx <= self.iterators@.len(),
                self.iterators@.len() == orig.len(),
                self.mapper == old(self).mapper,
                orig == old(self).sources(),
                orig_rems == remainders(orig),
                forall|j: int| 0 <= j < orig.len() ==> #[trigger] orig_rems[j]
                    == orig[j].remaining(),
                args@.len() == idx,
                forall|j: int| 0 <= j < idx ==> (#[trigger] orig[j].remaining()).len() > 0,
                forall|j: int|
                    0 <= j < idx ==> (#[trigger] self.iterators@[j]).remaining()
                        == orig[j].remaining().drop_first(),
                forall|j: int| 0 <= j < idx ==> (#[trigger] args@[j]) == orig[j].remaining()[0],
                forall|j: int|
                    idx <= j < orig.len() ==> #[trigger] self.iterators@[j] == orig[j],
            decreases self.iterators@.len() - idx,
        {
            let produced = self.iterators[idx].advance();
            match produced {
                Some(value) => {
                    args.push(value);
                    idx = idx + 1;
                },
                None => {
                    proof {
                        assert(orig[idx as int].remaining().len() == 0);
                        assert forall|j: int| 0 <= j < idx implies (#[trigger] orig_rems[j]).len()
                            > 0 by {
                            assert(orig[j].remaining().len() > 0);
                        }
                        lemma_cutoff_is(orig_rems, idx as int);
                        assert(!lockstep_ready(orig_rems));
                        let stepped = advanced_remainders(orig_rems);
                        assert forall|j: int|
                            0 <= j < orig.len() implies remainders(self.iterators@)[j]
                            == stepped[j] by {
                            assert(remainders(self.iterators@)[j]
                                == self.iterators@[j].remaining());
                            if j > idx {
                                assert(self.iterators@[j] == orig[j]);
                            }
                        }
                        assert(remainders(self.iterators@) =~~= stepped);
                    }
                    return StepResult::Ended;
                },
            }
        }
        proof {
            assert forall|j: int| 0 <= j < orig.len() implies (#[trigger] orig_rems[j]).len()
                > 0 by {
                assert(orig[j].remaining().len() > 0);
            }
            lemma_cutoff_is(orig_rems, orig.len() as int);
            assert(lockstep_ready(orig_rems));
            assert forall|j: int| 0 <= j < orig.len() implies (#[trigger] args@[j])
                == current_args(orig_rems)[j] by {
                assert(args@[j] == orig[j].remaining()[0]);
            }
            assert(args@ =~= current_args(orig_rems));
        }
        let r = self.mapper.call(args);
        proof {
            let stepped = advanced_remainders(orig_rems);
            assert forall|j: int| 0 <= j < orig.len() implies remainders(self.iterators@)[j]
                == stepped[j] by {
                assert(remainders(self.iterators@)[j] == self.iterators@[j].remaining());
                assert(self.iterators@[j].remaining() == orig[j].remaining().drop_first());
            }
            assert(remainders(self.iterators@) =~~= stepped);
        }
        r
    }

    /// The self-iterator adapter: asked for its iterator handle, the
    /// combinator returns its own identity. Progress already made is kept;
    /// nothing is reset or duplicated.
    pub fn iter(self) -> (r: Self)
        ensures
            r == self,
    {
        self
    }
}

} // verus!

