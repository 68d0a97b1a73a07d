//! The mathematical model of the combinator's step operation, and the laws
//! that hold of it.
//!
//! A list of cursors is modelled by the sequence of their remaining value
//! sequences. One step advances every cursor in stored order up to and
//! including the first exhausted one; cursors after that point are not
//! touched, and cursors before it are not rolled back.

use vstd::prelude::*;

use crate::protocol::Cursor;
use crate::protocol::Iterable;

verus! {

/// The remaining value sequences of a list of cursors, in stored order.
pub open spec fn remainders<C: Cursor>(cs: Seq<C>) -> Seq<Seq<C::Item>> {
    cs.map(|j: int, c: C| c.remaining())
}

/// Whether every source still holds a next value. Vacuously true of an
/// empty source list: with zero sources a step always reaches the mapper.
pub open spec fn lockstep_ready<V>(rems: Seq<Seq<V>>) -> bool {
    forall|j: int| 0 <= j < rems.len() ==> rems[j].len() > 0
}

/// The argument list one step gathers when every source is ready: the
/// first remaining value of each source, in stored order.
pub open spec fn current_args<V>(rems: Seq<Seq<V>>) -> Seq<V> {
    Seq::new(rems.len(), |j: int| rems[j][0])
}

/// How many sources one step advances: every source strictly before the
/// first exhausted one, or all of them when none is exhausted. The first
/// exhausted source is itself advanced too, but advancing an exhausted
/// source leaves its remaining values (none) unchanged.
pub open spec fn advance_cutoff<V>(rems: Seq<Seq<V>>) -> int
    decreases rems.len(),
{
    if rems.len() == 0 {
        0
    } else if rems[0].len() == 0 {
        0
    } else {
        1 + advance_cutoff(rems.drop_first())
    }
}

/// The remaining value sequences after one step: sources before the cutoff
/// lose their first value, sources from the cutoff on keep theirs.
pub open spec fn advanced_remainders<V>(rems: Seq<Seq<V>>) -> Seq<Seq<V>> {
    Seq::new(
        rems.len(),
        |j: int|
            if j < advance_cutoff(rems) {
                rems[j].drop_first()
            } else {
                rems[j]
            },
    )
}

/// The remaining value sequences after `n` steps.
pub open spec fn remainders_after<V>(rems: Seq<Seq<V>>, n: nat) -> Seq<Seq<V>>
    decreases n,
{
    if n == 0 {
        rems
    } else {
        advanced_remainders(remainders_after(rems, (n - 1) as nat))
    }
}

/// The length of the shortest source: how many values each source can
/// still contribute in lockstep.
pub open spec fn shortest_len<V>(rems: Seq<Seq<V>>) -> nat
    decreases rems.len(),
{
    if rems.len() == 0 {
        0
    } else if rems.len() == 1 {
        rems[0].len()
    } else if rems[0].len() <= shortest_len(rems.drop_first()) {
        rems[0].len()
    } else {
        shortest_len(rems.drop_first())
    }
}

/// Whether every value in the sequence supports iteration.
pub open spec fn all_iterable<I: Iterable>(s: Seq<I>) -> bool {
    forall|j: int| 0 <= j < s.len() ==> s[j].supports_iteration()
}

/// The cutoff lies between 0 and the number of sources; it equals the
/// number of sources exactly when every source is ready; every source
/// before it is ready; and when it falls short, it points at an exhausted
/// source.
pub proof fn lemma_cutoff_bounds<V>(rems: Seq<Seq<V>>)
    ensures
        0 <= advance_cutoff(rems) <= rems.len(),
        advance_cutoff(rems) == rems.len() <==> lockstep_ready(rems),
        forall|j: int| 0 <= j < advance_cutoff(rems) ==> rems[j].len() > 0,
        advance_cutoff(rems) < rems.len() ==> rems[advance_cutoff(rems)].len() == 0,
    decreases rems.len(),
{
    if rems.len() == 0 {
        assert(lockstep_ready(rems));
    } else if rems[0].len() == 0 {
        assert(!lockstep_ready(rems));
    } else {
        let tail = rems.drop_first();
        lemma_cutoff_bounds(tail);
        assert forall|j: int| 0 <= j < advance_cutoff(rems) implies rems[j].len() > 0 by {
            if j > 0 {
                assert(rems[j] == tail[j - 1]);
            }
        }
        if lockstep_ready(tail) {
            assert forall|j: int| 0 <= j < rems.len() implies rems[j].len() > 0 by {
                if j > 0 {
                    assert(tail[j - 1].len() > 0);
                    assert(rems[j] == tail[j - 1]);
                }
            }
        }
        if lockstep_ready(rems) {
            assert forall|j: int| 0 <= j < tail.len() implies tail[j].len() > 0 by {
                assert(rems[j + 1].len() > 0);
                assert(tail[j] == rems[j + 1]);
            }
        }
        if advance_cutoff(rems) < rems.len() {
            assert(rems[advance_cutoff(rems)] == tail[advance_cutoff(tail)]);
        }
    }
}

/// A nonempty source list is ready exactly when its shortest source still
/// holds a value.
pub proof fn lemma_ready_iff_shortest_positive<V>(rems: Seq<Seq<V>>)
    requires
        rems.len() > 0,
    ensures
        lockstep_ready(rems) <==> shortest_len(rems) > 0,
    decreases rems.len(),
{
    if rems.len() == 1 {
        if rems[0].len() > 0 {
            assert(lockstep_ready(rems)) by {
                assert forall|j: int| 0 <= j < rems.len() implies rems[j].len() > 0 by {
                    assert(j == 0);
                }
            }
        }
    } else {
        let tail = rems.drop_first();
        lemma_ready_iff_shortest_positive(tail);
        if rems[0].len() > 0 && lockstep_ready(tail) {
            assert forall|j: int| 0 <= j < rems.len() implies rems[j].len() > 0 by {
                if j > 0 {
                    assert(tail[j - 1].len() > 0);
                    assert(tail[j - 1] == rems[j]);
                }
            }
        }
        if lockstep_ready(rems) {
            assert forall|j: int| 0 <= j < tail.len() implies tail[j].len() > 0 by {
                assert(rems[j + 1].len() > 0);
                assert(tail[j] == rems[j + 1]);
            }
        }
    }
}

/// One step on a ready source list shortens the shortest source by exactly
/// one: every source loses exactly its first value.
pub proof fn lemma_ready_step_shortens<V>(rems: Seq<Seq<V>>)
    requires
        rems.len() > 0,
        lockstep_ready(rems),
    ensures
        advanced_remainders(rems).len() == rems.len(),
        shortest_len(advanced_remainders(rems)) == shortest_len(rems) - 1,
    decreases rems.len(),
{
    lemma_cutoff_bounds(rems);
    let stepped = advanced_remainders(rems);
    assert(stepped[0] == rems[0].drop_first());
    if rems.len() == 1 {
        assert(shortest_len(stepped) == stepped[0].len());
    } else {
        let tail = rems.drop_first();
        assert forall|j: int| 0 <= j < tail.len() implies tail[j].len() > 0 by {
            assert(rems[j + 1].len() > 0);
            assert(tail[j] == rems[j + 1]);
        }
        lemma_ready_iff_shortest_positive(tail);
        lemma_ready_step_shortens(tail);
        lemma_cutoff_bounds(tail);
        assert forall|j: int| 0 <= j < tail.len() implies stepped.drop_first()[j]
            == advanced_remainders(tail)[j] by {
            assert(stepped.drop_first()[j] == stepped[j + 1]);
            assert(stepped[j + 1] == rems[j + 1].drop_first());
            assert(tail[j] == rems[j + 1]);
        }
        assert(stepped.drop_first() =~~= advanced_remainders(tail));
    }
}

/// With at least one source, the combinator has lockstep values for
/// exactly the length of its shortest source: each of the first
/// `shortest_len` steps finds every source ready, so the mapper is applied,
/// and the step after that finds a source exhausted, so the step reports
/// exhaustion without applying the mapper — whichever source is shortest.
pub proof fn lemma_yields_shortest_source_length<V>(rems: Seq<Seq<V>>, n: nat)
    requires
        rems.len() > 0,
        n <= shortest_len(rems),
    ensures
        remainders_after(rems, n).len() == rems.len(),
        shortest_len(remainders_after(rems, n)) == shortest_len(rems) - n,
        n < shortest_len(rems) ==> lockstep_ready(remainders_after(rems, n)),
        n == shortest_len(rems) ==> !lockstep_ready(remainders_after(rems, n)),
    decreases n,
{
    if n == 0 {
        lemma_ready_iff_shortest_positive(rems);
    } else {
        lemma_yields_shortest_source_length(rems, (n - 1) as nat);
        let prev = remainders_after(rems, (n - 1) as nat);
        lemma_ready_iff_shortest_positive(prev);
        lemma_ready_step_shortens(prev);
        lemma_ready_iff_shortest_positive(remainders_after(rems, n));
    }
}

/// With zero sources, every step finds the (empty) source list ready and
/// gathers an empty argument list for the mapper: the sequence never ends
/// on the sources' account, however many steps are taken.
pub proof fn lemma_zero_sources_never_exhaust<V>(rems: Seq<Seq<V>>, n: nat)
    requires
        rems.len() == 0,
    ensures
        remainders_after(rems, n).len() == 0,
        lockstep_ready(remainders_after(rems, n)),
        current_args(remainders_after(rems, n)) == Seq::<V>::empty(),
    decreases n,
{
    if n == 0 {
        assert(current_args(rems) =~= Seq::<V>::empty());
    } else {
        lemma_zero_sources_never_exhaust(rems, (n - 1) as nat);
        let prev = remainders_after(rems, (n - 1) as nat);
        assert(advanced_remainders(prev) =~~= prev);
        assert(current_args(remainders_after(rems, n)) =~= Seq::<V>::empty());
    }
}

/// Once a step has found a source exhausted, every following step finds a
/// source exhausted as well: a source-driven end never silently resumes
/// producing values. (An exhausted source keeps reporting exhaustion, and
/// no step refills it.)
pub proof fn lemma_exhaustion_is_sticky<V>(rems: Seq<Seq<V>>)
    requires
        !lockstep_ready(rems),
    ensures
        !lockstep_ready(advanced_remainders(rems)),
{
    lemma_cutoff_bounds(rems);
    let k = advance_cutoff(rems);
    assert(advanced_remainders(rems)[k] == rems[k]);
    assert(advanced_remainders(rems)[k].len() == 0);
}

/// The step after an exhausted step is exhausted too, and so on: however
/// many further steps are taken, a source stays exhausted.
pub proof fn lemma_exhaustion_stays<V>(rems: Seq<Seq<V>>, n: nat)
    requires
        !lockstep_ready(rems),
    ensures
        !lockstep_ready(remainders_after(rems, n)),
    decreases n,
{
    if n > 0 {
        lemma_exhaustion_stays(rems, (n - 1) as nat);
        lemma_exhaustion_is_sticky(remainders_after(rems, (n - 1) as nat));
    }
}

/// The cutoff is the one index below which every source is ready and at
/// which (if it falls short of the source count) a source is exhausted.
pub proof fn lemma_cutoff_is<V>(rems: Seq<Seq<V>>, k: int)
    requires
        0 <= k <= rems.len(),
        forall|j: int| 0 <= j < k ==> rems[j].len() > 0,
        k < rems.len() ==> rems[k].len() == 0,
    ensures
        advance_cutoff(rems) == k,
    decreases rems.len(),
{
    if rems.len() == 0 {
    } else if k == 0 {
    } else {
        let tail = rems.drop_first();
        assert forall|j: int| 0 <= j < k - 1 implies tail[j].len() > 0 by {
            assert(tail[j] == rems[j + 1]);
        }
        if k - 1 < tail.len() {
            assert(tail[k - 1] == rems[k]);
        }
        lemma_cutoff_is(tail, k - 1);
    }
}

} // verus!
