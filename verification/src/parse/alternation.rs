//! One of several forms: the forms are tried in their declared order, the
//! first that can be read wins, and where none can, the failure that got
//! furthest is reported.

use crate::parse::outcome::{fulfils, Failure, Outcome, ParseStreamError};
use crate::parse::stream::{ParseStream, StreamState};
use vstd::prelude::*;

verus! {

broadcast use {
    crate::parse::stream::lemma_precedes_chain,
    crate::parse::stream::lemma_precedes_self,
};

/// Of two failures the one that got further; where both got equally far,
/// the later one.
pub open spec fn deeper_of(earlier: Failure, later: Failure) -> Failure {
    if later.depth >= earlier.depth {
        later
    } else {
        earlier
    }
}

/// The failure of greatest depth among `failures`, which must not be empty;
/// among several of that depth, the last.
pub open spec fn deepest(failures: Seq<Failure>) -> Failure
    recommends
        failures.len() > 0,
    decreases failures.len(),
{
    if failures.len() <= 1 {
        failures[0]
    } else {
        deeper_of(deepest(failures.drop_last()), failures.last())
    }
}

/// The place of [`deepest`] in `failures`.
pub open spec fn deepest_index(failures: Seq<Failure>) -> int
    recommends
        failures.len() > 0,
    decreases failures.len(),
{
    if failures.len() <= 1 {
        0
    } else if failures.last().depth >= deepest(failures.drop_last()).depth {
        failures.len() - 1
    } else {
        deepest_index(failures.drop_last())
    }
}

/// The failure reported is one of those collected; none of them got
/// further, and none after it got as far.
pub proof fn lemma_deepest(failures: Seq<Failure>)
    requires
        failures.len() > 0,
    ensures
        0 <= deepest_index(failures) < failures.len(),
        deepest(failures) == failures[deepest_index(failures)],
        forall|i: int| 0 <= i < failures.len() ==> (#[trigger] failures[i]).depth <= deepest(failures).depth,
        forall|i: int|
            deepest_index(failures) < i < failures.len() ==> (#[trigger] failures[i]).depth
                < deepest(failures).depth,
    decreases failures.len(),
{
    if failures.len() > 1 {
        let front = failures.drop_last();
        lemma_deepest(front);
        assert forall|i: int| 0 <= i < failures.len() implies (#[trigger] failures[i]).depth
            <= deepest(failures).depth by {
            if i < front.len() {
                assert(failures[i] == front[i]);
            }
        }
        assert forall|i: int| deepest_index(failures) < i < failures.len() implies (
        #[trigger] failures[i]).depth < deepest(failures).depth by {
            if i < front.len() {
                assert(failures[i] == front[i]);
            }
        }
    }
}

/// The failures in `errors`, as mathematical values.
pub open spec fn failures_of(errors: Seq<ParseStreamError>) -> Seq<Failure> {
    errors.map_values(|error: ParseStreamError| error@)
}

/// Picks, among the failures of the forms that were tried, the one to
/// report: the one of greatest depth, and of several the last.
pub fn deepest_failure(failures: Vec<ParseStreamError>) -> (r: ParseStreamError)
    requires
        failures@.len() > 0,
    ensures
        r@ == deepest(failures_of(failures@)),
{
    let mut failures = failures;
    let ghost all = failures_of(failures@);
    let mut best: usize = 0;
    let mut i: usize = 1;
    while i < failures.len()
        invariant
            1 <= i <= failures@.len(),
            all == failures_of(failures@),
            best < i,
            all[best as int] == deepest(all.take(i as int)),
        decreases failures@.len() - i,
    {
        proof {
            assert(all.take(i + 1).drop_last() =~= all.take(i as int));
        }
        if failures[i].parsing_depth.0 >= failures[best].parsing_depth.0 {
            best = i;
        }
        i = i + 1;
    }
    assert(all.take(i as int) =~= all);
    failures.swap_remove(best)
}

/// A type whose values come in several forms, each with a parser of its
/// own. The forms are numbered from 0 in the order in which they are tried.
pub trait Alternatives: Sized + DeepView {
    /// The number of forms.
    spec fn count() -> nat;

    /// What reading form `index` from `pre` comes to.
    spec fn variant_spec(index: nat, pre: StreamState) -> Outcome<Self::V>;

    /// Reading a form only moves forward.
    proof fn lemma_variant_spec(index: nat, pre: StreamState)
        requires
            index < Self::count(),
            pre.wf(),
        ensures
            Self::variant_spec(index, pre).sound_from(pre),
    ;

    /// The number of forms; there is one at least.
    fn variants() -> (n: usize)
        ensures
            n == Self::count(),
            n >= 1,
    ;

    /// Reads a value of form `index`. Of the stream that a failed attempt
    /// leaves behind nothing is asked.
    fn variant(index: usize, stream: &mut ParseStream<'_>) -> (r: Result<Self, ParseStreamError>)
        requires
            index < Self::count(),
            old(stream).wf(),
        ensures
            fulfils(Self::variant_spec(index as nat, old(stream)@), r, final(stream)@),
            r is Ok ==> final(stream).wf() && old(stream)@.precedes(final(stream)@),
    ;
}

/// The first form, at or after `from`, that can be read from `pre`.
pub open spec fn first_match_from<E: Alternatives>(pre: StreamState, from: nat) -> Option<nat>
    decreases E::count() - from,
{
    if from >= E::count() {
        None
    } else if E::variant_spec(from, pre) is Parsed {
        Some(from)
    } else {
        first_match_from::<E>(pre, from + 1)
    }
}

/// The failures of the first `upto` forms on `pre`, in the order of the forms.
pub open spec fn failures_upto<E: Alternatives>(pre: StreamState, upto: nat) -> Seq<Failure> {
    Seq::new(upto, |i: int| E::variant_spec(i as nat, pre)->Failed_0)
}

/// The value of the first form that can be read; where none can, the
/// deepest of their failures.
pub open spec fn alternation_spec<E: Alternatives>(pre: StreamState) -> Outcome<E::V> {
    match first_match_from::<E>(pre, 0) {
        Some(index) => E::variant_spec(index, pre),
        None => Outcome::Failed(deepest(failures_upto::<E>(pre, E::count()))),
    }
}

/// The form found can be read, and none before it can.
pub proof fn lemma_first_match_from<E: Alternatives>(pre: StreamState, from: nat)
    ensures
        match first_match_from::<E>(pre, from) {
            Some(index) => from <= index < E::count() && E::variant_spec(index, pre) is Parsed
                && forall|j: nat| from <= j < index ==> #[trigger] E::variant_spec(j, pre) is Failed,
            None => forall|j: nat|
                from <= j < E::count() ==> #[trigger] E::variant_spec(j, pre) is Failed,
        },
    decreases E::count() - from,
{
    if from < E::count() && !(E::variant_spec(from, pre) is Parsed) {
        lemma_first_match_from::<E>(pre, from + 1);
    }
}

/// Reading one of several forms only moves forward.
pub proof fn lemma_alternation<E: Alternatives>(pre: StreamState)
    requires
        pre.wf(),
    ensures
        alternation_spec::<E>(pre).sound_from(pre),
        alternation_spec::<E>(pre) is Parsed ==> exists|index: nat|
            index < E::count() && alternation_spec::<E>(pre) == #[trigger] E::variant_spec(
                index,
                pre,
            ),
{
    lemma_first_match_from::<E>(pre, 0);
    if let Some(index) = first_match_from::<E>(pre, 0) {
        E::lemma_variant_spec(index, pre);
    }
}

/// First match wins: a form that can be read, with no form before it that
/// can, gives the value of the whole, whatever the forms after it would
/// have read.
pub proof fn lemma_first_match_wins<E: Alternatives>(pre: StreamState, index: nat)
    requires
        index < E::count(),
        E::variant_spec(index, pre) is Parsed,
        forall|j: nat| j < index ==> #[trigger] E::variant_spec(j, pre) is Failed,
    ensures
        alternation_spec::<E>(pre) == E::variant_spec(index, pre),
{
    lemma_first_match_from::<E>(pre, 0);
}

/// Best error: where no form can be read, the failure of the whole is the
/// failure of one of the forms, and no form got further than it.
pub proof fn lemma_deepest_failure_reported<E: Alternatives>(pre: StreamState)
    requires
        E::count() >= 1,
        forall|j: nat| j < E::count() ==> #[trigger] E::variant_spec(j, pre) is Failed,
    ensures
        alternation_spec::<E>(pre) is Failed,
        exists|j: nat|
            j < E::count() && alternation_spec::<E>(pre) == #[trigger] E::variant_spec(j, pre),
        forall|j: nat|
            j < E::count() ==> (#[trigger] E::variant_spec(j, pre))->Failed_0.depth
                <= alternation_spec::<E>(pre)->Failed_0.depth,
{
    lemma_first_match_from::<E>(pre, 0);
    let failures = failures_upto::<E>(pre, E::count());
    lemma_deepest(failures);
    assert forall|j: nat| j < E::count() implies (#[trigger] E::variant_spec(
        j,
        pre,
    ))->Failed_0.depth <= alternation_spec::<E>(pre)->Failed_0.depth by {
        assert(failures[j as int].depth <= deepest(failures).depth);
    }
}

/// Reads a value of `E`. Each form in turn is tried on a copy of the
/// stream. The first that can be read is the value, and its copy becomes
/// the stream. A copy on which a form failed is thrown away, however far
/// the form had read: where all forms fail, the stream is as it was, and
/// the deepest of the failures is reported.
pub fn first_match<E: Alternatives>(stream: &mut ParseStream<'_>) -> (r: Result<E, ParseStreamError>)
    requires
        old(stream).wf(),
    ensures
        fulfils(alternation_spec::<E>(old(stream)@), r, final(stream)@),
        final(stream).wf(),
        old(stream)@.precedes(final(stream)@),
        r is Err ==> *final(stream) == *old(stream),
{
    let count = E::variants();
    let mut failures: Vec<ParseStreamError> = Vec::new();
    let mut index: usize = 0;
    while index < count
        invariant
            index <= count,
            count == E::count(),
            *stream == *old(stream),
            stream.wf(),
            first_match_from::<E>(stream@, 0) == first_match_from::<E>(stream@, index as nat),
            failures@.len() == index,
            failures_of(failures@) =~= failures_upto::<E>(stream@, index as nat),
        decreases count - index,
    {
        let mut fork = *stream;
        match E::variant(index, &mut fork) {
            Ok(value) => {
                *stream = fork;
                return Ok(value);
            },
            Err(error) => {
                let ghost before = failures@;
                failures.push(error);
                proof {
                    let now = failures_of(failures@);
                    let owed = failures_upto::<E>(stream@, (index + 1) as nat);
                    assert forall|j: int| 0 <= j < index + 1 implies now[j] == owed[j] by {
                        if j < index {
                            assert(now[j] == failures_of(before)[j]);
                        }
                    }
                }
            },
        }
        index = index + 1;
    }
    Err(deepest_failure(failures))
}

} // verus!
