//! The subscription verifier: one pass over the required channels, in
//! configuration order, with eager short-circuiting on the first
//! non-`Member` outcome.

use vstd::prelude::*;

use crate::outcome::MembershipOutcome;
use crate::outcome::SubscriptionResult;

verus! {

/// The verdict of a verification pass whose per-channel query outcomes,
/// in configuration order, would be `outcomes`: the first `NotMember`
/// yields `MissingAtLeastOne`, the first `Unknown` yields
/// `Indeterminate`, and a pass that sees only `Member` yields
/// `AllSubscribed` (vacuously so for an empty channel list).
pub open spec fn spec_verify(outcomes: Seq<MembershipOutcome>) -> SubscriptionResult
    decreases outcomes.len(),
{
    if outcomes.len() == 0 {
        SubscriptionResult::AllSubscribed
    } else {
        match outcomes[0] {
            MembershipOutcome::Member => spec_verify(outcomes.drop_first()),
            MembershipOutcome::NotMember => SubscriptionResult::MissingAtLeastOne,
            MembershipOutcome::Unknown => SubscriptionResult::Indeterminate,
        }
    }
}

/// How many channels such a pass actually queries: every channel up to
/// and including the first non-`Member` outcome, and no channel after it.
pub open spec fn spec_queries(outcomes: Seq<MembershipOutcome>) -> nat
    decreases outcomes.len(),
{
    if outcomes.len() == 0 {
        0
    } else if outcomes[0] is Member {
        1 + spec_queries(outcomes.drop_first())
    } else {
        1
    }
}

/// A pass never queries more channels than there are.
pub proof fn lemma_queries_le_len(outcomes: Seq<MembershipOutcome>)
    ensures
        spec_queries(outcomes) <= outcomes.len(),
    decreases outcomes.len(),
{
    if outcomes.len() > 0 && outcomes[0] is Member {
        lemma_queries_le_len(outcomes.drop_first());
    }
}

/// A pass whose first `i` outcomes are `Member` behaves like the pass
/// over the remaining outcomes, with `i` more queries issued.
pub proof fn lemma_member_prefix(outcomes: Seq<MembershipOutcome>, i: int)
    requires
        0 <= i <= outcomes.len(),
        forall|j: int| 0 <= j < i ==> outcomes[j] is Member,
    ensures
        spec_verify(outcomes) == spec_verify(outcomes.skip(i)),
        spec_queries(outcomes) == i + spec_queries(outcomes.skip(i)),
    decreases i,
{
    if i == 0 {
        assert(outcomes.skip(0) =~= outcomes);
    } else {
        assert(outcomes[0] is Member);
        lemma_member_prefix(outcomes.drop_first(), i - 1);
        assert(outcomes.drop_first().skip(i - 1) =~= outcomes.skip(i));
    }
}

/// A pass returns `AllSubscribed` exactly when every per-channel query
/// returns `Member`.
pub proof fn lemma_all_subscribed_iff_all_member(outcomes: Seq<MembershipOutcome>)
    ensures
        spec_verify(outcomes) == SubscriptionResult::AllSubscribed <==> (forall|i: int|
            0 <= i < outcomes.len() ==> outcomes[i] is Member),
    decreases outcomes.len(),
{
    if outcomes.len() > 0 {
        lemma_all_subscribed_iff_all_member(outcomes.drop_first());
        if outcomes[0] is Member {
            if spec_verify(outcomes) == SubscriptionResult::AllSubscribed {
                assert forall|i: int| 0 <= i < outcomes.len() implies outcomes[i] is Member by {
                    if i > 0 {
                        assert(outcomes.drop_first()[i - 1] is Member);
                    }
                }
            } else {
                let k = choose|k: int|
                    0 <= k < outcomes.drop_first().len() && !(outcomes.drop_first()[k] is Member);
                assert(outcomes[k + 1] == outcomes.drop_first()[k]);
            }
        }
    }
}

/// If the first non-`Member` outcome is `NotMember`, the pass returns
/// `MissingAtLeastOne` and queries exactly the channels up to and
/// including it: no channel after it is queried.
pub proof fn lemma_first_not_member_short_circuits(outcomes: Seq<MembershipOutcome>, i: int)
    requires
        0 <= i < outcomes.len(),
        outcomes[i] is NotMember,
        forall|j: int| 0 <= j < i ==> outcomes[j] is Member,
    ensures
        spec_verify(outcomes) == SubscriptionResult::MissingAtLeastOne,
        spec_queries(outcomes) == i + 1,
{
    lemma_member_prefix(outcomes, i);
    assert(outcomes.skip(i)[0] == outcomes[i]);
}

/// If the first non-`Member` outcome is `Unknown`, the pass returns
/// `Indeterminate` and queries exactly the channels up to and including
/// it: no channel after it is queried.
pub proof fn lemma_first_unknown_short_circuits(outcomes: Seq<MembershipOutcome>, i: int)
    requires
        0 <= i < outcomes.len(),
        outcomes[i] is Unknown,
        forall|j: int| 0 <= j < i ==> outcomes[j] is Member,
    ensures
        spec_verify(outcomes) == SubscriptionResult::Indeterminate,
        spec_queries(outcomes) == i + 1,
{
    lemma_member_prefix(outcomes, i);
    assert(outcomes.skip(i)[0] == outcomes[i]);
}

/// A pass over an empty channel list returns `AllSubscribed` and issues
/// no query at all.
pub proof fn lemma_empty_pass(outcomes: Seq<MembershipOutcome>)
    requires
        outcomes.len() == 0,
    ensures
        spec_verify(outcomes) == SubscriptionResult::AllSubscribed,
        spec_queries(outcomes) == 0,
{
}

/// The state of one in-flight verification pass. The pass is driven one
/// query at a time, so a caller that performs the queries itself stops
/// issuing them the moment the pass is `Done`.
#[derive(Clone, Copy, Debug, PartialEq, Eq, Structural)]
pub enum VerifyState {
    /// The first `queried` of `total` channels answered `Member`; the
    /// channel at index `queried` is the next to query.
    Probing { queried: usize, total: usize },
    /// The pass has its verdict; no further channel is queried.
    Done { result: SubscriptionResult },
}

/// The state a pass over `total` channels starts in.
pub open spec fn spec_verify_begin(total: usize) -> VerifyState {
    if total == 0 {
        VerifyState::Done { result: SubscriptionResult::AllSubscribed }
    } else {
        VerifyState::Probing { queried: 0, total }
    }
}

/// How one query outcome advances a pass; a finished pass is unchanged.
pub open spec fn spec_verify_step(state: VerifyState, outcome: MembershipOutcome) -> VerifyState {
    match state {
        VerifyState::Probing { queried, total } => match outcome {
            MembershipOutcome::Member => {
                if queried + 1 < total {
                    VerifyState::Probing { queried: (queried + 1) as usize, total }
                } else {
                    VerifyState::Done { result: SubscriptionResult::AllSubscribed }
                }
            },
            MembershipOutcome::NotMember => {
                VerifyState::Done { result: SubscriptionResult::MissingAtLeastOne }
            },
            MembershipOutcome::Unknown => {
                VerifyState::Done { result: SubscriptionResult::Indeterminate }
            },
        },
        VerifyState::Done { result } => VerifyState::Done { result },
    }
}

/// A pass in state `state` fed the outcomes of `outcomes`, one per step.
pub open spec fn spec_run(state: VerifyState, outcomes: Seq<MembershipOutcome>) -> VerifyState
    decreases outcomes.len(),
{
    if outcomes.len() == 0 {
        state
    } else {
        spec_run(spec_verify_step(state, outcomes[0]), outcomes.drop_first())
    }
}

/// Begins a verification pass over `total` required channels; an empty
/// channel list is `Done` at once, with `AllSubscribed` and no query.
pub fn verify_begin(total: usize) -> (state: VerifyState)
    ensures
        state == spec_verify_begin(total),
{
    if total == 0 {
        VerifyState::Done { result: SubscriptionResult::AllSubscribed }
    } else {
        VerifyState::Probing { queried: 0, total }
    }
}

/// Advances a pass by the outcome of the query for the channel at index
/// `queried`: `Member` moves on to the next channel (or finishes with
/// `AllSubscribed` after the last), the first `NotMember` finishes with
/// `MissingAtLeastOne`, and the first `Unknown` with `Indeterminate`.
pub fn verify_step(state: &VerifyState, outcome: MembershipOutcome) -> (next: VerifyState)
    requires
        *state matches VerifyState::Probing { queried, total } && queried < total,
    ensures
        next == spec_verify_step(*state, outcome),
{
    match state {
        VerifyState::Probing { queried, total } => match outcome {
            MembershipOutcome::Member => {
                if queried + 1 < *total {
                    VerifyState::Probing { queried: queried + 1, total: *total }
                } else {
                    VerifyState::Done { result: SubscriptionResult::AllSubscribed }
                }
            },
            MembershipOutcome::NotMember => {
                VerifyState::Done { result: SubscriptionResult::MissingAtLeastOne }
            },
            MembershipOutcome::Unknown => {
                VerifyState::Done { result: SubscriptionResult::Indeterminate }
            },
        },
        VerifyState::Done { result } => VerifyState::Done { result: *result },
    }
}

/// A pass that has seen `i` `Member` outcomes of `outcomes`, fed the rest
/// of the queried prefix of `outcomes`, finishes with the verdict of the
/// whole pass.
proof fn lemma_run_from(outcomes: Seq<MembershipOutcome>, i: int)
    requires
        0 <= i <= outcomes.len(),
        forall|j: int| 0 <= j < i ==> outcomes[j] is Member,
        outcomes.len() <= usize::MAX,
    ensures
        i < outcomes.len() ==> spec_run(
            VerifyState::Probing { queried: i as usize, total: outcomes.len() as usize },
            outcomes.subrange(i, spec_queries(outcomes) as int),
        ) == (VerifyState::Done { result: spec_verify(outcomes) }),
    decreases outcomes.len() - i,
{
    if i < outcomes.len() {
        lemma_member_prefix(outcomes, i);
        let rest = outcomes.skip(i);
        assert(rest[0] == outcomes[i]);
        lemma_queries_le_len(outcomes);
        assert(spec_queries(rest) >= 1);
        let q = spec_queries(outcomes) as int;
        assert(i + 1 <= q <= outcomes.len());
        let fed = outcomes.subrange(i, q);
        assert(fed[0] == outcomes[i]);
        let st = VerifyState::Probing { queried: i as usize, total: outcomes.len() as usize };
        assert(spec_run(st, fed) == spec_run(spec_verify_step(st, fed[0]), fed.drop_first()));
        match outcomes[i] {
            MembershipOutcome::Member => {
                lemma_member_prefix(outcomes, i + 1);
                assert(spec_queries(outcomes) >= i + 1);
                if i + 1 < outcomes.len() {
                    assert(spec_verify_step(st, fed[0]) == VerifyState::Probing {
                        queried: (i + 1) as usize,
                        total: outcomes.len() as usize,
                    });
                    lemma_run_from(outcomes, i + 1);
                    assert(fed.drop_first() =~= outcomes.subrange(i + 1, q));
                } else {
                    assert(outcomes.skip(i + 1).len() == 0);
                    assert(spec_verify(outcomes) == SubscriptionResult::AllSubscribed);
                    assert(spec_queries(outcomes.skip(i + 1)) == 0);
                    assert(q == i + 1);
                    assert(fed.drop_first() =~= Seq::<MembershipOutcome>::empty());
                    assert(spec_verify_step(st, fed[0]) == VerifyState::Done {
                        result: SubscriptionResult::AllSubscribed,
                    });
                    lemma_run_done(SubscriptionResult::AllSubscribed, fed.drop_first());
                }
            },
            MembershipOutcome::NotMember => {
                assert(spec_verify(rest) == SubscriptionResult::MissingAtLeastOne);
                assert(spec_queries(rest) == 1);
                assert(q == i + 1);
                lemma_run_done(SubscriptionResult::MissingAtLeastOne, fed.drop_first());
            },
            MembershipOutcome::Unknown => {
                assert(spec_verify(rest) == SubscriptionResult::Indeterminate);
                assert(spec_queries(rest) == 1);
                assert(q == i + 1);
                lemma_run_done(SubscriptionResult::Indeterminate, fed.drop_first());
            },
        }
    }
}

/// A finished pass stays finished, whatever outcomes are still fed to it.
proof fn lemma_run_done(result: SubscriptionResult, outcomes: Seq<MembershipOutcome>)
    ensures
        spec_run(VerifyState::Done { result }, outcomes) == (VerifyState::Done { result }),
    decreases outcomes.len(),
{
    if outcomes.len() > 0 {
        lemma_run_done(result, outcomes.drop_first());
    }
}

/// Soundness of the stepwise pass: starting a pass over the whole channel
/// list and feeding it exactly the queried prefix of the per-channel
/// outcomes finishes the pass with the one-shot verdict of `spec_verify`,
/// having consumed one outcome per issued query.
pub proof fn lemma_stepwise_pass_sound(outcomes: Seq<MembershipOutcome>)
    requires
        outcomes.len() <= usize::MAX,
    ensures
        spec_run(
            spec_verify_begin(outcomes.len() as usize),
            outcomes.take(spec_queries(outcomes) as int),
        ) == (VerifyState::Done { result: spec_verify(outcomes) }),
{
    if outcomes.len() == 0 {
        assert(outcomes.take(0) =~= outcomes);
    } else {
        lemma_run_from(outcomes, 0);
        assert(outcomes.subrange(0, spec_queries(outcomes) as int) =~= outcomes.take(
            spec_queries(outcomes) as int,
        ));
    }
}

/// Runs a whole verification pass over the outcome of each channel's
/// query, in order, and reports the verdict together with how many
/// channels were actually queried before the pass stopped.
pub fn verify_outcomes(outcomes: &Vec<MembershipOutcome>) -> (r: (SubscriptionResult, usize))
    ensures
        r.0 == spec_verify(outcomes@),
        r.1 as nat == spec_queries(outcomes@),
{
    let n = outcomes.len();
    let mut i: usize = 0;
    while i < n
        invariant
            0 <= i <= n,
            n == outcomes@.len(),
            forall|j: int| 0 <= j < i ==> outcomes@[j] is Member,
        decreases n - i,
    {
        match outcomes[i] {
            MembershipOutcome::Member => {
                i = i + 1;
            },
            MembershipOutcome::NotMember => {
                proof {
                    lemma_first_not_member_short_circuits(outcomes@, i as int);
                }
                return (SubscriptionResult::MissingAtLeastOne, i + 1);
            },
            MembershipOutcome::Unknown => {
                proof {
                    lemma_first_unknown_short_circuits(outcomes@, i as int);
                }
                return (SubscriptionResult::Indeterminate, i + 1);
            },
        }
    }
    proof {
        lemma_member_prefix(outcomes@, n as int);
    }
    (SubscriptionResult::AllSubscribed, n)
}

} // verus!

