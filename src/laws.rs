use vstd::prelude::*;

use crate::poll::{Call, Error, PollState};

verus! {

/// Whether `call` is a vote, either way, by `voter`.
pub open spec fn is_vote_by(call: Call, voter: Seq<u8>) -> bool {
    match call {
        Call::VoteSi(x) => x == voter,
        Call::VoteNo(x) => x == voter,
        _ => false,
    }
}

/// How many votes by `voter` are accepted over a sequence of calls.
pub open spec fn accepted_votes_by(s: PollState, calls: Seq<Call>, voter: Seq<u8>) -> nat
    decreases calls.len(),
{
    if calls.len() == 0 {
        0
    } else {
        let next = s.step(calls[0]);
        (if is_vote_by(calls[0], voter) && next.1 is Ok {
            1nat
        } else {
            0nat
        }) + accepted_votes_by(next.0, calls.drop_first(), voter)
    }
}

/// Every call keeps the entries well formed, never changes a stored
/// creator, never sets the active flag again once cleared, never lowers a
/// count and raises one by at most one, and never clears a voter's flag.
pub proof fn lemma_step_keeps_invariants(s: PollState, call: Call)
    requires
        s.wf(),
        call is VoteSi && s.step(call).1 is Ok ==> s.yes_count() < u32::MAX,
        call is VoteNo && s.step(call).1 is Ok ==> s.no_count() < u32::MAX,
    ensures
        s.step(call).0.wf(),
        s.creator is Some ==> s.step(call).0.creator == s.creator,
        s.active == Some(false) ==> s.step(call).0.active == Some(false),
        s.yes_count() <= s.step(call).0.yes_count() <= s.yes_count() + 1,
        s.no_count() <= s.step(call).0.no_count() <= s.no_count() + 1,
        s.voters.subset_of(s.step(call).0.voters),
{
}

/// Each accepted vote adds exactly one voter and one to exactly one count,
/// so counts that match the number of voters keep matching it.
pub proof fn lemma_counts_match_voters(s: PollState, call: Call)
    requires
        s.wf(),
        s.voters.finite(),
        s.yes_count() + s.no_count() == s.voters.len(),
        call is VoteSi && s.step(call).1 is Ok ==> s.yes_count() < u32::MAX,
        call is VoteNo && s.step(call).1 is Ok ==> s.no_count() < u32::MAX,
    ensures
        s.step(call).0.voters.finite(),
        s.step(call).0.yes_count() + s.step(call).0.no_count() == s.step(call).0.voters.len(),
{
}

/// The empty entries are well formed.
pub proof fn lemma_empty_wf()
    ensures
        PollState::empty().wf(),
{
}

/// Once a creator is stored, no sequence of calls changes it.
pub proof fn lemma_creator_fixed(s: PollState, calls: Seq<Call>)
    requires
        s.creator is Some,
    ensures
        s.run(calls).creator == s.creator,
    decreases calls.len(),
{
    if calls.len() > 0 {
        lemma_creator_fixed(s.step(calls[0]).0, calls.drop_first());
    }
}

/// After any sequence of calls, closing succeeds exactly when the caller is
/// the stored creator; any other caller of an initialized poll gets
/// `NotCreator` and the active flag is left as it was.
pub proof fn lemma_close_only_by_creator(s: PollState, calls: Seq<Call>, caller: Seq<u8>)
    ensures
        s.creator is Some ==> s.run(calls).creator == s.creator,
        s.run(calls).step(Call::Close(caller)).1 is Ok <==> s.run(calls).creator == Some(caller),
        s.run(calls).creator is Some && s.run(calls).creator != Some(caller) ==> {
            &&& s.run(calls).step(Call::Close(caller)).1 == Err::<(), Error>(Error::NotCreator)
            &&& s.run(calls).step(Call::Close(caller)).0.active == s.run(calls).active
        },
{
    if s.creator is Some {
        lemma_creator_fixed(s, calls);
    }
}

/// Before the poll is started, voting either way and closing fail with
/// `NotInitialized` and change nothing.
pub proof fn lemma_calls_before_init(s: PollState, id: Seq<u8>)
    requires
        s.creator is None,
        s.active is None,
    ensures
        s.step(Call::VoteSi(id)) == (s, Err::<(), Error>(Error::NotInitialized)),
        s.step(Call::VoteNo(id)) == (s, Err::<(), Error>(Error::NotInitialized)),
        s.step(Call::Close(id)) == (s, Err::<(), Error>(Error::NotInitialized)),
{
}

/// A second start fails with `AlreadyInitialized` and leaves the entries of
/// the first as they were.
pub proof fn lemma_init_once(s: PollState, first: Seq<u8>, second: Seq<u8>)
    ensures
        s.step(Call::Init(first)).0.step(Call::Init(second)) == (
            s.step(Call::Init(first)).0,
            Err::<(), Error>(Error::AlreadyInitialized),
        ),
{
}

/// A voter's flag, once set, stays set whatever calls follow.
pub proof fn lemma_voter_flag_stays(s: PollState, calls: Seq<Call>, voter: Seq<u8>)
    requires
        s.voters.contains(voter),
    ensures
        s.run(calls).voters.contains(voter),
    decreases calls.len(),
{
    if calls.len() > 0 {
        lemma_voter_flag_stays(s.step(calls[0]).0, calls.drop_first(), voter);
    }
}

/// An accepted vote sets the voter's flag; while the poll is open, every
/// later vote by the same identity, either way, fails with `AlreadyVoted`
/// and changes nothing.
pub proof fn lemma_vote_sets_flag(s: PollState, call: Call, voter: Seq<u8>)
    requires
        is_vote_by(call, voter),
        s.step(call).1 is Ok,
    ensures
        s.step(call).0.voters.contains(voter),
        s.step(call).0.active == Some(true) ==> {
            &&& s.step(call).0.step(Call::VoteSi(voter)) == (
                s.step(call).0,
                Err::<(), Error>(Error::AlreadyVoted),
            )
            &&& s.step(call).0.step(Call::VoteNo(voter)) == (
                s.step(call).0,
                Err::<(), Error>(Error::AlreadyVoted),
            )
        },
{
}

/// Over any sequence of calls at most one vote by a given identity is
/// accepted, and none once its flag is set.
pub proof fn lemma_one_vote_per_identity(s: PollState, calls: Seq<Call>, voter: Seq<u8>)
    ensures
        accepted_votes_by(s, calls, voter) <= 1,
        s.voters.contains(voter) ==> accepted_votes_by(s, calls, voter) == 0,
    decreases calls.len(),
{
    if calls.len() > 0 {
        let next = s.step(calls[0]);
        lemma_one_vote_per_identity(next.0, calls.drop_first(), voter);
        if is_vote_by(calls[0], voter) && next.1 is Ok {
            lemma_vote_sets_flag(s, calls[0], voter);
        }
        if s.voters.contains(voter) {
            assert(next.0.voters.contains(voter));
        }
    }
}

/// A poll that has been closed stays closed: its creator and its cleared
/// active flag survive any sequence of calls.
pub proof fn lemma_closed_stays_closed(s: PollState, calls: Seq<Call>)
    requires
        s.creator is Some,
        s.active == Some(false),
    ensures
        s.run(calls).creator == s.creator,
        s.run(calls).active == Some(false),
    decreases calls.len(),
{
    if calls.len() > 0 {
        lemma_closed_stays_closed(s.step(calls[0]).0, calls.drop_first());
    }
}

/// After a successful close, whatever calls follow, a vote either way fails
/// with `VotingNotActive` and leaves the counts as they were.
pub proof fn lemma_no_votes_after_close(s: PollState, closer: Seq<u8>, calls: Seq<Call>, voter: Seq<u8>)
    requires
        s.step(Call::Close(closer)).1 is Ok,
    ensures
        ({
            let t = s.step(Call::Close(closer)).0.run(calls);
            &&& t.step(Call::VoteSi(voter)) == (t, Err::<(), Error>(Error::VotingNotActive))
            &&& t.step(Call::VoteNo(voter)) == (t, Err::<(), Error>(Error::VotingNotActive))
        }),
{
    lemma_closed_stays_closed(s.step(Call::Close(closer)).0, calls);
}

/// Starting a fresh poll, one "yes" vote and one "no" vote by two different
/// identities and a close by the creator leave the results at one, one, and
/// closed.
pub proof fn lemma_one_each_then_close(creator: Seq<u8>, a: Seq<u8>, b: Seq<u8>)
    requires
        a != b,
    ensures
        PollState::empty().run(
            seq![Call::Init(creator), Call::VoteSi(a), Call::VoteNo(b), Call::Close(creator)],
        ).results() == (1u32, 1u32, false),
{
    let calls = seq![Call::Init(creator), Call::VoteSi(a), Call::VoteNo(b), Call::Close(creator)];
    let s0 = PollState::empty();
    let s1 = s0.step(calls[0]).0;
    let s2 = s1.step(calls[1]).0;
    let s3 = s2.step(calls[2]).0;
    let s4 = s3.step(calls[3]).0;
    assert(!s2.voters.contains(b));
    let rest = calls.drop_first().drop_first().drop_first();
    assert(rest.drop_first().len() == 0);
    assert(s4.run(rest.drop_first()) == s4);
    assert(s0.run(calls) == s1.run(calls.drop_first()));
    assert(s1.run(calls.drop_first()) == s2.run(calls.drop_first().drop_first()));
    assert(s2.run(calls.drop_first().drop_first()) == s3.run(
        calls.drop_first().drop_first().drop_first(),
    ));
    assert(s3.run(rest) == s4.run(rest.drop_first()));
}

} // verus!
