use vstd::prelude::*;

use crate::identity::Identity;
use crate::poll::{Call, Error, PollState, Vote};

verus! {

/// The identities in `ids`, as the bytes that name them.
pub open spec fn id_set(ids: Seq<Identity>) -> Set<Seq<u8>> {
    Set::new(|x: Seq<u8>| exists|i: int| 0 <= i < ids.len() && (#[trigger] ids[i])@ == x)
}

/// An optional identity, as the bytes that name it.
pub open spec fn opt_id(o: Option<Identity>) -> Option<Seq<u8>> {
    match o {
        Some(id) => Some(id@),
        None => None,
    }
}

/// One binary-choice poll and the entries it keeps.
pub struct SimpleVoting {
    creator: Option<Identity>,
    active: Option<bool>,
    votes_si: Option<u32>,
    votes_no: Option<u32>,
    voters: Vec<Identity>,
}

impl View for SimpleVoting {
    type V = PollState;

    closed spec fn view(&self) -> PollState {
        PollState {
            creator: opt_id(self.creator),
            active: self.active,
            votes_si: self.votes_si,
            votes_no: self.votes_no,
            voters: id_set(self.voters@),
        }
    }
}

impl SimpleVoting {
    /// The set of identities that have voted is finite.
    pub proof fn lemma_voters_finite(&self)
        ensures
            self@.voters.finite(),
    {
        let names = self.voters@.map_values(|i: Identity| i@);
        assert(id_set(self.voters@) =~= names.to_set()) by {
            assert forall|x: Seq<u8>| id_set(self.voters@).contains(x) implies names.to_set().contains(
                x,
            ) by {
                let i = choose|i: int| 0 <= i < self.voters@.len() && (#[trigger] self.voters@[i])@ == x;
                assert(names[i] == x);
            }
            assert forall|x: Seq<u8>| names.to_set().contains(x) implies id_set(self.voters@).contains(
                x,
            ) by {
                let i = choose|i: int| 0 <= i < names.len() && names[i] == x;
                assert(self.voters@[i]@ == x);
            }
        }
        vstd::seq_lib::seq_to_set_is_finite(names);
    }

    /// A poll with nothing stored yet.
    pub fn new() -> (r: SimpleVoting)
        ensures
            r@ == PollState::empty(),
    {
        let r = SimpleVoting {
            creator: None,
            active: None,
            votes_si: None,
            votes_no: None,
            voters: Vec::new(),
        };
        assert(id_set(r.voters@) =~= Set::empty());
        r
    }

    /// A poll holding the given entries, as read back from storage.
    pub fn restore(
        creator: Option<Identity>,
        active: Option<bool>,
        votes_si: Option<u32>,
        votes_no: Option<u32>,
        voters: Vec<Identity>,
    ) -> (r: SimpleVoting)
        ensures
            r@ == (PollState {
                creator: opt_id(creator),
                active,
                votes_si,
                votes_no,
                voters: id_set(voters@),
            }),
    {
        SimpleVoting { creator, active, votes_si, votes_no, voters }
    }

    /// Starts the poll with `creator` as the one identity that may close it.
    pub fn init(&mut self, creator: Identity) -> (r: Result<(), Error>)
        ensures
            (final(self)@, r) == old(self)@.step(Call::Init(creator@)),
    {
        if self.creator.is_some() {
            return Err(Error::AlreadyInitialized);
        }
        self.creator = Some(creator);
        self.active = Some(true);
        self.votes_si = Some(0);
        self.votes_no = Some(0);
        Ok(())
    }

    /// Casts a "yes" vote for `voter`.
    pub fn vote_si(&mut self, voter: Identity) -> (r: Result<(), Error>)
        requires
            old(self)@.vote_outcome(voter@) is Ok ==> old(self)@.yes_count() < u32::MAX,
        ensures
            (final(self)@, r) == old(self)@.step(Call::VoteSi(voter@)),
    {
        self.cast_vote(voter, Vote::Si)
    }

    /// Casts a "no" vote for `voter`.
    pub fn vote_no(&mut self, voter: Identity) -> (r: Result<(), Error>)
        requires
            old(self)@.vote_outcome(voter@) is Ok ==> old(self)@.no_count() < u32::MAX,
        ensures
            (final(self)@, r) == old(self)@.step(Call::VoteNo(voter@)),
    {
        self.cast_vote(voter, Vote::No)
    }

    /// Stops accepting votes; only the creator may do so, and doing it again
    /// succeeds.
    pub fn close_voting(&mut self, creator: Identity) -> (r: Result<(), Error>)
        ensures
            (final(self)@, r) == old(self)@.step(Call::Close(creator@)),
    {
        let is_creator: bool = match &self.creator {
            Some(stored) => *stored == creator,
            None => return Err(Error::NotInitialized),
        };
        if !is_creator {
            return Err(Error::NotCreator);
        }
        self.active = Some(false);
        Ok(())
    }

    /// The vote procedure shared by both choices: the poll must be open and
    /// the voter new; the voter's flag is set, then the chosen count raised.
    fn cast_vote(&mut self, voter: Identity, vote: Vote) -> (r: Result<(), Error>)
        requires
            old(self)@.vote_outcome(voter@) is Ok && vote == Vote::Si ==> old(self)@.yes_count()
                < u32::MAX,
            old(self)@.vote_outcome(voter@) is Ok && vote == Vote::No ==> old(self)@.no_count()
                < u32::MAX,
        ensures
            (final(self)@, r) == old(self)@.cast(voter@, vote),
    {
        let active: bool = match self.active {
            Some(a) => a,
            None => return Err(Error::NotInitialized),
        };
        if !active {
            return Err(Error::VotingNotActive);
        }
        if self.contains_voter(&voter) {
            return Err(Error::AlreadyVoted);
        }
        let ghost before = self.voters@;
        let ghost v = voter@;
        self.voters.push(voter);
        assert(id_set(self.voters@) =~= id_set(before).insert(v)) by {
            assert(self.voters@[before.len() as int]@ == v);
            assert forall|x: Seq<u8>| id_set(before).contains(x) implies id_set(self.voters@).contains(x) by {
                let i = choose|i: int| 0 <= i < before.len() && (#[trigger] before[i])@ == x;
                assert(self.voters@[i] == before[i]);
            }
        }
        match vote {
            Vote::Si => {
                let current: u32 = match self.votes_si {
                    Some(n) => n,
                    None => 0,
                };
                self.votes_si = Some(current + 1);
            },
            Vote::No => {
                let current: u32 = match self.votes_no {
                    Some(n) => n,
                    None => 0,
                };
                self.votes_no = Some(current + 1);
            },
        }
        Ok(())
    }

    fn contains_voter(&self, user: &Identity) -> (r: bool)
        ensures
            r == self@.voters.contains(user@),
    {
        let mut i: usize = 0;
        while i < self.voters.len()
            invariant
                i <= self.voters@.len(),
                forall|j: int| 0 <= j < i ==> (#[trigger] self.voters@[j])@ != user@,
            decreases self.voters@.len() - i,
        {
            if self.voters[i] == *user {
                assert(self.voters@[i as int]@ == user@);
                return true;
            }
            i = i + 1;
        }
        false
    }

    /// The "yes" count, the "no" count and whether votes are accepted; absent
    /// counts read as zero and an absent flag as false.
    pub fn get_results(&self) -> (r: (u32, u32, bool))
        ensures
            r == self@.results(),
    {
        let votes_si: u32 = match self.votes_si {
            Some(n) => n,
            None => 0,
        };
        let votes_no: u32 = match self.votes_no {
            Some(n) => n,
            None => 0,
        };
        let active: bool = match self.active {
            Some(a) => a,
            None => false,
        };
        (votes_si, votes_no, active)
    }

    /// Whether `user` has already voted.
    pub fn has_voted(&self, user: Identity) -> (r: bool)
        ensures
            r == self@.voters.contains(user@),
    {
        self.contains_voter(&user)
    }
}

} // verus!
