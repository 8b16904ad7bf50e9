use vstd::prelude::*;

verus! {

/// The two choices a voter can cast.
#[derive(Clone, Copy, Debug, PartialEq, Eq, Structural)]
pub enum Vote {
    Si,
    No,
}

/// Why a call on the poll was refused.
#[derive(Clone, Copy, Debug, PartialEq, Eq, Structural)]
pub enum Error {
    AlreadyInitialized,
    NotInitialized,
    VotingNotActive,
    AlreadyVoted,
    NotCreator,
}

/// The stable numeric identifier of each error.
pub open spec fn error_code(e: Error) -> u32 {
    match e {
        Error::AlreadyInitialized => 1,
        Error::NotInitialized => 2,
        Error::VotingNotActive => 3,
        Error::AlreadyVoted => 4,
        Error::NotCreator => 5,
    }
}

impl Error {
    pub fn code(&self) -> (r: u32)
        ensures
            r == error_code(*self),
    {
        match self {
            Error::AlreadyInitialized => 1,
            Error::NotInitialized => 2,
            Error::VotingNotActive => 3,
            Error::AlreadyVoted => 4,
            Error::NotCreator => 5,
        }
    }
}

/// One state-changing call on the poll, with the identity it is made for.
pub enum Call {
    Init(Seq<u8>),
    VoteSi(Seq<u8>),
    VoteNo(Seq<u8>),
    Close(Seq<u8>),
}

/// The poll's stored entries: one per key, absent until written, and the
/// set of identities whose vote flag is present.
pub struct PollState {
    pub creator: Option<Seq<u8>>,
    pub active: Option<bool>,
    pub votes_si: Option<u32>,
    pub votes_no: Option<u32>,
    pub voters: Set<Seq<u8>>,
}

/// A count read with zero standing in for an absent entry.
pub open spec fn count_or_zero(c: Option<u32>) -> u32 {
    match c {
        Some(n) => n,
        None => 0,
    }
}

impl PollState {
    /// Storage before anything was written.
    pub open spec fn empty() -> PollState {
        PollState {
            creator: None,
            active: None,
            votes_si: None,
            votes_no: None,
            voters: Set::empty(),
        }
    }

    /// The entries are those of a poll that was never started, or of one
    /// that was: the creator is stored exactly when the active flag and both
    /// counts are, and no voter's flag comes before the creator.
    pub open spec fn wf(self) -> bool {
        if self.creator is Some {
            &&& self.active is Some
            &&& self.votes_si is Some
            &&& self.votes_no is Some
        } else {
            &&& self.active is None
            &&& self.votes_si is None
            &&& self.votes_no is None
            &&& self.voters.is_empty()
        }
    }

    pub open spec fn yes_count(self) -> u32 {
        count_or_zero(self.votes_si)
    }

    pub open spec fn no_count(self) -> u32 {
        count_or_zero(self.votes_no)
    }

    /// What a read of the results returns: absent counts read as zero,
    /// an absent active flag as false.
    pub open spec fn results(self) -> (u32, u32, bool) {
        (
            self.yes_count(),
            self.no_count(),
            match self.active {
                Some(a) => a,
                None => false,
            },
        )
    }

    /// The four entries that starting the poll writes.
    pub open spec fn started_by(self, creator: Seq<u8>) -> PollState {
        PollState {
            creator: Some(creator),
            active: Some(true),
            votes_si: Some(0),
            votes_no: Some(0),
            voters: self.voters,
        }
    }

    /// Whether a vote by `voter` is accepted, and if not, why.
    pub open spec fn vote_outcome(self, voter: Seq<u8>) -> Result<(), Error> {
        match self.active {
            None => Err(Error::NotInitialized),
            Some(false) => Err(Error::VotingNotActive),
            Some(true) => if self.voters.contains(voter) {
                Err(Error::AlreadyVoted)
            } else {
                Ok(())
            },
        }
    }

    /// The entries after an accepted vote: the voter's flag is set and the
    /// chosen count goes up by one.
    pub open spec fn voted(self, voter: Seq<u8>, vote: Vote) -> PollState {
        match vote {
            Vote::Si => PollState {
                votes_si: Some((self.yes_count() + 1) as u32),
                voters: self.voters.insert(voter),
                ..self
            },
            Vote::No => PollState {
                votes_no: Some((self.no_count() + 1) as u32),
                voters: self.voters.insert(voter),
                ..self
            },
        }
    }

    /// Whether `caller` may close the poll, and if not, why.
    pub open spec fn close_outcome(self, caller: Seq<u8>) -> Result<(), Error> {
        match self.creator {
            None => Err(Error::NotInitialized),
            Some(c) => if c == caller {
                Ok(())
            } else {
                Err(Error::NotCreator)
            },
        }
    }

    /// The entries after an accepted close.
    pub open spec fn closed(self) -> PollState {
        PollState { active: Some(false), ..self }
    }

    /// The entries after a vote, and what the vote returns.
    pub open spec fn cast(self, voter: Seq<u8>, vote: Vote) -> (PollState, Result<(), Error>) {
        match self.vote_outcome(voter) {
            Ok(()) => (self.voted(voter, vote), Ok(())),
            Err(e) => (self, Err(e)),
        }
    }

    /// The entries after one call, and what the call returns. A refused call
    /// writes nothing.
    pub open spec fn step(self, call: Call) -> (PollState, Result<(), Error>) {
        match call {
            Call::Init(c) => if self.creator is Some {
                (self, Err(Error::AlreadyInitialized))
            } else {
                (self.started_by(c), Ok(()))
            },
            Call::VoteSi(v) => self.cast(v, Vote::Si),
            Call::VoteNo(v) => self.cast(v, Vote::No),
            Call::Close(c) => match self.close_outcome(c) {
                Ok(()) => (self.closed(), Ok(())),
                Err(e) => (self, Err(e)),
            },
        }
    }

    /// The entries after a sequence of calls, made one at a time.
    pub open spec fn run(self, calls: Seq<Call>) -> PollState
        decreases calls.len(),
    {
        if calls.len() == 0 {
            self
        } else {
            self.step(calls[0]).0.run(calls.drop_first())
        }
    }
}

} // verus!
