//! A binary-choice poll: started once by its creator, one vote per identity,
//! closed only by the creator, with read-only tallies.

pub mod identity;
pub mod laws;
pub mod poll;
pub mod voting;

pub use identity::Identity;
pub use poll::{Call, Error, PollState, Vote};
pub use voting::SimpleVoting;
