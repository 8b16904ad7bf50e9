use simple_voting::{Error, Identity, SimpleVoting};

fn id(name: &str) -> Identity {
    Identity::new(name.as_bytes().to_vec())
}

fn started(creator: &str) -> SimpleVoting {
    let mut poll = SimpleVoting::new();
    assert_eq!(poll.init(id(creator)), Ok(()));
    poll
}

#[test]
fn fresh_poll_reads_defaults() {
    let poll = SimpleVoting::new();
    assert_eq!(poll.get_results(), (0, 0, false));
    assert!(!poll.has_voted(id("alice")));
}

#[test]
fn init_opens_poll_with_zero_counts() {
    let poll = started("carol");
    assert_eq!(poll.get_results(), (0, 0, true));
}

#[test]
fn init_twice_is_refused_and_keeps_first() {
    let mut poll = started("carol");
    assert_eq!(poll.vote_si(id("alice")), Ok(()));
    assert_eq!(poll.init(id("dave")), Err(Error::AlreadyInitialized));
    assert_eq!(poll.get_results(), (1, 0, true));
    assert_eq!(poll.close_voting(id("dave")), Err(Error::NotCreator));
    assert_eq!(poll.close_voting(id("carol")), Ok(()));
}

#[test]
fn calls_before_init_are_not_initialized() {
    let mut poll = SimpleVoting::new();
    assert_eq!(poll.vote_si(id("alice")), Err(Error::NotInitialized));
    assert_eq!(poll.vote_no(id("alice")), Err(Error::NotInitialized));
    assert_eq!(poll.close_voting(id("carol")), Err(Error::NotInitialized));
    assert_eq!(poll.get_results(), (0, 0, false));
    assert!(!poll.has_voted(id("alice")));
}

#[test]
fn one_vote_per_identity() {
    let mut poll = started("carol");
    assert_eq!(poll.vote_no(id("alice")), Ok(()));
    assert!(poll.has_voted(id("alice")));
    assert_eq!(poll.vote_no(id("alice")), Err(Error::AlreadyVoted));
    assert_eq!(poll.vote_si(id("alice")), Err(Error::AlreadyVoted));
    assert_eq!(poll.get_results(), (0, 1, true));
    assert!(poll.has_voted(id("alice")));
    assert!(!poll.has_voted(id("bob")));
}

#[test]
fn identities_differ_by_any_byte() {
    let mut poll = started("carol");
    assert_eq!(poll.vote_si(id("alice")), Ok(()));
    assert_eq!(poll.vote_si(id("alicf")), Ok(()));
    assert_eq!(poll.vote_si(id("alic")), Ok(()));
    assert_eq!(poll.vote_si(id("")), Ok(()));
    assert_eq!(poll.get_results(), (4, 0, true));
    assert!(Identity::new(vec![1, 2]) == Identity::new(vec![1, 2]));
    assert!(Identity::new(vec![1, 2]) != Identity::new(vec![1, 3]));
    assert!(Identity::new(vec![1, 2]) != Identity::new(vec![1, 2, 0]));
}

#[test]
fn no_votes_after_close() {
    let mut poll = started("carol");
    assert_eq!(poll.vote_si(id("alice")), Ok(()));
    assert_eq!(poll.close_voting(id("carol")), Ok(()));
    assert_eq!(poll.vote_si(id("bob")), Err(Error::VotingNotActive));
    assert_eq!(poll.vote_no(id("bob")), Err(Error::VotingNotActive));
    assert_eq!(poll.vote_si(id("alice")), Err(Error::VotingNotActive));
    assert_eq!(poll.get_results(), (1, 0, false));
    assert!(!poll.has_voted(id("bob")));
}

#[test]
fn close_by_other_is_refused_and_keeps_active() {
    let mut poll = started("carol");
    assert_eq!(poll.close_voting(id("dave")), Err(Error::NotCreator));
    assert_eq!(poll.get_results(), (0, 0, true));
    assert_eq!(poll.vote_si(id("alice")), Ok(()));
}

#[test]
fn close_twice_succeeds() {
    let mut poll = started("carol");
    assert_eq!(poll.close_voting(id("carol")), Ok(()));
    assert_eq!(poll.close_voting(id("carol")), Ok(()));
    assert_eq!(poll.close_voting(id("dave")), Err(Error::NotCreator));
    assert_eq!(poll.get_results(), (0, 0, false));
}

#[test]
fn one_each_then_close_gives_one_one_closed() {
    let mut poll = started("carol");
    assert_eq!(poll.vote_si(id("alice")), Ok(()));
    assert_eq!(poll.vote_no(id("bob")), Ok(()));
    assert_eq!(poll.close_voting(id("carol")), Ok(()));
    assert_eq!(poll.get_results(), (1, 1, false));
}

#[test]
fn full_scenario() {
    let mut poll = SimpleVoting::new();
    assert_eq!(poll.init(id("C")), Ok(()));
    assert_eq!(poll.vote_si(id("A")), Ok(()));
    assert_eq!(poll.vote_si(id("A")), Err(Error::AlreadyVoted));
    assert_eq!(poll.vote_no(id("B")), Ok(()));
    assert_eq!(poll.close_voting(id("D")), Err(Error::NotCreator));
    assert_eq!(poll.close_voting(id("C")), Ok(()));
    assert_eq!(poll.get_results(), (1, 1, false));
}

#[test]
fn restored_entries_read_with_defaults() {
    let poll = SimpleVoting::restore(None, None, None, None, Vec::new());
    assert_eq!(poll.get_results(), (0, 0, false));
    let poll = SimpleVoting::restore(Some(id("carol")), Some(true), None, Some(7), vec![id("alice")]);
    assert_eq!(poll.get_results(), (0, 7, true));
    assert!(poll.has_voted(id("alice")));
}

#[test]
fn missing_count_counts_from_zero() {
    let mut poll = SimpleVoting::restore(Some(id("carol")), Some(true), None, None, Vec::new());
    assert_eq!(poll.vote_si(id("alice")), Ok(()));
    assert_eq!(poll.vote_no(id("bob")), Ok(()));
    assert_eq!(poll.get_results(), (1, 1, true));
}

#[test]
fn active_flag_decides_before_creator() {
    let mut poll = SimpleVoting::restore(Some(id("carol")), None, Some(0), Some(0), Vec::new());
    assert_eq!(poll.vote_si(id("alice")), Err(Error::NotInitialized));
    let mut poll = SimpleVoting::restore(None, Some(true), None, None, Vec::new());
    assert_eq!(poll.vote_si(id("alice")), Ok(()));
    assert_eq!(poll.close_voting(id("carol")), Err(Error::NotInitialized));
}

#[test]
fn counts_reach_the_largest_value() {
    let mut poll = SimpleVoting::restore(Some(id("carol")), Some(true), Some(u32::MAX - 1), Some(0), Vec::new());
    assert_eq!(poll.vote_si(id("alice")), Ok(()));
    assert_eq!(poll.get_results(), (u32::MAX, 0, true));
}

#[test]
fn error_codes_are_stable() {
    assert_eq!(Error::AlreadyInitialized.code(), 1);
    assert_eq!(Error::NotInitialized.code(), 2);
    assert_eq!(Error::VotingNotActive.code(), 3);
    assert_eq!(Error::AlreadyVoted.code(), 4);
    assert_eq!(Error::NotCreator.code(), 5);
}

#[test]
fn identity_keeps_its_bytes() {
    let a = Identity::new(vec![9, 8, 7]);
    assert_eq!(a.as_bytes(), &vec![9, 8, 7]);
}

#[test]
fn refused_votes_at_largest_count_keep_their_errors() {
    let mut poll = SimpleVoting::restore(Some(id("carol")), Some(false), Some(u32::MAX), Some(u32::MAX), Vec::new());
    assert_eq!(poll.vote_si(id("alice")), Err(Error::VotingNotActive));
    assert_eq!(poll.vote_no(id("alice")), Err(Error::VotingNotActive));
    let mut poll = SimpleVoting::restore(Some(id("carol")), Some(true), Some(u32::MAX), Some(u32::MAX), vec![id("alice")]);
    assert_eq!(poll.vote_si(id("alice")), Err(Error::AlreadyVoted));
    assert_eq!(poll.vote_no(id("alice")), Err(Error::AlreadyVoted));
    let mut poll = SimpleVoting::restore(None, None, Some(u32::MAX), Some(u32::MAX), Vec::new());
    assert_eq!(poll.vote_si(id("alice")), Err(Error::NotInitialized));
    assert_eq!(poll.get_results(), (u32::MAX, u32::MAX, false));
}
