use poll_engine::expiry::DEFAULT_EXPIRY_SECONDS;
use poll_engine::models::{IpAddress, PollType, ValidationError, VoteError};
use poll_engine::store::PollStore;

const NOW: i64 = 1_700_000_000;

fn names(list: &[&str]) -> Vec<String> {
    list.iter().map(|n| n.to_string()).collect()
}

fn ip(n: u32) -> IpAddress {
    IpAddress {
        is_v6: false,
        bits: n as u128,
    }
}

fn new_poll(store: &mut PollStore, title: &str, kind: PollType, options: &[&str]) -> i64 {
    let (poll, _) = store
        .create_poll_with_options(title.to_string(), kind, None, None, names(options), NOW)
        .expect("poll creation should succeed");
    poll.id
}

#[test]
fn create_poll_persists_three_options() {
    let mut store = PollStore::new();
    let (poll, options) = store
        .create_poll_with_options(
            "favourite letter".to_string(),
            PollType::Multiple,
            None,
            None,
            names(&["A", "B", "C"]),
            NOW,
        )
        .expect("creation should succeed");
    assert_eq!(options.len(), 3);
    for option in &options {
        assert_eq!(option.poll_id, poll.id);
    }
    assert_eq!(options[0].name, "A");
    assert_eq!(options[1].name, "B");
    assert_eq!(options[2].name, "C");
    let fetched = store.get_poll(poll.id).expect("poll should be readable");
    assert_eq!(fetched.title, "favourite letter");
    assert_eq!(fetched.created_at, NOW);
    for option in &options {
        let row = store.get_option(option.id).expect("option should be readable");
        assert_eq!(row.poll_id, poll.id);
    }
}

#[test]
fn create_applies_default_timestamps() {
    let mut store = PollStore::new();
    let (poll, _) = store
        .create_poll_with_options(
            "defaults".to_string(),
            PollType::Single,
            None,
            None,
            names(&["a", "b"]),
            NOW,
        )
        .unwrap();
    assert_eq!(poll.timeout_at, NOW + DEFAULT_EXPIRY_SECONDS);
    assert_eq!(poll.delete_at, NOW + DEFAULT_EXPIRY_SECONDS);
}

#[test]
fn create_keeps_explicit_timestamps() {
    let mut store = PollStore::new();
    let (poll, _) = store
        .create_poll_with_options(
            "explicit".to_string(),
            PollType::Single,
            Some(NOW + 60),
            Some(NOW + 120),
            names(&["a", "b"]),
            NOW,
        )
        .unwrap();
    assert_eq!(poll.timeout_at, NOW + 60);
    assert_eq!(poll.delete_at, NOW + 120);
}

#[test]
fn rejected_creation_leaves_store_unchanged() {
    let mut store = PollStore::new();
    new_poll(&mut store, "existing", PollType::Single, &["a", "b"]);
    let polls_before = store.list_polls().len();
    let result = store.create_poll_with_options(
        "broken".to_string(),
        PollType::Single,
        None,
        None,
        names(&["x", "x"]),
        NOW,
    );
    assert_eq!(result.err(), Some(ValidationError::DuplicateOptionNames));
    assert_eq!(store.list_polls().len(), polls_before);
    let result = store.create_poll_with_options(
        "".to_string(),
        PollType::Single,
        None,
        None,
        names(&["a", "b"]),
        NOW,
    );
    assert_eq!(result.err(), Some(ValidationError::EmptyTitle));
    assert_eq!(store.list_polls().len(), polls_before);
    let result = store.create_poll_with_options(
        "past timeout".to_string(),
        PollType::Single,
        Some(NOW - 1),
        None,
        names(&["a", "b"]),
        NOW,
    );
    assert_eq!(result.err(), Some(ValidationError::TimeoutInPast));
    assert_eq!(store.list_polls().len(), polls_before);
}

#[test]
fn single_poll_allows_one_vote_per_voter() {
    let mut store = PollStore::new();
    let (_, options) = store
        .create_poll_with_options(
            "lunch".to_string(),
            PollType::Single,
            None,
            None,
            names(&["O1", "O2"]),
            NOW,
        )
        .unwrap();
    let o1 = options[0].id;
    let o2 = options[1].id;
    let voter = ip(0xC0A8_0001);

    let vote = store.check_and_cast(o1, voter, NOW).expect("first vote succeeds");
    assert_eq!(vote.option_id, o1);
    assert_eq!(vote.ip_address, voter);

    assert_eq!(
        store.check_and_cast(o1, voter, NOW + 1),
        Err(VoteError::AlreadyVoted)
    );
    assert_eq!(
        store.check_and_cast(o2, voter, NOW + 2),
        Err(VoteError::MultipleVotesNotAllowed)
    );
}

#[test]
fn multiple_poll_allows_one_vote_per_option() {
    let mut store = PollStore::new();
    let (_, options) = store
        .create_poll_with_options(
            "toppings".to_string(),
            PollType::Multiple,
            None,
            None,
            names(&["O1", "O2"]),
            NOW,
        )
        .unwrap();
    let o1 = options[0].id;
    let o2 = options[1].id;
    let voter = ip(0xC0A8_0001);

    assert!(store.check_and_cast(o1, voter, NOW).is_ok());
    assert!(store.check_and_cast(o2, voter, NOW + 1).is_ok());
    assert_eq!(
        store.check_and_cast(o1, voter, NOW + 2),
        Err(VoteError::AlreadyVoted)
    );
}

#[test]
fn distinct_voters_are_independent() {
    let mut store = PollStore::new();
    let (_, options) = store
        .create_poll_with_options(
            "quorum".to_string(),
            PollType::Single,
            None,
            None,
            names(&["O1", "O2"]),
            NOW,
        )
        .unwrap();
    let o1 = options[0].id;
    assert!(store.check_and_cast(o1, ip(1), NOW).is_ok());
    assert!(store.check_and_cast(o1, ip(2), NOW).is_ok());
    assert_eq!(store.check_and_cast(o1, ip(1), NOW), Err(VoteError::AlreadyVoted));
}

#[test]
fn vote_for_unknown_option_is_not_found() {
    let mut store = PollStore::new();
    assert_eq!(
        store.check_and_cast(42, ip(1), NOW),
        Err(VoteError::NoSuchOption)
    );
}

#[test]
fn vote_reasons() {
    assert_eq!(VoteError::NoSuchOption.reason(), "no such poll option");
    assert_eq!(
        VoteError::AlreadyVoted.reason(),
        "you have already voted for this option"
    );
    assert_eq!(
        VoteError::MultipleVotesNotAllowed.reason(),
        "poll does not allow multiple votes"
    );
}

#[test]
fn poll_counts_tally_votes_per_option() {
    let mut store = PollStore::new();
    let (poll, options) = store
        .create_poll_with_options(
            "tally".to_string(),
            PollType::Multiple,
            None,
            None,
            names(&["A", "B"]),
            NOW,
        )
        .unwrap();
    let a = options[0].id;
    let b = options[1].id;
    store.check_and_cast(a, ip(1), NOW).unwrap();
    store.check_and_cast(a, ip(2), NOW).unwrap();
    store.check_and_cast(b, ip(1), NOW).unwrap();

    let counts = store.retrieve_poll_counts(poll.id);
    assert_eq!(counts.len(), 2);
    assert_eq!(counts[0].option_id, a);
    assert_eq!(counts[0].option_name, "A");
    assert_eq!(counts[0].count, 2);
    assert_eq!(counts[1].option_id, b);
    assert_eq!(counts[1].count, 1);
    for entry in &counts {
        assert_eq!(entry.poll_id, poll.id);
    }
}

#[test]
fn votes_by_voter_and_option_are_filtered() {
    let mut store = PollStore::new();
    let (_, options) = store
        .create_poll_with_options(
            "filtered".to_string(),
            PollType::Multiple,
            None,
            None,
            names(&["A", "B"]),
            NOW,
        )
        .unwrap();
    let a = options[0].id;
    let b = options[1].id;
    store.check_and_cast(a, ip(1), NOW).unwrap();
    store.check_and_cast(b, ip(1), NOW + 1).unwrap();
    store.check_and_cast(a, ip(2), NOW + 2).unwrap();

    let votes = store.get_votes_by_voter_and_option(ip(1), a);
    assert_eq!(votes.len(), 1);
    assert_eq!(votes[0].option_id, a);
    assert_eq!(votes[0].ip_address, ip(1));
    assert_eq!(votes[0].created_at, NOW);
    assert!(store.get_votes_by_voter_and_option(ip(3), a).is_empty());
}

#[test]
fn counts_for_unknown_poll_are_empty() {
    let store = PollStore::new();
    assert!(store.retrieve_poll_counts(7).is_empty());
    assert!(store.get_poll_votes(7).is_none());
}

#[test]
fn sweeper_removes_expired_poll_and_cascade() {
    let mut store = PollStore::new();
    let (doomed, doomed_options) = store
        .create_poll_with_options(
            "doomed".to_string(),
            PollType::Single,
            Some(NOW + 10),
            Some(NOW + 10),
            names(&["D1", "D2"]),
            NOW,
        )
        .unwrap();
    let (kept, kept_options) = store
        .create_poll_with_options(
            "kept".to_string(),
            PollType::Single,
            Some(NOW + 1000),
            Some(NOW + 1000),
            names(&["K1", "K2"]),
            NOW,
        )
        .unwrap();
    store.check_and_cast(doomed_options[0].id, ip(1), NOW).unwrap();
    store.check_and_cast(kept_options[0].id, ip(1), NOW).unwrap();

    let removed = store.delete_expired_polls(NOW + 10);
    assert_eq!(removed, 1);

    assert!(store.get_poll(doomed.id).is_none());
    for option in &doomed_options {
        assert!(store.get_option(option.id).is_none());
    }
    assert!(store.get_poll_votes(doomed.id).is_none());
    assert_eq!(store.list_polls().len(), 1);

    let survivor = store.get_poll(kept.id).expect("future poll untouched");
    assert_eq!(survivor.title, "kept");
    for option in &kept_options {
        assert!(store.get_option(option.id).is_some());
    }
    let counts = store.get_poll_votes(kept.id).expect("tallies survive");
    assert_eq!(counts[0].count, 1);
}

#[test]
fn sweeper_ignores_future_polls() {
    let mut store = PollStore::new();
    new_poll(&mut store, "later", PollType::Single, &["a", "b"]);
    let removed = store.delete_expired_polls(NOW);
    assert_eq!(removed, 0);
    assert_eq!(store.list_polls().len(), 1);
}

#[test]
fn sweeper_is_idempotent() {
    let mut store = PollStore::new();
    store
        .create_poll_with_options(
            "short lived".to_string(),
            PollType::Single,
            Some(NOW + 1),
            Some(NOW + 1),
            names(&["a", "b"]),
            NOW,
        )
        .unwrap();
    let first = store.delete_expired_polls(NOW + 5);
    assert_eq!(first, 1);
    let second = store.delete_expired_polls(NOW + 5);
    assert_eq!(second, 0);
    assert!(store.list_polls().is_empty());
}

#[test]
fn ids_are_not_reused_after_sweep() {
    let mut store = PollStore::new();
    store
        .create_poll_with_options(
            "first".to_string(),
            PollType::Single,
            Some(NOW + 1),
            Some(NOW + 1),
            names(&["a", "b"]),
            NOW,
        )
        .unwrap();
    store.delete_expired_polls(NOW + 5);
    let id = new_poll(&mut store, "second", PollType::Single, &["c", "d"]);
    assert_eq!(id, 2);
}
