use poll_engine::api::get_api_index;
use poll_engine::graph::{color_index, max_vote_count};
use poll_engine::models::{IpAddress, PollType};
use poll_engine::store::PollStore;

#[test]
fn palette_cycles_every_six_bars() {
    assert_eq!(color_index(0), 0);
    assert_eq!(color_index(5), 5);
    assert_eq!(color_index(6), 0);
    assert_eq!(color_index(13), 1);
}

#[test]
fn max_count_of_no_bars_is_zero() {
    assert_eq!(max_vote_count(&Vec::new()), 0);
}

#[test]
fn max_count_over_tallies() {
    let mut store = PollStore::new();
    let (poll, options) = store
        .create_poll_with_options(
            "busy".to_string(),
            PollType::Multiple,
            None,
            None,
            vec!["A".to_string(), "B".to_string()],
            1_700_000_000,
        )
        .unwrap();
    let voter = |n: u32| IpAddress {
        is_v6: false,
        bits: n as u128,
    };
    store.check_and_cast(options[0].id, voter(1), 1_700_000_000).unwrap();
    store.check_and_cast(options[0].id, voter(2), 1_700_000_000).unwrap();
    store.check_and_cast(options[1].id, voter(1), 1_700_000_000).unwrap();
    let counts = store.retrieve_poll_counts(poll.id);
    assert_eq!(max_vote_count(&counts), 2);
}

#[test]
fn api_index_urls() {
    let index = get_api_index("http://127.0.0.1:1337/");
    assert_eq!(index.polls, "http://127.0.0.1:1337/polls");
    assert_eq!(index.poll_options, "http://127.0.0.1:1337/poll-options");
}
