//! The API index: the absolute endpoint URLs the service advertises,
//! built once from its origin at startup and passed around by
//! reference rather than kept in ambient global state.

use vstd::prelude::*;

verus! {

/// The two endpoint URLs clients are pointed at.
pub struct ApiIndex {
    pub polls: String,
    pub poll_options: String,
}

/// Builds the endpoint URLs from an origin such as
/// `http://127.0.0.1:1337/` (trailing slash included).
pub fn get_api_index(origin: &str) -> (r: ApiIndex)
    ensures
        r.polls@ == origin@ + "polls"@,
        r.poll_options@ == origin@ + "poll-options"@,
{
    let polls = String::from_str(origin).concat("polls");
    let poll_options = String::from_str(origin).concat("poll-options");
    ApiIndex { polls, poll_options }
}

} // verus!
