//! The poll repository: an in-memory store of polls, options and votes
//! with the transactional semantics the engine relies on — creation of a
//! poll with its options is all-or-nothing, votes are append-only, and
//! the expiry sweep cascades from a poll to its options and their votes.
//!
//! A process that keeps its rows elsewhere can treat this store as the
//! reference semantics: every operation states exactly how it reads or
//! rewrites the three tables.

use vstd::prelude::*;

use crate::expiry::DEFAULT_EXPIRY_SECONDS;
use crate::expiry::resolve;
use crate::expiry::spec_resolve;
use crate::models::IpAddress;
use crate::models::Poll;
use crate::models::PollCount;
use crate::models::PollOption;
use crate::models::PollType;
use crate::models::PollVote;
use crate::models::ValidationError;
use crate::models::VoteError;
use crate::validate::are_poll_options_valid;
use crate::validate::has_duplicate_option;
use crate::validate::spec_validate_options;

verus! {

/// Some poll row carries this id.
pub open spec fn has_poll(polls: Seq<Poll>, id: i64) -> bool {
    exists|i: int| 0 <= i < polls.len() && polls[i].id == id
}

/// The poll row carrying `id` (meaningful under `has_poll` and unique
/// ids).
pub open spec fn poll_by_id(polls: Seq<Poll>, id: i64) -> Poll {
    polls[choose|i: int| 0 <= i < polls.len() && polls[i].id == id]
}

/// Some option row carries this id.
pub open spec fn has_option(options: Seq<PollOption>, id: i64) -> bool {
    exists|i: int| 0 <= i < options.len() && options[i].id == id
}

/// The option row carrying `id` (meaningful under `has_option` and
/// unique ids).
pub open spec fn option_by_id(options: Seq<PollOption>, id: i64) -> PollOption {
    options[choose|i: int| 0 <= i < options.len() && options[i].id == id]
}

/// Some option row carries this id and belongs to this poll.
pub open spec fn option_in_poll(options: Seq<PollOption>, option_id: i64, poll_id: i64) -> bool {
    exists|i: int|
        0 <= i < options.len() && options[i].id == option_id && options[i].poll_id == poll_id
}

/// Holds of a vote this voter cast for this option.
pub open spec fn vote_match_pred(ip: IpAddress, option_id: i64) -> spec_fn(PollVote) -> bool {
    |v: PollVote| v.option_id == option_id && v.ip_address == ip
}

/// The votes this voter has cast for this option, in insertion order.
pub open spec fn votes_for(votes: Seq<PollVote>, ip: IpAddress, option_id: i64) -> Seq<PollVote> {
    votes.filter(vote_match_pred(ip, option_id))
}

/// This voter already holds a vote for this exact option.
pub open spec fn has_voted_for_option(votes: Seq<PollVote>, ip: IpAddress, option_id: i64) -> bool {
    exists|i: int|
        0 <= i < votes.len() && votes[i].option_id == option_id && votes[i].ip_address == ip
}

/// This voter already holds a vote for some option of this poll.
pub open spec fn has_voted_in_poll(
    options: Seq<PollOption>,
    votes: Seq<PollVote>,
    ip: IpAddress,
    poll_id: i64,
) -> bool {
    exists|i: int|
        0 <= i < votes.len() && votes[i].ip_address == ip && option_in_poll(
            options,
            votes[i].option_id,
            poll_id,
        )
}

/// Holds of an option owned by this poll.
pub open spec fn owned_by_pred(poll_id: i64) -> spec_fn(PollOption) -> bool {
    |o: PollOption| o.poll_id == poll_id
}

/// The options belonging to this poll, in insertion order.
pub open spec fn options_of_poll(options: Seq<PollOption>, poll_id: i64) -> Seq<PollOption> {
    options.filter(owned_by_pred(poll_id))
}

/// Holds of a vote aimed at this option.
pub open spec fn vote_on_pred(option_id: i64) -> spec_fn(PollVote) -> bool {
    |v: PollVote| v.option_id == option_id
}

/// How many votes this option has collected.
pub open spec fn vote_count_for_option(votes: Seq<PollVote>, option_id: i64) -> nat {
    votes.filter(vote_on_pred(option_id)).len()
}

/// Some poll row carries this id and its deletion time has passed.
pub open spec fn poll_expired(polls: Seq<Poll>, id: i64, now: i64) -> bool {
    exists|i: int| 0 <= i < polls.len() && polls[i].id == id && polls[i].delete_at <= now
}

/// Some option row carries this id and belongs to an expired poll.
pub open spec fn option_expired(polls: Seq<Poll>, options: Seq<PollOption>, id: i64, now: i64) -> bool {
    exists|i: int|
        0 <= i < options.len() && options[i].id == id && poll_expired(
            polls,
            options[i].poll_id,
            now,
        )
}

/// Holds of a poll the sweep leaves in place.
pub open spec fn live_poll_pred(now: i64) -> spec_fn(Poll) -> bool {
    |p: Poll| p.delete_at > now
}

/// The polls a sweep at `now` leaves in place, in their original order.
pub open spec fn live_polls(polls: Seq<Poll>, now: i64) -> Seq<Poll> {
    polls.filter(live_poll_pred(now))
}

/// Holds of an option the sweep leaves in place.
pub open spec fn live_option_pred(polls: Seq<Poll>, now: i64) -> spec_fn(PollOption) -> bool {
    |o: PollOption| !poll_expired(polls, o.poll_id, now)
}

/// The options a sweep at `now` leaves in place: those not owned by an
/// expired poll.
pub open spec fn surviving_options(polls: Seq<Poll>, options: Seq<PollOption>, now: i64) -> Seq<
    PollOption,
> {
    options.filter(live_option_pred(polls, now))
}

/// Holds of a vote the sweep leaves in place.
pub open spec fn live_vote_pred(polls: Seq<Poll>, options: Seq<PollOption>, now: i64) -> spec_fn(
    PollVote,
) -> bool {
    |v: PollVote| !option_expired(polls, options, v.option_id, now)
}

/// The votes a sweep at `now` leaves in place: those not aimed at an
/// option of an expired poll.
pub open spec fn surviving_votes(
    polls: Seq<Poll>,
    options: Seq<PollOption>,
    votes: Seq<PollVote>,
    now: i64,
) -> Seq<PollVote> {
    votes.filter(live_vote_pred(polls, options, now))
}

/// Every element a filter keeps appears in the sequence it was taken
/// from.
proof fn lemma_filter_subset<A>(s: Seq<A>, pred: spec_fn(A) -> bool)
    ensures
        forall|i: int| 0 <= i < s.filter(pred).len() ==> s.contains(#[trigger] s.filter(pred)[i]),
    decreases s.len(),
{
    reveal(Seq::filter);
    if s.len() != 0 {
        let t = s.drop_last();
        lemma_filter_subset(t, pred);
        assert forall|i: int| 0 <= i < s.filter(pred).len() implies s.contains(
            #[trigger] s.filter(pred)[i],
        ) by {
            let ft = t.filter(pred);
            if i < ft.len() {
                assert(s.filter(pred)[i] == ft[i]);
                assert(t.contains(ft[i]));
                let w = choose|w: int| 0 <= w < t.len() && t[w] == ft[i];
                assert(s[w] == ft[i]);
            } else {
                assert(s.filter(pred)[i] == s.last());
                assert(s[s.len() - 1] == s.last());
            }
        }
    }
}

/// A filter keeps pairwise distinct keys pairwise distinct.
proof fn lemma_filter_distinct_keys<A>(s: Seq<A>, pred: spec_fn(A) -> bool, key: spec_fn(A) -> i64)
    requires
        forall|a: int, b: int| 0 <= a < b < s.len() ==> key(s[a]) != key(s[b]),
    ensures
        forall|a: int, b: int|
            0 <= a < b < s.filter(pred).len() ==> key(s.filter(pred)[a]) != key(s.filter(pred)[b]),
    decreases s.len(),
{
    reveal(Seq::filter);
    if s.len() != 0 {
        let t = s.drop_last();
        assert forall|a: int, b: int| 0 <= a < b < t.len() implies key(t[a]) != key(t[b]) by {
            assert(t[a] == s[a]);
            assert(t[b] == s[b]);
        }
        lemma_filter_distinct_keys(t, pred, key);
        lemma_filter_subset(t, pred);
        let ft = t.filter(pred);
        assert forall|a: int, b: int| 0 <= a < b < s.filter(pred).len() implies key(
            s.filter(pred)[a],
        ) != key(s.filter(pred)[b]) by {
            assert(s.filter(pred)[a] == ft[a]);
            if b < ft.len() {
                assert(s.filter(pred)[b] == ft[b]);
            } else {
                assert(s.filter(pred)[b] == s.last());
                assert(t.contains(ft[a]));
                let w = choose|w: int| 0 <= w < t.len() && t[w] == ft[a];
                assert(s[w] == ft[a]);
                assert(key(s[w]) != key(s[s.len() - 1]));
            }
        }
    }
}

/// A filter whose predicate holds everywhere keeps the sequence as it
/// is.
proof fn lemma_filter_all<A>(s: Seq<A>, pred: spec_fn(A) -> bool)
    requires
        forall|i: int| 0 <= i < s.len() ==> pred(#[trigger] s[i]),
    ensures
        s.filter(pred) == s,
    decreases s.len(),
{
    reveal(Seq::filter);
    if s.len() == 0 {
        assert(s.filter(pred) =~= s);
    } else {
        let t = s.drop_last();
        assert forall|i: int| 0 <= i < t.len() implies pred(#[trigger] t[i]) by {
            assert(t[i] == s[i]);
        }
        lemma_filter_all(t, pred);
        assert(pred(s[s.len() - 1]));
        assert(s.filter(pred) =~= s);
    }
}

/// The stored timestamp: the override when present, else thirty minutes
/// past the creation time (the stored default).
pub open spec fn stored_or_default(now: i64, override_at: Option<i64>) -> int {
    match override_at {
        Some(x) => x as int,
        None => now + 1800,
    }
}

/// What a whole poll-creation request is rejected with, if anything:
/// an empty title first, then the expiry policy, then the option-set
/// validator. First failure wins.
pub open spec fn spec_validate_request(
    title: Seq<char>,
    now: i64,
    timeout_override: Option<i64>,
    delete_override: Option<i64>,
    opts: Seq<String>,
) -> Result<(), ValidationError> {
    if title.len() == 0 {
        Err(ValidationError::EmptyTitle)
    } else if spec_resolve(now, timeout_override, delete_override) is Err {
        Err(spec_resolve(now, timeout_override, delete_override)->Err_0)
    } else if spec_validate_options(opts) is Err {
        Err(spec_validate_options(opts)->Err_0)
    } else {
        Ok(())
    }
}

/// The store: three tables plus the id sequences the next rows will be
/// numbered from. Ids are assigned from 1 upward and never reused.
pub struct PollStore {
    pub polls: Vec<Poll>,
    pub options: Vec<PollOption>,
    pub votes: Vec<PollVote>,
    pub next_poll_id: i64,
    pub next_option_id: i64,
    pub next_vote_id: i64,
}

impl PollStore {
    /// Well-formedness of the poll table: ids positive, unique, and
    /// below the id sequence.
    pub open spec fn polls_wf(self) -> bool {
        &&& forall|i: int, j: int|
            0 <= i < j < self.polls@.len() ==> self.polls@[i].id != self.polls@[j].id
        &&& forall|i: int|
            0 <= i < self.polls@.len() ==> 0 < #[trigger] self.polls@[i].id < self.next_poll_id
    }

    /// Well-formedness of the option table: ids positive, unique and
    /// below the id sequence; every option owned by an existing poll;
    /// names unique within one poll.
    pub open spec fn options_wf(self) -> bool {
        &&& forall|i: int, j: int|
            0 <= i < j < self.options@.len() ==> self.options@[i].id != self.options@[j].id
        &&& forall|i: int|
            0 <= i < self.options@.len() ==> 0 < #[trigger] self.options@[i].id
                < self.next_option_id
        &&& forall|i: int|
            0 <= i < self.options@.len() ==> has_poll(
                self.polls@,
                #[trigger] self.options@[i].poll_id,
            )
        &&& forall|i: int, j: int|
            0 <= i < j < self.options@.len() && self.options@[i].poll_id
                == self.options@[j].poll_id ==> self.options@[i].name@ != self.options@[j].name@
    }

    /// Well-formedness of the vote table: ids positive, unique and below
    /// the id sequence; every vote aimed at an existing option.
    pub open spec fn votes_wf(self) -> bool {
        &&& forall|i: int, j: int|
            0 <= i < j < self.votes@.len() ==> self.votes@[i].id != self.votes@[j].id
        &&& forall|i: int|
            0 <= i < self.votes@.len() ==> 0 < #[trigger] self.votes@[i].id < self.next_vote_id
        &&& forall|i: int|
            0 <= i < self.votes@.len() ==> has_option(
                self.options@,
                #[trigger] self.votes@[i].option_id,
            )
    }

    /// The store's invariant: every constructor establishes it and every
    /// operation preserves it.
    pub open spec fn wf(self) -> bool {
        &&& self.polls_wf()
        &&& self.options_wf()
        &&& self.votes_wf()
        &&& 1 <= self.next_poll_id
        &&& 1 <= self.next_option_id
        &&& 1 <= self.next_vote_id
    }

    /// An empty store; ids will be assigned from 1.
    pub fn new() -> (s: PollStore)
        ensures
            s.wf(),
            s.polls@.len() == 0,
            s.options@.len() == 0,
            s.votes@.len() == 0,
            s.next_poll_id == 1,
            s.next_option_id == 1,
            s.next_vote_id == 1,
    {
        PollStore {
            polls: Vec::new(),
            options: Vec::new(),
            votes: Vec::new(),
            next_poll_id: 1,
            next_option_id: 1,
            next_vote_id: 1,
        }
    }

    /// All poll rows, in creation order.
    pub fn list_polls(&self) -> (r: &Vec<Poll>)
        ensures
            r@ == self.polls@,
    {
        &self.polls
    }

    /// The poll row with this id, if any.
    pub fn get_poll(&self, id: i64) -> (r: Option<&Poll>)
        requires
            self.wf(),
        ensures
            match r {
                Some(p) => has_poll(self.polls@, id) && p.id == id && *p == poll_by_id(
                    self.polls@,
                    id,
                ),
                None => !has_poll(self.polls@, id),
            },
    {
        let n = self.polls.len();
        let mut i: usize = 0;
        while i < n
            invariant
                self.wf(),
                n == self.polls@.len(),
                0 <= i <= n,
                forall|k: int| 0 <= k < i ==> #[trigger] self.polls@[k].id != id,
            decreases n - i,
        {
            if self.polls[i].id == id {
                proof {
                    let wi = i as int;
                    assert(0 <= wi < self.polls@.len() && self.polls@[wi].id == id);
                    let ci = choose|k: int|
                        0 <= k < self.polls@.len() && self.polls@[k].id == id;
                    if ci != wi {
                        assert(self.polls@[ci].id != self.polls@[wi].id);
                    }
                }
                return Some(&self.polls[i]);
            }
            i += 1;
        }
        None
    }

    /// Validates a poll-creation request and, if it passes, inserts the
    /// poll row and all its option rows as one atomic step: on any
    /// rejection the store is exactly as it was, and readers never see
    /// the poll without its options. Returns the created rows.
    pub fn create_poll_with_options(
        &mut self,
        title: String,
        poll_type: PollType,
        timeout_override: Option<i64>,
        delete_override: Option<i64>,
        option_names: Vec<String>,
        now: i64,
    ) -> (r: Result<(Poll, Vec<PollOption>), ValidationError>)
        requires
            old(self).wf(),
            now + DEFAULT_EXPIRY_SECONDS <= i64::MAX,
            old(self).next_poll_id < i64::MAX,
            old(self).next_option_id <= i64::MAX - 10,
        ensures
            final(self).wf(),
            r is Err <==> spec_validate_request(
                title@,
                now,
                timeout_override,
                delete_override,
                option_names@,
            ) is Err,
            r is Err ==> r->Err_0 == spec_validate_request(
                title@,
                now,
                timeout_override,
                delete_override,
                option_names@,
            )->Err_0 && *final(self) == *old(self),
            r is Ok ==> r->Ok_0.0.id == old(self).next_poll_id && r->Ok_0.0.title@ == title@
                && r->Ok_0.0.poll_type == poll_type && r->Ok_0.0.created_at == now
                && r->Ok_0.0.timeout_at == stored_or_default(now, timeout_override)
                && r->Ok_0.0.delete_at == stored_or_default(now, delete_override),
            r is Ok ==> r->Ok_0.1@.len() == option_names@.len() && forall|i: int|
                0 <= i < option_names@.len() ==> #[trigger] r->Ok_0.1@[i].id == old(
                    self,
                ).next_option_id + i && r->Ok_0.1@[i].poll_id == old(self).next_poll_id
                    && r->Ok_0.1@[i].name@ == option_names@[i]@,
            r is Ok ==> final(self).polls@ == old(self).polls@.push(r->Ok_0.0)
                && final(self).options@ == old(self).options@ + r->Ok_0.1@
                && final(self).votes@ == old(self).votes@,
            r is Ok ==> final(self).next_poll_id == old(self).next_poll_id + 1
                && final(self).next_option_id == old(self).next_option_id + option_names@.len()
                && final(self).next_vote_id == old(self).next_vote_id,
    {
        if title.as_str().is_empty() {
            return Err(ValidationError::EmptyTitle);
        }
        if let Err(e) = resolve(now, timeout_override, delete_override) {
            return Err(e);
        }
        if let Err(e) = are_poll_options_valid(&option_names) {
            return Err(e);
        }
        let poll_id = self.next_poll_id;
        let timeout_at = match timeout_override {
            Some(t) => t,
            None => now + DEFAULT_EXPIRY_SECONDS,
        };
        let delete_at = match delete_override {
            Some(d) => d,
            None => now + DEFAULT_EXPIRY_SECONDS,
        };
        let ret_poll = Poll { id: poll_id, title, poll_type, created_at: now, timeout_at, delete_at };
        let ghost gpoll = ret_poll;
        let stored_poll = Poll {
            id: poll_id,
            title: ret_poll.title.clone(),
            poll_type,
            created_at: now,
            timeout_at,
            delete_at,
        };
        proof {
            assert(stored_poll == gpoll);
        }
        self.polls.push(stored_poll);
        self.next_poll_id = poll_id + 1;
        let mut created: Vec<PollOption> = Vec::new();
        let n = option_names.len();
        let ghost opts_start = self.next_option_id as int;
        proof {
            assert(self.options@ =~= old(self).options@ + created@);
        }
        let mut i: usize = 0;
        while i < n
            invariant
                n == option_names@.len(),
                0 <= i <= n,
                created@.len() == i,
                opts_start == old(self).next_option_id,
                self.next_option_id == opts_start + i,
                n <= 10,
                opts_start + n <= i64::MAX,
                1 <= opts_start,
                self.options@ == old(self).options@ + created@,
                forall|k: int|
                    0 <= k < i ==> #[trigger] created@[k].id == opts_start + k
                        && created@[k].poll_id == old(self).next_poll_id && created@[k].name@
                        == option_names@[k]@,
                self.polls@ == old(self).polls@.push(gpoll),
                gpoll.id == old(self).next_poll_id,
                self.votes@ == old(self).votes@,
                self.next_poll_id == old(self).next_poll_id + 1,
                self.next_vote_id == old(self).next_vote_id,
                old(self).wf(),
                old(self).next_poll_id < i64::MAX,
                poll_id == old(self).next_poll_id,
            decreases n - i,
        {
            let oid = self.next_option_id;
            let name = option_names[i].clone();
            self.options.push(PollOption { id: oid, name: name.clone(), poll_id });
            created.push(PollOption { id: oid, name, poll_id });
            self.next_option_id = oid + 1;
            i += 1;
            proof {
                assert(self.options@ =~= old(self).options@ + created@);
            }
        }
        proof {
            self.lemma_create_preserves_wf(*old(self), gpoll, created@, option_names@);
        }
        Ok((ret_poll, created))
    }

    /// Appending one fresh poll row and its fresh option rows to a
    /// well-formed store keeps it well-formed.
    proof fn lemma_create_preserves_wf(
        self,
        pre: PollStore,
        new_poll: Poll,
        created: Seq<PollOption>,
        names: Seq<String>,
    )
        requires
            pre.wf(),
            spec_validate_options(names) is Ok,
            new_poll.id == pre.next_poll_id,
            self.polls@ == pre.polls@.push(new_poll),
            self.options@ == pre.options@ + created,
            self.votes@ == pre.votes@,
            created.len() == names.len(),
            forall|k: int|
                0 <= k < created.len() ==> #[trigger] created[k].id == pre.next_option_id + k
                    && created[k].poll_id == pre.next_poll_id && created[k].name@ == names[k]@,
            self.next_poll_id == pre.next_poll_id + 1,
            self.next_option_id == pre.next_option_id + created.len(),
            self.next_vote_id == pre.next_vote_id,
            pre.next_poll_id < i64::MAX,
            pre.next_option_id + created.len() <= i64::MAX,
        ensures
            self.wf(),
    {
        let p0 = pre.polls@;
        let p1 = self.polls@;
        let o0 = pre.options@;
        let o1 = self.options@;
        assert forall|a: int, b: int| 0 <= a < b < p1.len() implies p1[a].id != p1[b].id by {
            if b < p0.len() {
            } else {
                assert(p1[b] == new_poll);
                assert(0 < p0[a].id < pre.next_poll_id);
            }
        }
        assert forall|a: int| 0 <= a < p1.len() implies 0 < #[trigger] p1[a].id
            < self.next_poll_id by {
            if a < p0.len() {
                assert(0 < p0[a].id < pre.next_poll_id);
            }
        }
        assert forall|a: int, b: int| 0 <= a < b < o1.len() implies o1[a].id != o1[b].id by {
            if b < o0.len() {
            } else if a < o0.len() {
                assert(0 < o0[a].id < pre.next_option_id);
                assert(o1[b] == created[b - o0.len()]);
            } else {
                assert(o1[a] == created[a - o0.len()]);
                assert(o1[b] == created[b - o0.len()]);
            }
        }
        assert forall|a: int| 0 <= a < o1.len() implies 0 < #[trigger] o1[a].id
            < self.next_option_id by {
            if a < o0.len() {
                assert(0 < o0[a].id < pre.next_option_id);
            } else {
                assert(o1[a] == created[a - o0.len()]);
            }
        }
        assert forall|a: int| 0 <= a < o1.len() implies has_poll(
            p1,
            #[trigger] o1[a].poll_id,
        ) by {
            if a < o0.len() {
                assert(o1[a] == o0[a]);
                let pid = o0[a].poll_id;
                assert(has_poll(p0, pid));
                let w = choose|i: int| 0 <= i < p0.len() && p0[i].id == pid;
                assert(0 <= w < p0.len() && p0[w].id == pid);
                assert(p0.push(new_poll)[w] == p0[w]);
                assert(p1.len() == p0.len() + 1);
                assert(p1[w] == p0[w]);
                assert(p1[w].id == o1[a].poll_id);
                assert(has_poll(p1, o1[a].poll_id));
            } else {
                assert(o1[a] == created[a - o0.len()]);
                assert(created[a - o0.len()].id == pre.next_option_id + (a - o0.len()));
                let w = p0.len() as int;
                assert(p0.push(new_poll)[w] == new_poll);
                assert(p1.len() == p0.len() + 1);
                assert(p1[w] == new_poll);
                assert(p1[w].id == o1[a].poll_id);
                assert(has_poll(p1, o1[a].poll_id));
            }
        }
        assert forall|a: int, b: int|
            0 <= a < b < o1.len() && o1[a].poll_id == o1[b].poll_id implies o1[a].name@
            != o1[b].name@ by {
            if b < o0.len() {
            } else if a < o0.len() {
                assert(has_poll(p0, o0[a].poll_id));
                let w = choose|w: int| 0 <= w < p0.len() && p0[w].id == o0[a].poll_id;
                assert(p0[w].id < pre.next_poll_id);
                assert(o1[b] == created[b - o0.len()]);
            } else {
                let ka = a - o0.len();
                let kb = b - o0.len();
                assert(o1[a] == created[ka]);
                assert(o1[b] == created[kb]);
                assert(created[ka].id == pre.next_option_id + ka);
                assert(created[kb].id == pre.next_option_id + kb);
                if names[ka]@ == names[kb]@ {
                    assert(0 <= ka < kb < names.len() && names[ka]@ == names[kb]@);
                    assert(has_duplicate_option(names));
                }
            }
        }
        assert forall|a: int| 0 <= a < self.votes@.len() implies has_option(
            o1,
            #[trigger] self.votes@[a].option_id,
        ) by {
            assert(has_option(o0, pre.votes@[a].option_id));
            let w = choose|w: int| 0 <= w < o0.len() && o0[w].id == pre.votes@[a].option_id;
            assert(o1[w].id == self.votes@[a].option_id);
        }
    }

    /// The option row with this id, if any.
    pub fn get_option(&self, id: i64) -> (r: Option<&PollOption>)
        requires
            self.wf(),
        ensures
            match r {
                Some(o) => has_option(self.options@, id) && o.id == id && *o == option_by_id(
                    self.options@,
                    id,
                ),
                None => !has_option(self.options@, id),
            },
    {
        let n = self.options.len();
        let mut i: usize = 0;
        while i < n
            invariant
                self.wf(),
                n == self.options@.len(),
                0 <= i <= n,
                forall|k: int| 0 <= k < i ==> #[trigger] self.options@[k].id != id,
            decreases n - i,
        {
            if self.options[i].id == id {
                proof {
                    let wi = i as int;
                    assert(0 <= wi < self.options@.len() && self.options@[wi].id == id);
                    let ci = choose|k: int|
                        0 <= k < self.options@.len() && self.options@[k].id == id;
                    if ci != wi {
                        assert(self.options@[ci].id != self.options@[wi].id);
                    }
                }
                return Some(&self.options[i]);
            }
            i += 1;
        }
        None
    }
    /// Under unique ids, the poll row found at an index is the row
    /// `poll_by_id` names.
    proof fn lemma_poll_at_index(polls: Seq<Poll>, i: int)
        requires
            0 <= i < polls.len(),
            forall|a: int, b: int| 0 <= a < b < polls.len() ==> polls[a].id != polls[b].id,
        ensures
            has_poll(polls, polls[i].id),
            poll_by_id(polls, polls[i].id) == polls[i],
    {
        let id = polls[i].id;
        assert(0 <= i < polls.len() && polls[i].id == id);
        assert(has_poll(polls, id));
        let c = choose|k: int| 0 <= k < polls.len() && polls[k].id == id;
        if c < i {
            assert(polls[c].id != polls[i].id);
        } else if i < c {
            assert(polls[i].id != polls[c].id);
        }
    }

    /// Under unique ids, the option row found at an index is the row
    /// `option_by_id` names.
    proof fn lemma_option_at_index(options: Seq<PollOption>, i: int)
        requires
            0 <= i < options.len(),
            forall|a: int, b: int| 0 <= a < b < options.len() ==> options[a].id != options[b].id,
        ensures
            has_option(options, options[i].id),
            option_by_id(options, options[i].id) == options[i],
    {
        let id = options[i].id;
        assert(0 <= i < options.len() && options[i].id == id);
        assert(has_option(options, id));
        let c = choose|k: int| 0 <= k < options.len() && options[k].id == id;
        if c < i {
            assert(options[c].id != options[i].id);
        } else if i < c {
            assert(options[i].id != options[c].id);
        }
    }

    /// Whether the option row with this id exists and belongs to this
    /// poll.
    fn option_belongs_to_poll(&self, option_id: i64, poll_id: i64) -> (b: bool)
        requires
            self.wf(),
        ensures
            b == option_in_poll(self.options@, option_id, poll_id),
    {
        let n = self.options.len();
        let mut i: usize = 0;
        while i < n
            invariant
                self.wf(),
                n == self.options@.len(),
                0 <= i <= n,
                forall|k: int|
                    0 <= k < i ==> !(#[trigger] self.options@[k].id == option_id
                        && self.options@[k].poll_id == poll_id),
            decreases n - i,
        {
            if self.options[i].id == option_id {
                if self.options[i].poll_id == poll_id {
                    proof {
                        let wi = i as int;
                        assert(0 <= wi < self.options@.len() && self.options@[wi].id == option_id
                            && self.options@[wi].poll_id == poll_id);
                        assert(option_in_poll(self.options@, option_id, poll_id));
                    }
                    return true;
                } else {
                    proof {
                        let wi = i as int;
                        assert forall|k: int|
                            0 <= k < self.options@.len() && self.options@[k].id == option_id
                            implies self.options@[k].poll_id != poll_id by {
                            if k < wi {
                                assert(self.options@[k].id != self.options@[wi].id);
                            } else if wi < k {
                                assert(self.options@[wi].id != self.options@[k].id);
                            }
                        }
                    }
                    return false;
                }
            }
            i += 1;
        }
        false
    }

    /// The type of the poll that owns the option with this id, if the
    /// option exists.
    pub fn get_poll_type_for_option(&self, option_id: i64) -> (r: Option<PollType>)
        requires
            self.wf(),
        ensures
            match r {
                Some(t) => has_option(self.options@, option_id) && t == poll_by_id(
                    self.polls@,
                    option_by_id(self.options@, option_id).poll_id,
                ).poll_type,
                None => !has_option(self.options@, option_id),
            },
    {
        let n = self.options.len();
        let mut i: usize = 0;
        while i < n
            invariant
                self.wf(),
                n == self.options@.len(),
                0 <= i <= n,
                forall|k: int| 0 <= k < i ==> #[trigger] self.options@[k].id != option_id,
            decreases n - i,
        {
            if self.options[i].id == option_id {
                proof {
                    Self::lemma_option_at_index(self.options@, i as int);
                }
                let pid = self.options[i].poll_id;
                let m = self.polls.len();
                let mut j: usize = 0;
                while j < m
                    invariant
                        self.wf(),
                        m == self.polls@.len(),
                        0 <= j <= m,
                        forall|k: int| 0 <= k < j ==> #[trigger] self.polls@[k].id != pid,
                        has_option(self.options@, option_id),
                        option_by_id(self.options@, option_id).poll_id == pid,
                    decreases m - j,
                {
                    if self.polls[j].id == pid {
                        proof {
                            Self::lemma_poll_at_index(self.polls@, j as int);
                        }
                        return Some(self.polls[j].poll_type);
                    }
                    j += 1;
                }
                proof {
                    let c = choose|k: int|
                        0 <= k < self.options@.len() && self.options@[k].id == option_id;
                    assert(self.options@[c].poll_id == pid);
                    assert(has_poll(self.polls@, self.options@[c].poll_id));
                    assert(false);
                }
                return None;
            }
            i += 1;
        }
        None
    }

    /// Appends one vote row for this option, stamped with `now` and the
    /// next vote id. A narrow primitive: it does not enforce
    /// eligibility — that is `check_and_cast`'s job.
    pub fn cast_vote(&mut self, option_id: i64, ip_address: IpAddress, now: i64) -> (v: PollVote)
        requires
            old(self).wf(),
            has_option(old(self).options@, option_id),
            old(self).next_vote_id < i64::MAX,
        ensures
            final(self).wf(),
            v.id == old(self).next_vote_id && v.option_id == option_id && v.ip_address
                == ip_address && v.created_at == now,
            final(self).votes@ == old(self).votes@.push(v),
            final(self).polls@ == old(self).polls@,
            final(self).options@ == old(self).options@,
            final(self).next_poll_id == old(self).next_poll_id,
            final(self).next_option_id == old(self).next_option_id,
            final(self).next_vote_id == old(self).next_vote_id + 1,
    {
        let vid = self.next_vote_id;
        let vote = PollVote { id: vid, option_id, ip_address, created_at: now };
        self.votes.push(vote);
        self.next_vote_id = vid + 1;
        proof {
            let v0 = old(self).votes@;
            let v1 = self.votes@;
            assert(v1 == v0.push(vote));
            assert(v1.len() == v0.len() + 1);
            assert forall|a: int, b: int| 0 <= a < b < v1.len() implies v1[a].id != v1[b].id by {
                if b < v0.len() {
                } else {
                    assert(v1[b] == vote);
                    assert(0 < v0[a].id < old(self).next_vote_id);
                }
            }
            assert forall|a: int| 0 <= a < v1.len() implies 0 < #[trigger] v1[a].id
                < self.next_vote_id by {
                if a < v0.len() {
                    assert(0 < v0[a].id < old(self).next_vote_id);
                } else {
                    assert(v1[a] == vote);
                }
            }
            assert forall|a: int| 0 <= a < v1.len() implies has_option(
                self.options@,
                #[trigger] v1[a].option_id,
            ) by {
                if a < v0.len() {
                    assert(has_option(old(self).options@, v0[a].option_id));
                } else {
                    assert(v1[a] == vote);
                }
            }
        }
        vote
    }

    /// Whether the poll row with this id exists and its deletion time
    /// has passed.
    fn poll_expired_at(&self, id: i64, now: i64) -> (b: bool)
        requires
            forall|a: int, b: int|
                0 <= a < b < self.polls@.len() ==> self.polls@[a].id != self.polls@[b].id,
        ensures
            b == poll_expired(self.polls@, id, now),
    {
        let n = self.polls.len();
        let mut i: usize = 0;
        while i < n
            invariant
                n == self.polls@.len(),
                0 <= i <= n,
                forall|a: int, b: int|
                    0 <= a < b < self.polls@.len() ==> self.polls@[a].id != self.polls@[b].id,
                forall|k: int| 0 <= k < i ==> #[trigger] self.polls@[k].id != id,
            decreases n - i,
        {
            if self.polls[i].id == id {
                let b = self.polls[i].delete_at <= now;
                proof {
                    let wi = i as int;
                    if b {
                        assert(0 <= wi < self.polls@.len() && self.polls@[wi].id == id
                            && self.polls@[wi].delete_at <= now);
                        assert(poll_expired(self.polls@, id, now));
                    } else {
                        assert forall|k: int|
                            0 <= k < self.polls@.len() && self.polls@[k].id == id implies !(
                        self.polls@[k].delete_at <= now) by {
                            if k < wi {
                                assert(self.polls@[k].id != self.polls@[wi].id);
                            } else if wi < k {
                                assert(self.polls@[wi].id != self.polls@[k].id);
                            }
                        }
                    }
                }
                return b;
            }
            i += 1;
        }
        false
    }

    /// Whether the option row with this id exists and belongs to a poll
    /// whose deletion time has passed.
    fn option_expired_at(&self, option_id: i64, now: i64) -> (b: bool)
        requires
            forall|a: int, b: int|
                0 <= a < b < self.polls@.len() ==> self.polls@[a].id != self.polls@[b].id,
            forall|a: int, b: int|
                0 <= a < b < self.options@.len() ==> self.options@[a].id != self.options@[b].id,
        ensures
            b == option_expired(self.polls@, self.options@, option_id, now),
    {
        let n = self.options.len();
        let mut i: usize = 0;
        while i < n
            invariant
                n == self.options@.len(),
                0 <= i <= n,
                forall|a: int, b: int|
                    0 <= a < b < self.polls@.len() ==> self.polls@[a].id != self.polls@[b].id,
                forall|a: int, b: int|
                    0 <= a < b < self.options@.len() ==> self.options@[a].id
                        != self.options@[b].id,
                forall|k: int| 0 <= k < i ==> #[trigger] self.options@[k].id != option_id,
            decreases n - i,
        {
            if self.options[i].id == option_id {
                let b = self.poll_expired_at(self.options[i].poll_id, now);
                proof {
                    let wi = i as int;
                    if b {
                        assert(0 <= wi < self.options@.len() && self.options@[wi].id == option_id
                            && poll_expired(self.polls@, self.options@[wi].poll_id, now));
                        assert(option_expired(self.polls@, self.options@, option_id, now));
                    } else {
                        assert forall|k: int|
                            0 <= k < self.options@.len() && self.options@[k].id == option_id
                            implies !poll_expired(self.polls@, self.options@[k].poll_id, now) by {
                            if k < wi {
                                assert(self.options@[k].id != self.options@[wi].id);
                            } else if wi < k {
                                assert(self.options@[wi].id != self.options@[k].id);
                            }
                        }
                    }
                }
                return b;
            }
            i += 1;
        }
        false
    }

    /// The expiry sweep: deletes every poll whose deletion time has
    /// passed, cascading to its options and their votes, and reports how
    /// many poll rows were removed. A poll whose deletion time lies in
    /// the future is untouched.
    pub fn delete_expired_polls(&mut self, now: i64) -> (count: usize)
        requires
            old(self).wf(),
        ensures
            final(self).wf(),
            final(self).polls@ == live_polls(old(self).polls@, now),
            final(self).options@ == surviving_options(old(self).polls@, old(self).options@, now),
            final(self).votes@ == surviving_votes(
                old(self).polls@,
                old(self).options@,
                old(self).votes@,
                now,
            ),
            count == old(self).polls@.len() - final(self).polls@.len(),
            final(self).next_poll_id == old(self).next_poll_id,
            final(self).next_option_id == old(self).next_option_id,
            final(self).next_vote_id == old(self).next_vote_id,
    {
        broadcast use vstd::seq_lib::group_filter_ensures;
        broadcast use Seq::lemma_filter_push;

        let ghost polls0 = self.polls@;
        let ghost opts0 = self.options@;
        let ghost votes0 = self.votes@;
        let total = self.polls.len();
        // votes first: a vote may only be removed while its option is
        // still present to be examined
        let mut i: usize = 0;
        let ghost mut j: int = 0;
        while i < self.votes.len()
            invariant
                old(self).wf(),
                polls0 == old(self).polls@,
                opts0 == old(self).options@,
                votes0 == old(self).votes@,
                self.polls@ == polls0,
                self.options@ == opts0,
                0 <= j <= votes0.len(),
                i as int == surviving_votes(polls0, opts0, votes0.subrange(0, j), now).len(),
                self.votes@ == surviving_votes(polls0, opts0, votes0.subrange(0, j), now)
                    + votes0.subrange(j, votes0.len() as int),
                self.next_poll_id == old(self).next_poll_id,
                self.next_option_id == old(self).next_option_id,
                self.next_vote_id == old(self).next_vote_id,
            decreases votes0.len() - j,
        {
            proof {
                assert(self.votes@.len() == i + (votes0.len() - j));
                assert(self.votes@[i as int] == votes0[j]);
            }
            let oid = self.votes[i].option_id;
            let expired = self.option_expired_at(oid, now);
            let ghost kept = surviving_votes(polls0, opts0, votes0.subrange(0, j), now);
            proof {
                assert(votes0.subrange(0, j + 1) =~= votes0.subrange(0, j).push(votes0[j]));
                votes0.subrange(0, j).lemma_filter_push(
                    votes0[j],
                    live_vote_pred(polls0, opts0, now),
                );
            }
            if expired {
                self.votes.remove(i);
                proof {
                    assert(surviving_votes(polls0, opts0, votes0.subrange(0, j + 1), now)
                        == kept);
                    assert(self.votes@ =~= kept + votes0.subrange(j + 1, votes0.len() as int));
                    j = j + 1;
                }
            } else {
                i += 1;
                proof {
                    assert(surviving_votes(polls0, opts0, votes0.subrange(0, j + 1), now)
                        == kept.push(votes0[j]));
                    assert(self.votes@ =~= kept.push(votes0[j]) + votes0.subrange(
                        j + 1,
                        votes0.len() as int,
                    ));
                    j = j + 1;
                }
            }
        }
        proof {
            assert(votes0.subrange(0, votes0.len() as int) =~= votes0);
            assert(self.votes@ =~= surviving_votes(polls0, opts0, votes0, now));
        }
        // then the options of expired polls
        let mut i: usize = 0;
        let ghost mut j: int = 0;
        while i < self.options.len()
            invariant
                old(self).wf(),
                polls0 == old(self).polls@,
                opts0 == old(self).options@,
                votes0 == old(self).votes@,
                self.polls@ == polls0,
                self.votes@ == surviving_votes(polls0, opts0, votes0, now),
                0 <= j <= opts0.len(),
                i as int == surviving_options(polls0, opts0.subrange(0, j), now).len(),
                self.options@ == surviving_options(polls0, opts0.subrange(0, j), now)
                    + opts0.subrange(j, opts0.len() as int),
                self.next_poll_id == old(self).next_poll_id,
                self.next_option_id == old(self).next_option_id,
                self.next_vote_id == old(self).next_vote_id,
            decreases opts0.len() - j,
        {
            proof {
                assert(self.options@.len() == i + (opts0.len() - j));
                assert(self.options@[i as int] == opts0[j]);
            }
            let pid = self.options[i].poll_id;
            let expired = self.poll_expired_at(pid, now);
            let ghost kept = surviving_options(polls0, opts0.subrange(0, j), now);
            proof {
                assert(opts0.subrange(0, j + 1) =~= opts0.subrange(0, j).push(opts0[j]));
                opts0.subrange(0, j).lemma_filter_push(opts0[j], live_option_pred(polls0, now));
            }
            if expired {
                self.options.remove(i);
                proof {
                    assert(surviving_options(polls0, opts0.subrange(0, j + 1), now) == kept);
                    assert(self.options@ =~= kept + opts0.subrange(j + 1, opts0.len() as int));
                    j = j + 1;
                }
            } else {
                i += 1;
                proof {
                    assert(surviving_options(polls0, opts0.subrange(0, j + 1), now)
                        == kept.push(opts0[j]));
                    assert(self.options@ =~= kept.push(opts0[j]) + opts0.subrange(
                        j + 1,
                        opts0.len() as int,
                    ));
                    j = j + 1;
                }
            }
        }
        proof {
            assert(opts0.subrange(0, opts0.len() as int) =~= opts0);
            assert(self.options@ =~= surviving_options(polls0, opts0, now));
        }
        // finally the expired poll rows themselves
        let mut i: usize = 0;
        let ghost mut j: int = 0;
        while i < self.polls.len()
            invariant
                old(self).wf(),
                polls0 == old(self).polls@,
                opts0 == old(self).options@,
                votes0 == old(self).votes@,
                self.options@ == surviving_options(polls0, opts0, now),
                self.votes@ == surviving_votes(polls0, opts0, votes0, now),
                0 <= j <= polls0.len(),
                i as int == live_polls(polls0.subrange(0, j), now).len(),
                self.polls@ == live_polls(polls0.subrange(0, j), now) + polls0.subrange(
                    j,
                    polls0.len() as int,
                ),
                self.next_poll_id == old(self).next_poll_id,
                self.next_option_id == old(self).next_option_id,
                self.next_vote_id == old(self).next_vote_id,
            decreases polls0.len() - j,
        {
            proof {
                assert(self.polls@.len() == i + (polls0.len() - j));
                assert(self.polls@[i as int] == polls0[j]);
            }
            let ghost kept = live_polls(polls0.subrange(0, j), now);
            proof {
                assert(polls0.subrange(0, j + 1) =~= polls0.subrange(0, j).push(polls0[j]));
                polls0.subrange(0, j).lemma_filter_push(polls0[j], live_poll_pred(now));
            }
            if self.polls[i].delete_at <= now {
                self.polls.remove(i);
                proof {
                    assert(live_polls(polls0.subrange(0, j + 1), now) == kept);
                    assert(self.polls@ =~= kept + polls0.subrange(j + 1, polls0.len() as int));
                    j = j + 1;
                }
            } else {
                i += 1;
                proof {
                    assert(live_polls(polls0.subrange(0, j + 1), now) == kept.push(polls0[j]));
                    assert(self.polls@ =~= kept.push(polls0[j]) + polls0.subrange(
                        j + 1,
                        polls0.len() as int,
                    ));
                    j = j + 1;
                }
            }
        }
        proof {
            assert(polls0.subrange(0, polls0.len() as int) =~= polls0);
            assert(self.polls@ =~= live_polls(polls0, now));
            self.lemma_sweep_wf(*old(self), now);
        }
        let count = total - self.polls.len();
        count
    }

    /// A store whose three tables are the survivors of a sweep of a
    /// well-formed store is well-formed again.
    proof fn lemma_sweep_wf(self, pre: PollStore, now: i64)
        requires
            pre.wf(),
            self.polls@ == live_polls(pre.polls@, now),
            self.options@ == surviving_options(pre.polls@, pre.options@, now),
            self.votes@ == surviving_votes(pre.polls@, pre.options@, pre.votes@, now),
            self.next_poll_id == pre.next_poll_id,
            self.next_option_id == pre.next_option_id,
            self.next_vote_id == pre.next_vote_id,
        ensures
            self.wf(),
    {
        broadcast use vstd::seq_lib::group_filter_ensures;

        let p0 = pre.polls@;
        let o0 = pre.options@;
        let v0 = pre.votes@;
        let p1 = self.polls@;
        let o1 = self.options@;
        let v1 = self.votes@;
        lemma_filter_subset(p0, live_poll_pred(now));
        lemma_filter_distinct_keys(p0, live_poll_pred(now), |p: Poll| p.id);
        lemma_filter_subset(o0, live_option_pred(p0, now));
        lemma_filter_distinct_keys(o0, live_option_pred(p0, now), |o: PollOption| o.id);
        lemma_filter_subset(v0, live_vote_pred(p0, o0, now));
        lemma_filter_distinct_keys(v0, live_vote_pred(p0, o0, now), |v: PollVote| v.id);
        assert forall|a: int| 0 <= a < p1.len() implies 0 < #[trigger] p1[a].id
            < self.next_poll_id by {
            assert(p0.contains(p1[a]));
            let w = choose|w: int| 0 <= w < p0.len() && p0[w] == p1[a];
            assert(0 < p0[w].id < pre.next_poll_id);
        }
        assert forall|a: int| 0 <= a < o1.len() implies 0 < #[trigger] o1[a].id
            < self.next_option_id by {
            assert(o0.contains(o1[a]));
            let w = choose|w: int| 0 <= w < o0.len() && o0[w] == o1[a];
            assert(0 < o0[w].id < pre.next_option_id);
        }
        assert forall|a: int| 0 <= a < v1.len() implies 0 < #[trigger] v1[a].id
            < self.next_vote_id by {
            assert(v0.contains(v1[a]));
            let w = choose|w: int| 0 <= w < v0.len() && v0[w] == v1[a];
            assert(0 < v0[w].id < pre.next_vote_id);
        }
        assert forall|a: int| 0 <= a < o1.len() implies has_poll(
            p1,
            #[trigger] o1[a].poll_id,
        ) by {
            assert(o0.contains(o1[a]));
            let w = choose|w: int| 0 <= w < o0.len() && o0[w] == o1[a];
            assert(has_poll(p0, o0[w].poll_id));
            let wp = choose|wp: int| 0 <= wp < p0.len() && p0[wp].id == o0[w].poll_id;
            assert(live_option_pred(p0, now)(o1[a]));
            assert(!poll_expired(p0, o1[a].poll_id, now));
            assert(p0[wp].delete_at > now);
            assert(live_poll_pred(now)(p0[wp]));
            assert(p1.contains(p0[wp]));
            let c = choose|c: int| 0 <= c < p1.len() && p1[c] == p0[wp];
            assert(p1[c].id == o1[a].poll_id);
            assert(has_poll(p1, o1[a].poll_id));
        }
        assert forall|a: int| 0 <= a < v1.len() implies has_option(
            o1,
            #[trigger] v1[a].option_id,
        ) by {
            assert(v0.contains(v1[a]));
            let w = choose|w: int| 0 <= w < v0.len() && v0[w] == v1[a];
            assert(has_option(o0, v0[w].option_id));
            let wo = choose|wo: int| 0 <= wo < o0.len() && o0[wo].id == v0[w].option_id;
            assert(live_vote_pred(p0, o0, now)(v1[a]));
            assert(!option_expired(p0, o0, v1[a].option_id, now));
            if poll_expired(p0, o0[wo].poll_id, now) {
                assert(0 <= wo < o0.len() && o0[wo].id == v1[a].option_id && poll_expired(
                    p0,
                    o0[wo].poll_id,
                    now,
                ));
                assert(option_expired(p0, o0, v1[a].option_id, now));
            }
            assert(live_option_pred(p0, now)(o0[wo]));
            assert(o1.contains(o0[wo]));
            let c = choose|c: int| 0 <= c < o1.len() && o1[c] == o0[wo];
            assert(o1[c].id == v1[a].option_id);
            assert(has_option(o1, v1[a].option_id));
        }
        assert forall|a: int, b: int|
            0 <= a < b < o1.len() && o1[a].poll_id == o1[b].poll_id implies o1[a].name@
            != o1[b].name@ by {
            assert(o1[a].id != o1[b].id);
            assert(o0.contains(o1[a]));
            assert(o0.contains(o1[b]));
            let wa = choose|w: int| 0 <= w < o0.len() && o0[w] == o1[a];
            let wb = choose|w: int| 0 <= w < o0.len() && o0[w] == o1[b];
            if wa < wb {
                assert(o0[wa].name@ != o0[wb].name@);
            } else if wb < wa {
                assert(o0[wb].name@ != o0[wa].name@);
            }
        }
    }

    /// The votes this voter has cast for this exact option, oldest
    /// first.
    pub fn get_votes_by_voter_and_option(&self, ip_address: IpAddress, option_id: i64) -> (r: Vec<
        PollVote,
    >)
        ensures
            r@ == votes_for(self.votes@, ip_address, option_id),
    {
        broadcast use vstd::seq_lib::group_filter_ensures;

        let n = self.votes.len();
        let mut r: Vec<PollVote> = Vec::new();
        let mut i: usize = 0;
        proof {
            assert(self.votes@.subrange(0, 0) =~= Seq::<PollVote>::empty());
        }
        while i < n
            invariant
                n == self.votes@.len(),
                0 <= i <= n,
                r@ == votes_for(self.votes@.subrange(0, i as int), ip_address, option_id),
            decreases n - i,
        {
            proof {
                assert(self.votes@.subrange(0, i + 1) =~= self.votes@.subrange(0, i as int).push(
                    self.votes@[i as int],
                ));
                self.votes@.subrange(0, i as int).lemma_filter_push(
                    self.votes@[i as int],
                    vote_match_pred(ip_address, option_id),
                );
            }
            if self.votes[i].option_id == option_id && self.votes[i].ip_address == ip_address {
                r.push(self.votes[i]);
            }
            i += 1;
        }
        proof {
            assert(self.votes@.subrange(0, n as int) =~= self.votes@);
        }
        r
    }

    /// How many votes the vote table holds for this option.
    fn count_votes_for_option(&self, option_id: i64) -> (c: usize)
        ensures
            c == vote_count_for_option(self.votes@, option_id),
    {
        broadcast use vstd::seq_lib::group_filter_ensures;

        let n = self.votes.len();
        let mut c: usize = 0;
        let mut i: usize = 0;
        proof {
            assert(self.votes@.subrange(0, 0) =~= Seq::<PollVote>::empty());
        }
        while i < n
            invariant
                n == self.votes@.len(),
                0 <= i <= n,
                c <= i,
                c == vote_count_for_option(self.votes@.subrange(0, i as int), option_id),
            decreases n - i,
        {
            proof {
                assert(self.votes@.subrange(0, i + 1) =~= self.votes@.subrange(0, i as int).push(
                    self.votes@[i as int],
                ));
                self.votes@.subrange(0, i as int).lemma_filter_push(
                    self.votes@[i as int],
                    vote_on_pred(option_id),
                );
            }
            if self.votes[i].option_id == option_id {
                c += 1;
            }
            i += 1;
        }
        proof {
            assert(self.votes@.subrange(0, n as int) =~= self.votes@);
        }
        c
    }

    /// The per-option tallies of this poll, one entry per option the
    /// poll owns, in the options' insertion order. Empty when no option
    /// belongs to the poll — in particular for an unknown poll id.
    pub fn retrieve_poll_counts(&self, poll_id: i64) -> (r: Vec<PollCount>)
        requires
            self.wf(),
        ensures
            r@.len() == options_of_poll(self.options@, poll_id).len(),
            forall|k: int|
                0 <= k < r@.len() ==> (#[trigger] r@[k]).poll_id == poll_id && r@[k].option_id
                    == options_of_poll(self.options@, poll_id)[k].id && r@[k].option_name@
                    == options_of_poll(self.options@, poll_id)[k].name@ && r@[k].count
                    == vote_count_for_option(
                    self.votes@,
                    options_of_poll(self.options@, poll_id)[k].id,
                ),
    {
        broadcast use vstd::seq_lib::group_filter_ensures;

        let mut r: Vec<PollCount> = Vec::new();
        let n = self.options.len();
        let mut i: usize = 0;
        proof {
            assert(self.options@.subrange(0, 0) =~= Seq::<PollOption>::empty());
        }
        while i < n
            invariant
                self.wf(),
                n == self.options@.len(),
                0 <= i <= n,
                r@.len() == options_of_poll(self.options@.subrange(0, i as int), poll_id).len(),
                forall|k: int|
                    0 <= k < r@.len() ==> (#[trigger] r@[k]).poll_id == poll_id && r@[k].option_id
                        == options_of_poll(self.options@.subrange(0, i as int), poll_id)[k].id
                        && r@[k].option_name@ == options_of_poll(
                        self.options@.subrange(0, i as int),
                        poll_id,
                    )[k].name@ && r@[k].count == vote_count_for_option(
                        self.votes@,
                        options_of_poll(self.options@.subrange(0, i as int), poll_id)[k].id,
                    ),
            decreases n - i,
        {
            proof {
                assert(self.options@.subrange(0, i + 1) =~= self.options@.subrange(0, i as int)
                    .push(self.options@[i as int]));
                self.options@.subrange(0, i as int).lemma_filter_push(
                    self.options@[i as int],
                    owned_by_pred(poll_id),
                );
            }
            if self.options[i].poll_id == poll_id {
                let count = self.count_votes_for_option(self.options[i].id);
                let name = self.options[i].name.clone();
                r.push(
                    PollCount { poll_id, option_id: self.options[i].id, option_name: name, count },
                );
            }
            i += 1;
        }
        proof {
            assert(self.options@.subrange(0, n as int) =~= self.options@);
        }
        r
    }

    /// The tallies for this poll, or `None` for a poll that owns no
    /// options — in particular an unknown id — so that the caller can
    /// answer "no such poll".
    pub fn get_poll_votes(&self, poll_id: i64) -> (r: Option<Vec<PollCount>>)
        requires
            self.wf(),
        ensures
            r is Some <==> options_of_poll(self.options@, poll_id).len() > 0,
            r matches Some(counts) ==> counts@.len() == options_of_poll(
                self.options@,
                poll_id,
            ).len() && forall|k: int|
                0 <= k < counts@.len() ==> (#[trigger] counts@[k]).poll_id == poll_id
                    && counts@[k].option_id == options_of_poll(self.options@, poll_id)[k].id
                    && counts@[k].option_name@ == options_of_poll(self.options@, poll_id)[k].name@
                    && counts@[k].count == vote_count_for_option(
                    self.votes@,
                    options_of_poll(self.options@, poll_id)[k].id,
                ),
    {
        let counts = self.retrieve_poll_counts(poll_id);
        if counts.is_empty() {
            None
        } else {
            Some(counts)
        }
    }

    /// The vote-eligibility check followed by the cast, in the
    /// documented order: an unknown option is reported first; then a
    /// vote the voter already holds for this exact option, whatever the
    /// poll's type; then, for a `Single` poll only, a vote the voter
    /// holds anywhere else in the poll. Only an eligible vote is
    /// recorded.
    pub fn check_and_cast(&mut self, option_id: i64, ip_address: IpAddress, now: i64) -> (r:
        Result<PollVote, VoteError>)
        requires
            old(self).wf(),
            old(self).next_vote_id < i64::MAX,
        ensures
            final(self).wf(),
            r == Err::<PollVote, VoteError>(VoteError::NoSuchOption) <==> !has_option(
                old(self).options@,
                option_id,
            ),
            r == Err::<PollVote, VoteError>(VoteError::AlreadyVoted) <==> has_option(
                old(self).options@,
                option_id,
            ) && has_voted_for_option(old(self).votes@, ip_address, option_id),
            r == Err::<PollVote, VoteError>(VoteError::MultipleVotesNotAllowed) <==> has_option(
                old(self).options@,
                option_id,
            ) && !has_voted_for_option(old(self).votes@, ip_address, option_id) && poll_by_id(
                old(self).polls@,
                option_by_id(old(self).options@, option_id).poll_id,
            ).poll_type == PollType::Single && has_voted_in_poll(
                old(self).options@,
                old(self).votes@,
                ip_address,
                option_by_id(old(self).options@, option_id).poll_id,
            ),
            r is Err ==> *final(self) == *old(self),
            r is Ok ==> r->Ok_0.id == old(self).next_vote_id && r->Ok_0.option_id == option_id
                && r->Ok_0.ip_address == ip_address && r->Ok_0.created_at == now,
            r is Ok ==> final(self).votes@ == old(self).votes@.push(r->Ok_0) && final(self).polls@ == old(self).polls@ && final(self).options@ == old(self).options@,
            r is Ok ==> final(self).next_poll_id == old(self).next_poll_id && final(self).next_option_id == old(self).next_option_id && final(self).next_vote_id == old(
                self,
            ).next_vote_id + 1,
    {
        let poll_id: i64;
        match self.get_option(option_id) {
            None => {
                return Err(VoteError::NoSuchOption);
            },
            Some(o) => {
                poll_id = o.poll_id;
            },
        }
        let n = self.votes.len();
        let mut i: usize = 0;
        while i < n
            invariant
                *self == *old(self),
                self.wf(),
                n == self.votes@.len(),
                0 <= i <= n,
                has_option(self.options@, option_id),
                option_by_id(self.options@, option_id).poll_id == poll_id,
                forall|k: int|
                    0 <= k < i ==> !(#[trigger] self.votes@[k].option_id == option_id
                        && self.votes@[k].ip_address == ip_address),
            decreases n - i,
        {
            if self.votes[i].option_id == option_id && self.votes[i].ip_address == ip_address {
                proof {
                    let wi = i as int;
                    assert(0 <= wi < self.votes@.len() && self.votes@[wi].option_id == option_id
                        && self.votes@[wi].ip_address == ip_address);
                    assert(has_voted_for_option(self.votes@, ip_address, option_id));
                }
                return Err(VoteError::AlreadyVoted);
            }
            i += 1;
        }
        let single = match self.get_poll_type_for_option(option_id) {
            Some(PollType::Single) => true,
            Some(PollType::Multiple) => false,
            None => {
                proof {
                    assert(false);
                }
                return Err(VoteError::NoSuchOption);
            },
        };
        if single {
            let n = self.votes.len();
            let mut i: usize = 0;
            while i < n
                invariant
                    *self == *old(self),
                    self.wf(),
                    n == self.votes@.len(),
                    0 <= i <= n,
                    has_option(self.options@, option_id),
                    option_by_id(self.options@, option_id).poll_id == poll_id,
                    poll_by_id(self.polls@, poll_id).poll_type == PollType::Single,
                    !has_voted_for_option(self.votes@, ip_address, option_id),
                    forall|k: int|
                        0 <= k < i && self.votes@[k].ip_address == ip_address ==> !option_in_poll(
                            self.options@,
                            #[trigger] self.votes@[k].option_id,
                            poll_id,
                        ),
                decreases n - i,
            {
                if self.votes[i].ip_address == ip_address {
                    if self.option_belongs_to_poll(self.votes[i].option_id, poll_id) {
                        proof {
                            let wi = i as int;
                            assert(0 <= wi < self.votes@.len() && self.votes@[wi].ip_address
                                == ip_address && option_in_poll(
                                self.options@,
                                self.votes@[wi].option_id,
                                poll_id,
                            ));
                            assert(has_voted_in_poll(
                                self.options@,
                                self.votes@,
                                ip_address,
                                poll_id,
                            ));
                        }
                        return Err(VoteError::MultipleVotesNotAllowed);
                    }
                }
                i += 1;
            }
        }
        let vote = self.cast_vote(option_id, ip_address, now);
        Ok(vote)
    }
}


/// After a sweep at `now`, a poll whose deletion time had passed is
/// unreachable: no poll row carries its id, no surviving option belongs
/// to it, and no surviving vote is aimed at any option it owned.
pub proof fn lemma_sweep_removes_expired(s: PollStore, now: i64, id: i64)
    requires
        s.wf(),
        poll_expired(s.polls@, id, now),
    ensures
        !has_poll(live_polls(s.polls@, now), id),
        forall|k: int|
            0 <= k < surviving_options(s.polls@, s.options@, now).len() ==> (
            #[trigger] surviving_options(s.polls@, s.options@, now)[k]).poll_id != id,
        forall|k: int|
            0 <= k < surviving_votes(s.polls@, s.options@, s.votes@, now).len()
                ==> !option_in_poll(
                s.options@,
                (#[trigger] surviving_votes(s.polls@, s.options@, s.votes@, now)[k]).option_id,
                id,
            ),
{
    broadcast use vstd::seq_lib::group_filter_ensures;

    let p0 = s.polls@;
    let o0 = s.options@;
    let v0 = s.votes@;
    let lp = live_polls(p0, now);
    lemma_filter_subset(p0, live_poll_pred(now));
    let we = choose|w: int| 0 <= w < p0.len() && p0[w].id == id && p0[w].delete_at <= now;
    assert forall|k: int| 0 <= k < lp.len() implies #[trigger] lp[k].id != id by {
        assert(live_poll_pred(now)(lp[k]));
        assert(p0.contains(lp[k]));
        let w = choose|w: int| 0 <= w < p0.len() && p0[w] == lp[k];
        if lp[k].id == id {
            if w < we {
                assert(p0[w].id != p0[we].id);
            } else if we < w {
                assert(p0[we].id != p0[w].id);
            }
        }
    }
    assert forall|k: int| 0 <= k < surviving_options(p0, o0, now).len() implies (
    #[trigger] surviving_options(p0, o0, now)[k]).poll_id != id by {
        assert(live_option_pred(p0, now)(surviving_options(p0, o0, now)[k]));
    }
    assert forall|k: int|
        0 <= k < surviving_votes(p0, o0, v0, now).len() implies !option_in_poll(
        o0,
        (#[trigger] surviving_votes(p0, o0, v0, now)[k]).option_id,
        id,
    ) by {
        let v = surviving_votes(p0, o0, v0, now)[k];
        assert(live_vote_pred(p0, o0, now)(v));
        if option_in_poll(o0, v.option_id, id) {
            let w = choose|w: int|
                0 <= w < o0.len() && o0[w].id == v.option_id && o0[w].poll_id == id;
            assert(0 <= w < o0.len() && o0[w].id == v.option_id && poll_expired(
                p0,
                o0[w].poll_id,
                now,
            ));
            assert(option_expired(p0, o0, v.option_id, now));
        }
    }
}

/// A poll whose deletion time lies in the future survives the sweep
/// untouched, with every option it owns and every vote on them.
pub proof fn lemma_sweep_keeps_live(s: PollStore, now: i64, id: i64)
    requires
        s.wf(),
        has_poll(s.polls@, id),
        poll_by_id(s.polls@, id).delete_at > now,
    ensures
        has_poll(live_polls(s.polls@, now), id),
        poll_by_id(live_polls(s.polls@, now), id) == poll_by_id(s.polls@, id),
        forall|k: int|
            0 <= k < s.options@.len() && (#[trigger] s.options@[k]).poll_id == id
                ==> surviving_options(s.polls@, s.options@, now).contains(s.options@[k]),
        forall|k: int|
            0 <= k < s.votes@.len() && option_in_poll(
                s.options@,
                (#[trigger] s.votes@[k]).option_id,
                id,
            ) ==> surviving_votes(s.polls@, s.options@, s.votes@, now).contains(s.votes@[k]),
{
    broadcast use vstd::seq_lib::group_filter_ensures;

    let p0 = s.polls@;
    let o0 = s.options@;
    let v0 = s.votes@;
    let lp = live_polls(p0, now);
    lemma_filter_subset(p0, live_poll_pred(now));
    let w = choose|w: int| 0 <= w < p0.len() && p0[w].id == id;
    assert(p0[w] == poll_by_id(p0, id));
    assert(live_poll_pred(now)(p0[w]));
    assert(lp.contains(p0[w]));
    let c = choose|c: int| 0 <= c < lp.len() && lp[c] == p0[w];
    assert(0 <= c < lp.len() && lp[c].id == id);
    assert(has_poll(lp, id));
    let cc = choose|i: int| 0 <= i < lp.len() && lp[i].id == id;
    assert(lp[cc] == poll_by_id(lp, id));
    if cc != c {
        assert(p0.contains(lp[cc]));
        let wc = choose|x: int| 0 <= x < p0.len() && p0[x] == lp[cc];
        if wc < w {
            assert(p0[wc].id != p0[w].id);
        } else if w < wc {
            assert(p0[w].id != p0[wc].id);
        }
    }
    assert(!poll_expired(p0, id, now)) by {
        if poll_expired(p0, id, now) {
            let we = choose|x: int| 0 <= x < p0.len() && p0[x].id == id && p0[x].delete_at <= now;
            if we < w {
                assert(p0[we].id != p0[w].id);
            } else if w < we {
                assert(p0[w].id != p0[we].id);
            }
        }
    }
    assert forall|k: int|
        0 <= k < o0.len() && (#[trigger] o0[k]).poll_id == id implies surviving_options(
        p0,
        o0,
        now,
    ).contains(o0[k]) by {
        assert(live_option_pred(p0, now)(o0[k]));
    }
    assert forall|k: int|
        0 <= k < v0.len() && option_in_poll(o0, (#[trigger] v0[k]).option_id, id)
        implies surviving_votes(p0, o0, v0, now).contains(v0[k]) by {
        let wo = choose|x: int|
            0 <= x < o0.len() && o0[x].id == v0[k].option_id && o0[x].poll_id == id;
        assert(!option_expired(p0, o0, v0[k].option_id, now)) by {
            if option_expired(p0, o0, v0[k].option_id, now) {
                let we = choose|x: int|
                    0 <= x < o0.len() && o0[x].id == v0[k].option_id && poll_expired(
                        p0,
                        o0[x].poll_id,
                        now,
                    );
                if we < wo {
                    assert(o0[we].id != o0[wo].id);
                } else if wo < we {
                    assert(o0[wo].id != o0[we].id);
                }
            }
        }
        assert(live_vote_pred(p0, o0, now)(v0[k]));
    }
}

/// The sweep is idempotent: a second sweep at the same time finds
/// nothing expired, removes nothing, and so reports a count of zero.
pub proof fn lemma_sweep_idempotent(s: PollStore, now: i64)
    ensures
        live_polls(live_polls(s.polls@, now), now) == live_polls(s.polls@, now),
        surviving_options(
            live_polls(s.polls@, now),
            surviving_options(s.polls@, s.options@, now),
            now,
        ) == surviving_options(s.polls@, s.options@, now),
        surviving_votes(
            live_polls(s.polls@, now),
            surviving_options(s.polls@, s.options@, now),
            surviving_votes(s.polls@, s.options@, s.votes@, now),
            now,
        ) == surviving_votes(s.polls@, s.options@, s.votes@, now),
{
    broadcast use vstd::seq_lib::group_filter_ensures;

    let p0 = s.polls@;
    let o0 = s.options@;
    let v0 = s.votes@;
    let lp = live_polls(p0, now);
    let lo = surviving_options(p0, o0, now);
    let lv = surviving_votes(p0, o0, v0, now);
    assert forall|i: int| 0 <= i < lp.len() implies live_poll_pred(now)(#[trigger] lp[i]) by {
        assert(live_poll_pred(now)(lp[i]));
    }
    lemma_filter_all(lp, live_poll_pred(now));
    assert forall|id: i64| !poll_expired(lp, id, now) by {
        if poll_expired(lp, id, now) {
            let w = choose|x: int| 0 <= x < lp.len() && lp[x].id == id && lp[x].delete_at <= now;
            assert(live_poll_pred(now)(lp[w]));
        }
    }
    assert forall|i: int| 0 <= i < lo.len() implies live_option_pred(lp, now)(
        #[trigger] lo[i],
    ) by {
        assert(!poll_expired(lp, lo[i].poll_id, now));
    }
    lemma_filter_all(lo, live_option_pred(lp, now));
    assert forall|i: int| 0 <= i < lv.len() implies live_vote_pred(lp, lo, now)(
        #[trigger] lv[i],
    ) by {
        if option_expired(lp, lo, lv[i].option_id, now) {
            let w = choose|x: int|
                0 <= x < lo.len() && lo[x].id == lv[i].option_id && poll_expired(
                    lp,
                    lo[x].poll_id,
                    now,
                );
            assert(!poll_expired(lp, lo[w].poll_id, now));
        }
    }
    lemma_filter_all(lv, live_vote_pred(lp, lo, now));
}

} // verus!
