//! The addressed storage that polls and vote records live in, modeled as a
//! ledger. A poll's key is its `poll_id`; a vote record's key is the pair of
//! poll key and voter identity. Creating a record under an occupied key fails
//! with an allocation conflict, which is what makes duplicate polls and double
//! votes impossible by construction.
//!
//! Each transition is specified against a mathematical step function over
//! [`LedgerView`], so that the laws in [`crate::laws`] speak of exactly the
//! transitions the executable code performs.

use vstd::pervasive::unreached;
use vstd::prelude::*;

use crate::error::VotingError;
use crate::poll::{after_close, after_vote, fresh_poll, poll_wf, vote_check};
use crate::poll::{Poll, PollView, VoteRecord};
use crate::pubkey::Pubkey;

verus! {

/// The mathematical model of the ledger: every poll by its key, every vote
/// record by its (poll, voter) key.
#[verifier::ext_equal]
pub struct LedgerView {
    pub polls: Map<u64, PollView>,
    pub votes: Map<(u64, Pubkey), VoteRecord>,
}

/// Every poll in the ledger is well formed: one counter per option and the
/// running total equal to the sum of the counters.
pub open spec fn view_wf(s: LedgerView) -> bool {
    forall|poll_id: u64| #[trigger] s.polls.contains_key(poll_id) ==> poll_wf(s.polls[poll_id])
}

/// Poll creation. A taken key is an allocation conflict and changes nothing;
/// a fresh key maps to the freshly populated poll.
pub open spec fn init_step(
    s: LedgerView,
    authority: Pubkey,
    poll_id: u64,
    description: Seq<char>,
    start_time: i64,
    end_time: i64,
    options: Seq<Seq<char>>,
) -> (LedgerView, Result<(), VotingError>) {
    if s.polls.contains_key(poll_id) {
        (s, Err(VotingError::AllocationConflict))
    } else {
        (
            LedgerView {
                polls: s.polls.insert(
                    poll_id,
                    fresh_poll(authority, poll_id, description, start_time, end_time, options),
                ),
                votes: s.votes,
            },
            Ok(()),
        )
    }
}

/// Casting a vote. The vote-time checks run first and the first violated one
/// decides the error; then an occupied (poll, voter) key is an allocation
/// conflict. On success the record appears under that key and the poll's
/// tallies grow by one, atomically. Every failure leaves the ledger unchanged.
pub open spec fn cast_step(
    s: LedgerView,
    poll_id: u64,
    voter: Pubkey,
    option_index: u8,
    now: i64,
) -> (LedgerView, Result<(), VotingError>) {
    let p = s.polls[poll_id];
    match vote_check(p, option_index, now) {
        Err(e) => (s, Err(e)),
        Ok(_) => if s.votes.contains_key((poll_id, voter)) {
            (s, Err(VotingError::AllocationConflict))
        } else {
            (
                LedgerView {
                    polls: s.polls.insert(poll_id, after_vote(p, option_index)),
                    votes: s.votes.insert(
                        (poll_id, voter),
                        VoteRecord { voter, poll: poll_id, option_index, timestamp: now },
                    ),
                },
                Ok(()),
            )
        },
    }
}

/// Closing a poll. Any identity but the authority is rejected and changes
/// nothing; the authority flips the active flag to false and nothing else.
pub open spec fn close_step(s: LedgerView, poll_id: u64, authority: Pubkey) -> (
    LedgerView,
    Result<(), VotingError>,
) {
    let p = s.polls[poll_id];
    if authority != p.authority {
        (s, Err(VotingError::Unauthorized))
    } else {
        (LedgerView { polls: s.polls.insert(poll_id, after_close(p)), votes: s.votes }, Ok(()))
    }
}

/// The ledger itself: the stored polls and vote records.
pub struct Ledger {
    polls: Vec<Poll>,
    records: Vec<VoteRecord>,
}

impl Ledger {
    spec fn has_poll_at(self, i: int, poll_id: u64) -> bool {
        &&& 0 <= i < self.polls@.len()
        &&& self.polls@[i].poll_id == poll_id
    }

    spec fn has_poll_id(self, poll_id: u64) -> bool {
        exists|i: int| self.has_poll_at(i, poll_id)
    }

    spec fn poll_index(self, poll_id: u64) -> int {
        choose|i: int| self.has_poll_at(i, poll_id)
    }

    spec fn has_vote_at(self, i: int, poll_id: u64, voter: Pubkey) -> bool {
        &&& 0 <= i < self.records@.len()
        &&& self.records@[i].poll == poll_id
        &&& self.records@[i].voter == voter
    }

    spec fn has_vote_id(self, poll_id: u64, voter: Pubkey) -> bool {
        exists|i: int| self.has_vote_at(i, poll_id, voter)
    }

    spec fn vote_index(self, poll_id: u64, voter: Pubkey) -> int {
        choose|i: int| self.has_vote_at(i, poll_id, voter)
    }

    /// The structural invariant: poll keys are unique, (poll, voter) keys of
    /// the vote records are unique, and every stored poll is well formed.
    pub closed spec fn inv(self) -> bool {
        &&& forall|i: int, j: int|
            #![trigger self.polls@[i].poll_id, self.polls@[j].poll_id]
            0 <= i < j < self.polls@.len() ==> self.polls@[i].poll_id != self.polls@[j].poll_id
        &&& forall|i: int| 0 <= i < self.polls@.len() ==> (#[trigger] self.polls@[i]).wf()
        &&& forall|i: int, j: int|
            #![trigger self.records@[i], self.records@[j]]
            0 <= i < j < self.records@.len() ==> !(self.records@[i].poll == self.records@[j].poll
                && self.records@[i].voter == self.records@[j].voter)
    }
}

impl View for Ledger {
    type V = LedgerView;

    closed spec fn view(&self) -> LedgerView {
        LedgerView {
            polls: Map::new(
                |poll_id: u64| self.has_poll_id(poll_id),
                |poll_id: u64| self.polls@[self.poll_index(poll_id)]@,
            ),
            votes: Map::new(
                |k: (u64, Pubkey)| self.has_vote_id(k.0, k.1),
                |k: (u64, Pubkey)| self.records@[self.vote_index(k.0, k.1)],
            ),
        }
    }
}

/// A position that holds `poll_id` is the unique one, and gives the view's
/// value at that key.
proof fn lemma_poll_index(l: Ledger, i: int, poll_id: u64)
    requires
        l.inv(),
        l.has_poll_at(i, poll_id),
    ensures
        l@.polls.contains_key(poll_id),
        l.poll_index(poll_id) == i,
        l@.polls[poll_id] == l.polls@[i]@,
{
    assert(l.has_poll_id(poll_id));
    let j = l.poll_index(poll_id);
    assert(l.has_poll_at(j, poll_id));
    if i < j {
        assert(l.polls@[i].poll_id != l.polls@[j].poll_id);
    } else if j < i {
        assert(l.polls@[j].poll_id != l.polls@[i].poll_id);
    }
}

proof fn lemma_no_poll_index(l: Ledger, poll_id: u64)
    requires
        !l.has_poll_id(poll_id),
    ensures
        !l@.polls.contains_key(poll_id),
{
}

/// A position that holds the (poll, voter) pair is the unique one, and gives
/// the view's value at that key.
proof fn lemma_vote_index(l: Ledger, i: int, poll_id: u64, voter: Pubkey)
    requires
        l.inv(),
        l.has_vote_at(i, poll_id, voter),
    ensures
        l@.votes.contains_key((poll_id, voter)),
        l.vote_index(poll_id, voter) == i,
        l@.votes[(poll_id, voter)] == l.records@[i],
{
    assert(l.has_vote_id(poll_id, voter));
    let j = l.vote_index(poll_id, voter);
    assert(l.has_vote_at(j, poll_id, voter));
    if i < j {
        assert(!(l.records@[i].poll == l.records@[j].poll && l.records@[i].voter
            == l.records@[j].voter));
    } else if j < i {
        assert(!(l.records@[j].poll == l.records@[i].poll && l.records@[j].voter
            == l.records@[i].voter));
    }
}

proof fn lemma_no_vote_index(l: Ledger, poll_id: u64, voter: Pubkey)
    requires
        !l.has_vote_id(poll_id, voter),
    ensures
        !l@.votes.contains_key((poll_id, voter)),
{
}

/// Two ledgers with the same stored polls present the same poll map.
proof fn lemma_same_polls_view(pre: Ledger, post: Ledger)
    requires
        pre.inv(),
        post.inv(),
        post.polls@ == pre.polls@,
    ensures
        post@.polls == pre@.polls,
{
    assert forall|k: u64| pre.has_poll_id(k) implies post.has_poll_id(k) by {
        let i = choose|i: int| pre.has_poll_at(i, k);
        assert(post.has_poll_at(i, k));
    }
    assert forall|k: u64| post.has_poll_id(k) implies pre.has_poll_id(k) by {
        let i = choose|i: int| post.has_poll_at(i, k);
        assert(pre.has_poll_at(i, k));
    }
    assert forall|k: u64| post.has_poll_id(k) implies post@.polls[k] == pre@.polls[k] by {
        let i = choose|i: int| post.has_poll_at(i, k);
        assert(pre.has_poll_at(i, k));
        lemma_poll_index(post, i, k);
        lemma_poll_index(pre, i, k);
    }
    assert(post@.polls =~= pre@.polls);
}

/// Two ledgers with the same stored records present the same vote map.
proof fn lemma_same_votes_view(pre: Ledger, post: Ledger)
    requires
        pre.inv(),
        post.inv(),
        post.records@ == pre.records@,
    ensures
        post@.votes == pre@.votes,
{
    assert forall|k: (u64, Pubkey)| pre.has_vote_id(k.0, k.1) implies post.has_vote_id(
        k.0,
        k.1,
    ) by {
        let i = choose|i: int| pre.has_vote_at(i, k.0, k.1);
        assert(post.has_vote_at(i, k.0, k.1));
    }
    assert forall|k: (u64, Pubkey)| post.has_vote_id(k.0, k.1) implies pre.has_vote_id(
        k.0,
        k.1,
    ) by {
        let i = choose|i: int| post.has_vote_at(i, k.0, k.1);
        assert(pre.has_vote_at(i, k.0, k.1));
    }
    assert forall|k: (u64, Pubkey)| post.has_vote_id(k.0, k.1) implies post@.votes[k]
        == pre@.votes[k] by {
        let i = choose|i: int| post.has_vote_at(i, k.0, k.1);
        assert(pre.has_vote_at(i, k.0, k.1));
        lemma_vote_index(post, i, k.0, k.1);
        lemma_vote_index(pre, i, k.0, k.1);
    }
    assert(post@.votes =~= pre@.votes);
}

/// Appending a poll under a fresh key keeps the invariant and inserts its
/// view into the poll map.
proof fn lemma_push_poll(pre: Ledger, post: Ledger, p: Poll)
    requires
        pre.inv(),
        p.wf(),
        !pre.has_poll_id(p.poll_id),
        post.polls@ == pre.polls@.push(p),
        post.records@ == pre.records@,
    ensures
        post.inv(),
        post@.polls == pre@.polls.insert(p.poll_id, p@),
        post@.votes == pre@.votes,
{
    let n = pre.polls@.len() as int;
    assert forall|i: int, j: int|
        #![trigger post.polls@[i].poll_id, post.polls@[j].poll_id]
        0 <= i < j < post.polls@.len() implies post.polls@[i].poll_id
        != post.polls@[j].poll_id by {
        if j < n {
            assert(pre.polls@[i].poll_id != pre.polls@[j].poll_id);
        } else {
            assert(post.polls@[j] == p);
            assert(post.polls@[i] == pre.polls@[i]);
            if pre.polls@[i].poll_id == p.poll_id {
                assert(pre.has_poll_at(i, p.poll_id));
                assert(false);
            }
        }
    }
    assert forall|i: int| 0 <= i < post.polls@.len() implies (#[trigger] post.polls@[i]).wf() by {
        if i < n {
            assert(pre.polls@[i].wf());
        } else {
            assert(post.polls@[i] == p);
        }
    }
    assert(post.inv());
    lemma_same_votes_view(pre, post);
    assert forall|k: u64| post.has_poll_id(k) implies pre@.polls.insert(
        p.poll_id,
        p@,
    ).dom().contains(k) by {
        let i = choose|i: int| post.has_poll_at(i, k);
        if i < n {
            assert(pre.has_poll_at(i, k));
        } else {
            assert(post.polls@[i] == p);
        }
    }
    assert forall|k: u64| pre@.polls.insert(p.poll_id, p@).dom().contains(k) implies
        post.has_poll_id(k) by {
        if k == p.poll_id {
            assert(post.has_poll_at(n, k));
        } else {
            let i = choose|i: int| pre.has_poll_at(i, k);
            assert(post.has_poll_at(i, k));
        }
    }
    assert forall|k: u64| post.has_poll_id(k) implies post@.polls[k] == pre@.polls.insert(
        p.poll_id,
        p@,
    )[k] by {
        let i = choose|i: int| post.has_poll_at(i, k);
        lemma_poll_index(post, i, k);
        if i < n {
            assert(pre.has_poll_at(i, k));
            lemma_poll_index(pre, i, k);
            assert(k != p.poll_id);
        } else {
            assert(post.polls@[i] == p);
            assert(k == p.poll_id);
        }
    }
    assert(post@.polls =~= pre@.polls.insert(p.poll_id, p@));
}

/// Replacing the poll stored at a position with one that keeps its key keeps
/// the invariant and overwrites that key's view in the poll map.
proof fn lemma_update_poll(pre: Ledger, post: Ledger, pi: int, p: Poll)
    requires
        pre.inv(),
        p.wf(),
        0 <= pi < pre.polls@.len(),
        p.poll_id == pre.polls@[pi].poll_id,
        post.polls@ == pre.polls@.update(pi, p),
        post.records@ == pre.records@,
    ensures
        post.inv(),
        post@.polls == pre@.polls.insert(p.poll_id, p@),
        post@.votes == pre@.votes,
{
    assert forall|i: int, j: int|
        #![trigger post.polls@[i].poll_id, post.polls@[j].poll_id]
        0 <= i < j < post.polls@.len() implies post.polls@[i].poll_id
        != post.polls@[j].poll_id by {
        assert(post.polls@[i].poll_id == pre.polls@[i].poll_id);
        assert(post.polls@[j].poll_id == pre.polls@[j].poll_id);
        assert(pre.polls@[i].poll_id != pre.polls@[j].poll_id);
    }
    assert forall|i: int| 0 <= i < post.polls@.len() implies (#[trigger] post.polls@[i]).wf() by {
        if i != pi {
            assert(pre.polls@[i].wf());
        }
    }
    assert(post.inv());
    lemma_same_votes_view(pre, post);
    assert forall|k: u64| post.has_poll_id(k) implies pre@.polls.insert(
        p.poll_id,
        p@,
    ).dom().contains(k) by {
        let i = choose|i: int| post.has_poll_at(i, k);
        assert(pre.has_poll_at(i, k));
        lemma_poll_index(pre, i, k);
    }
    assert forall|k: u64| pre@.polls.insert(p.poll_id, p@).dom().contains(k) implies
        post.has_poll_id(k) by {
        if k == p.poll_id {
            assert(post.has_poll_at(pi, k));
        } else {
            let i = choose|i: int| pre.has_poll_at(i, k);
            assert(post.has_poll_at(i, k));
        }
    }
    assert forall|k: u64| post.has_poll_id(k) implies post@.polls[k] == pre@.polls.insert(
        p.poll_id,
        p@,
    )[k] by {
        let i = choose|i: int| post.has_poll_at(i, k);
        lemma_poll_index(post, i, k);
        if i == pi {
            assert(k == p.poll_id);
            assert(post.polls@[i] == p);
        } else {
            assert(pre.has_poll_at(i, k));
            lemma_poll_index(pre, i, k);
            assert(k != p.poll_id);
        }
    }
    assert(post@.polls =~= pre@.polls.insert(p.poll_id, p@));
}

/// Appending a vote record under a fresh (poll, voter) key keeps the
/// invariant and inserts the record into the vote map.
proof fn lemma_push_record(pre: Ledger, post: Ledger, rec: VoteRecord)
    requires
        pre.inv(),
        !pre.has_vote_id(rec.poll, rec.voter),
        post.records@ == pre.records@.push(rec),
        post.polls@ == pre.polls@,
    ensures
        post.inv(),
        post@.votes == pre@.votes.insert((rec.poll, rec.voter), rec),
        post@.polls == pre@.polls,
{
    let n = pre.records@.len() as int;
    assert forall|i: int, j: int|
        #![trigger post.records@[i], post.records@[j]]
        0 <= i < j < post.records@.len() implies !(post.records@[i].poll == post.records@[j].poll
        && post.records@[i].voter == post.records@[j].voter) by {
        if j < n {
            assert(post.records@[i] == pre.records@[i]);
            assert(post.records@[j] == pre.records@[j]);
        } else {
            assert(post.records@[j] == rec);
            assert(post.records@[i] == pre.records@[i]);
            if pre.records@[i].poll == rec.poll && pre.records@[i].voter == rec.voter {
                assert(pre.has_vote_at(i, rec.poll, rec.voter));
                assert(false);
            }
        }
    }
    assert(post.inv());
    lemma_same_polls_view(pre, post);
    assert forall|k: (u64, Pubkey)| post.has_vote_id(k.0, k.1) implies pre@.votes.insert(
        (rec.poll, rec.voter),
        rec,
    ).dom().contains(k) by {
        let i = choose|i: int| post.has_vote_at(i, k.0, k.1);
        if i < n {
            assert(pre.has_vote_at(i, k.0, k.1));
            lemma_vote_index(pre, i, k.0, k.1);
        } else {
            assert(post.records@[i] == rec);
            assert(k == (rec.poll, rec.voter));
        }
    }
    assert forall|k: (u64, Pubkey)| pre@.votes.insert((rec.poll, rec.voter), rec).dom().contains(
        k,
    ) implies post.has_vote_id(k.0, k.1) by {
        if k == (rec.poll, rec.voter) {
            assert(post.records@[n] == rec);
            assert(post.has_vote_at(n, k.0, k.1));
        } else {
            let i = choose|i: int| pre.has_vote_at(i, k.0, k.1);
            assert(post.has_vote_at(i, k.0, k.1));
        }
    }
    assert forall|k: (u64, Pubkey)| post.has_vote_id(k.0, k.1) implies post@.votes[k]
        == pre@.votes.insert((rec.poll, rec.voter), rec)[k] by {
        let i = choose|i: int| post.has_vote_at(i, k.0, k.1);
        lemma_vote_index(post, i, k.0, k.1);
        if i < n {
            assert(pre.has_vote_at(i, k.0, k.1));
            lemma_vote_index(pre, i, k.0, k.1);
            assert(k != (rec.poll, rec.voter));
        } else {
            assert(post.records@[i] == rec);
            assert(k == (rec.poll, rec.voter));
        }
    }
    assert(post@.votes =~= pre@.votes.insert((rec.poll, rec.voter), rec));
}

/// Every reachable ledger presents only well-formed polls.
pub proof fn lemma_inv_view_wf(l: Ledger)
    requires
        l.inv(),
    ensures
        view_wf(l@),
{
    assert forall|poll_id: u64| #[trigger] l@.polls.contains_key(poll_id) implies poll_wf(
        l@.polls[poll_id],
    ) by {
        let i = choose|i: int| l.has_poll_at(i, poll_id);
        lemma_poll_index(l, i, poll_id);
        assert(l.polls@[i].wf());
    }
}

impl Ledger {
    /// An empty ledger: no polls, no vote records.
    pub fn new() -> (l: Ledger)
        ensures
            l.inv(),
            l@ == (LedgerView {
                polls: Map::<u64, PollView>::empty(),
                votes: Map::<(u64, Pubkey), VoteRecord>::empty(),
            }),
    {
        let l = Ledger { polls: Vec::new(), records: Vec::new() };
        proof {
            assert(l@.polls =~= Map::<u64, PollView>::empty());
            assert(l@.votes =~= Map::<(u64, Pubkey), VoteRecord>::empty());
        }
        l
    }

    fn find_poll(&self, poll_id: u64) -> (r: Option<usize>)
        ensures
            match r {
                Some(i) => self.has_poll_at(i as int, poll_id),
                None => !self.has_poll_id(poll_id),
            },
    {
        let mut i: usize = 0;
        while i < self.polls.len()
            invariant
                i <= self.polls@.len(),
                forall|k: int| 0 <= k < i ==> self.polls@[k].poll_id != poll_id,
            decreases self.polls@.len() - i,
        {
            if self.polls[i].poll_id == poll_id {
                return Some(i);
            }
            i += 1;
        }
        None
    }

    fn find_record(&self, poll_id: u64, voter: &Pubkey) -> (r: Option<usize>)
        ensures
            match r {
                Some(i) => self.has_vote_at(i as int, poll_id, *voter),
                None => !self.has_vote_id(poll_id, *voter),
            },
    {
        let mut i: usize = 0;
        while i < self.records.len()
            invariant
                i <= self.records@.len(),
                forall|k: int|
                    0 <= k < i ==> !((#[trigger] self.records@[k]).poll == poll_id
                        && self.records@[k].voter == *voter),
            decreases self.records@.len() - i,
        {
            if self.records[i].poll == poll_id && self.records[i].voter.equals(voter) {
                return Some(i);
            }
            i += 1;
        }
        None
    }

    /// Create a poll under `poll_id`. An already-taken id fails with an
    /// allocation conflict and changes nothing; otherwise the new poll is
    /// stored with zeroed tallies and the active flag set.
    pub fn initialize_poll(
        &mut self,
        authority: Pubkey,
        poll_id: u64,
        description: String,
        start_time: i64,
        end_time: i64,
        options: Vec<String>,
    ) -> (r: Result<(), VotingError>)
        requires
            old(self).inv(),
        ensures
            final(self).inv(),
            ({
                let (s, res) = init_step(
                    old(self)@,
                    authority,
                    poll_id,
                    description@,
                    start_time,
                    end_time,
                    options.deep_view(),
                );
                final(self)@ == s && r == res
            }),
    {
        match self.find_poll(poll_id) {
            Some(i) => {
                proof {
                    lemma_poll_index(*self, i as int, poll_id);
                }
                return Err(VotingError::AllocationConflict);
            },
            None => {},
        }
        proof {
            lemma_no_poll_index(*self, poll_id);
        }
        let p = Poll::new(authority, poll_id, description, start_time, end_time, options);
        let ghost pre = *self;
        let ghost pv = p;
        self.polls.push(p);
        proof {
            lemma_push_poll(pre, *self, pv);
        }
        Ok(())
    }

    /// Cast `voter`'s vote for `option_index` at time `now`. The checks of
    /// [`vote_check`] run in order; a voter who already holds a record on
    /// this poll gets an allocation conflict; on success the record is
    /// created and both tallies grow by one, atomically.
    pub fn cast_vote(&mut self, poll_id: u64, voter: Pubkey, option_index: u8, now: i64) -> (r:
        Result<(), VotingError>)
        requires
            old(self).inv(),
            old(self)@.polls.contains_key(poll_id),
            old(self)@.polls[poll_id].total_votes < u64::MAX,
        ensures
            final(self).inv(),
            ({
                let (s, res) = cast_step(old(self)@, poll_id, voter, option_index, now);
                final(self)@ == s && r == res
            }),
    {
        let pi = match self.find_poll(poll_id) {
            Some(i) => i,
            None => {
                proof {
                    lemma_no_poll_index(*self, poll_id);
                }
                unreached()
            },
        };
        proof {
            lemma_poll_index(*self, pi as int, poll_id);
        }
        match self.polls[pi].check_vote(option_index, now) {
            Err(e) => {
                return Err(e);
            },
            Ok(_) => {},
        }
        match self.find_record(poll_id, &voter) {
            Some(i) => {
                proof {
                    lemma_vote_index(*self, i as int, poll_id, voter);
                }
                return Err(VotingError::AllocationConflict);
            },
            None => {},
        }
        proof {
            lemma_no_vote_index(*self, poll_id, voter);
            assert(self.polls@[pi as int].wf());
        }
        let ghost pre = *self;
        let p = &mut self.polls[pi];
        let rec = p.record_vote(voter, option_index, now);
        let ghost mid = *self;
        proof {
            lemma_update_poll(pre, mid, pi as int, mid.polls@[pi as int]);
        }
        self.records.push(rec);
        proof {
            lemma_push_record(mid, *self, rec);
        }
        Ok(())
    }

    /// Close the poll under `poll_id`. Only its authority may; anyone else is
    /// rejected and nothing changes. Closing an already-closed poll is a
    /// harmless no-op.
    pub fn close_poll(&mut self, poll_id: u64, authority: Pubkey) -> (r: Result<(), VotingError>)
        requires
            old(self).inv(),
            old(self)@.polls.contains_key(poll_id),
        ensures
            final(self).inv(),
            ({
                let (s, res) = close_step(old(self)@, poll_id, authority);
                final(self)@ == s && r == res
            }),
    {
        let pi = match self.find_poll(poll_id) {
            Some(i) => i,
            None => {
                proof {
                    lemma_no_poll_index(*self, poll_id);
                }
                unreached()
            },
        };
        proof {
            lemma_poll_index(*self, pi as int, poll_id);
            assert(self.polls@[pi as int].wf());
        }
        let ghost pre = *self;
        let p = &mut self.polls[pi];
        let r = p.close(authority);
        proof {
            lemma_update_poll(pre, *self, pi as int, self.polls@[pi as int]);
            if r is Err {
                assert(pre@.polls.insert(poll_id, pre@.polls[poll_id]) =~= pre@.polls);
            }
        }
        r
    }

    /// Look a poll up by its key.
    pub fn get_poll(&self, poll_id: u64) -> (r: Option<&Poll>)
        requires
            self.inv(),
        ensures
            match r {
                Some(p) => self@.polls.contains_key(poll_id) && p@ == self@.polls[poll_id],
                None => !self@.polls.contains_key(poll_id),
            },
    {
        match self.find_poll(poll_id) {
            Some(i) => {
                proof {
                    lemma_poll_index(*self, i as int, poll_id);
                }
                Some(&self.polls[i])
            },
            None => {
                proof {
                    lemma_no_poll_index(*self, poll_id);
                }
                None
            },
        }
    }

    /// Look a vote record up by its (poll, voter) key.
    pub fn get_vote_record(&self, poll_id: u64, voter: &Pubkey) -> (r: Option<&VoteRecord>)
        requires
            self.inv(),
        ensures
            match r {
                Some(rec) => self@.votes.contains_key((poll_id, *voter)) && *rec == self@.votes[(
                    poll_id,
                    *voter,
                )],
                None => !self@.votes.contains_key((poll_id, *voter)),
            },
    {
        match self.find_record(poll_id, voter) {
            Some(i) => {
                proof {
                    lemma_vote_index(*self, i as int, poll_id, *voter);
                }
                Some(&self.records[i])
            },
            None => {
                proof {
                    lemma_no_vote_index(*self, poll_id, *voter);
                }
                None
            },
        }
    }
}

} // verus!
