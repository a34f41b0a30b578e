//! Polls and vote records, with the per-poll transitions: validation of a
//! vote attempt, the atomic tally update, and the authority-gated close.

use vstd::pervasive::VecAdditionalExecFns;
use vstd::prelude::*;

use crate::error::VotingError;
use crate::pubkey::Pubkey;

verus! {

/// The sum of a sequence of counters, as an unbounded integer.
pub open spec fn sum(s: Seq<u64>) -> int
    decreases s.len(),
{
    if s.len() == 0 {
        0
    } else {
        sum(s.drop_last()) + s.last()
    }
}

pub proof fn lemma_sum_nonneg(s: Seq<u64>)
    ensures
        sum(s) >= 0,
    decreases s.len(),
{
    if s.len() > 0 {
        lemma_sum_nonneg(s.drop_last());
    }
}

/// Each counter is bounded by the sum of all of them.
pub proof fn lemma_sum_bounds_element(s: Seq<u64>, i: int)
    requires
        0 <= i < s.len(),
    ensures
        s[i] <= sum(s),
    decreases s.len(),
{
    if i == s.len() - 1 {
        lemma_sum_nonneg(s.drop_last());
    } else {
        lemma_sum_bounds_element(s.drop_last(), i);
    }
}

/// Replacing one counter changes the sum by the difference.
pub proof fn lemma_sum_update(s: Seq<u64>, i: int, v: u64)
    requires
        0 <= i < s.len(),
    ensures
        sum(s.update(i, v)) == sum(s) - s[i] + v,
    decreases s.len(),
{
    let t = s.update(i, v);
    if i == s.len() - 1 {
        assert(t.drop_last() =~= s.drop_last());
    } else {
        assert(t.drop_last() =~= s.drop_last().update(i, v));
        lemma_sum_update(s.drop_last(), i, v);
    }
}

pub proof fn lemma_sum_zero(s: Seq<u64>)
    requires
        forall|i: int| 0 <= i < s.len() ==> s[i] == 0,
    ensures
        sum(s) == 0,
    decreases s.len(),
{
    if s.len() > 0 {
        lemma_sum_zero(s.drop_last());
    }
}

/// The mathematical model of a poll: what a `Poll` holds, with the free-text
/// fields abstracted to sequences of characters.
#[verifier::ext_equal]
pub struct PollView {
    pub authority: Pubkey,
    pub poll_id: u64,
    pub description: Seq<char>,
    pub start_time: i64,
    pub end_time: i64,
    pub options: Seq<Seq<char>>,
    pub vote_counts: Seq<u64>,
    pub total_votes: u64,
    pub is_active: bool,
}

/// Well-formedness of a poll: one counter per option, and the running total
/// equal to the sum of the counters.
pub open spec fn poll_wf(p: PollView) -> bool {
    &&& p.vote_counts.len() == p.options.len()
    &&& p.total_votes == sum(p.vote_counts)
}

/// The poll that creation yields: all counters zero, active, every other
/// field as supplied by the caller.
pub open spec fn fresh_poll(
    authority: Pubkey,
    poll_id: u64,
    description: Seq<char>,
    start_time: i64,
    end_time: i64,
    options: Seq<Seq<char>>,
) -> PollView {
    PollView {
        authority,
        poll_id,
        description,
        start_time,
        end_time,
        options,
        vote_counts: Seq::new(options.len(), |i: int| 0u64),
        total_votes: 0,
        is_active: true,
    }
}

/// The vote-time checks, in order: the poll must be active, the time must lie
/// inside the window (both boundaries included), and the chosen option must
/// exist. The first violated check decides the error.
pub open spec fn vote_check(p: PollView, option_index: u8, now: i64) -> Result<(), VotingError> {
    if !p.is_active {
        Err(VotingError::PollNotActive)
    } else if now < p.start_time {
        Err(VotingError::PollNotStarted)
    } else if now > p.end_time {
        Err(VotingError::PollEnded)
    } else if p.options.len() <= option_index as int {
        Err(VotingError::InvalidOption)
    } else {
        Ok(())
    }
}

/// The poll after one vote for `option_index`: that counter and the total
/// each grow by one; nothing else moves.
pub open spec fn after_vote(p: PollView, option_index: u8) -> PollView {
    PollView {
        vote_counts: p.vote_counts.update(
            option_index as int,
            (p.vote_counts[option_index as int] + 1) as u64,
        ),
        total_votes: (p.total_votes + 1) as u64,
        ..p
    }
}

/// The poll after closing: inactive, nothing else moves.
pub open spec fn after_close(p: PollView) -> PollView {
    PollView { is_active: false, ..p }
}

/// One vote raises one counter and the total by one each, so consistency of
/// the tally survives the transition.
pub proof fn lemma_after_vote_wf(p: PollView, option_index: u8)
    requires
        poll_wf(p),
        (option_index as int) < p.options.len(),
        p.total_votes < u64::MAX,
    ensures
        poll_wf(after_vote(p, option_index)),
        p.vote_counts[option_index as int] < u64::MAX,
{
    lemma_sum_bounds_element(p.vote_counts, option_index as int);
    lemma_sum_update(
        p.vote_counts,
        option_index as int,
        (p.vote_counts[option_index as int] + 1) as u64,
    );
}

/// One vote subject: its options, window, and running tallies.
pub struct Poll {
    pub authority: Pubkey,
    pub poll_id: u64,
    pub description: String,
    pub start_time: i64,
    pub end_time: i64,
    pub options: Vec<String>,
    pub vote_counts: Vec<u64>,
    pub total_votes: u64,
    pub is_active: bool,
}

impl View for Poll {
    type V = PollView;

    open spec fn view(&self) -> PollView {
        PollView {
            authority: self.authority,
            poll_id: self.poll_id,
            description: self.description@,
            start_time: self.start_time,
            end_time: self.end_time,
            options: self.options.deep_view(),
            vote_counts: self.vote_counts@,
            total_votes: self.total_votes,
            is_active: self.is_active,
        }
    }
}

impl Poll {
    pub open spec fn wf(self) -> bool {
        poll_wf(self@)
    }

    /// Create a poll with the supplied fields, a zeroed counter per option,
    /// and the active flag set. No field is validated: in particular an empty
    /// option list and an inverted time window are stored as given.
    pub fn new(
        authority: Pubkey,
        poll_id: u64,
        description: String,
        start_time: i64,
        end_time: i64,
        options: Vec<String>,
    ) -> (p: Poll)
        ensures
            p@ == fresh_poll(
                authority,
                poll_id,
                description@,
                start_time,
                end_time,
                options.deep_view(),
            ),
            p.wf(),
    {
        let ghost desc_v = description@;
        let ghost opts_v = options.deep_view();
        let n = options.len();
        let mut vote_counts: Vec<u64> = Vec::new();
        let mut i: usize = 0;
        while i < n
            invariant
                i <= n,
                vote_counts@.len() == i,
                forall|k: int| 0 <= k < i ==> vote_counts@[k] == 0,
            decreases n - i,
        {
            vote_counts.push(0);
            i += 1;
        }
        proof {
            lemma_sum_zero(vote_counts@);
        }
        let p = Poll {
            authority,
            poll_id,
            description,
            start_time,
            end_time,
            options,
            vote_counts,
            total_votes: 0,
            is_active: true,
        };
        proof {
            assert(p@.vote_counts =~= fresh_poll(
                authority,
                poll_id,
                desc_v,
                start_time,
                end_time,
                opts_v,
            ).vote_counts);
            assert(p@ =~= fresh_poll(authority, poll_id, desc_v, start_time, end_time, opts_v));
        }
        p
    }

    /// Run the vote-time checks without touching the poll.
    pub fn check_vote(&self, option_index: u8, now: i64) -> (r: Result<(), VotingError>)
        ensures
            r == vote_check(self@, option_index, now),
    {
        if !self.is_active {
            return Err(VotingError::PollNotActive);
        }
        if now < self.start_time {
            return Err(VotingError::PollNotStarted);
        }
        if now > self.end_time {
            return Err(VotingError::PollEnded);
        }
        if self.options.len() <= option_index as usize {
            return Err(VotingError::InvalidOption);
        }
        Ok(())
    }

    /// Apply one vote that has passed the checks: raise the chosen counter
    /// and the total together, and build the record of the cast.
    pub fn record_vote(&mut self, voter: Pubkey, option_index: u8, now: i64) -> (rec: VoteRecord)
        requires
            old(self).wf(),
            vote_check(old(self)@, option_index, now) is Ok,
            old(self).total_votes < u64::MAX,
        ensures
            final(self)@ == after_vote(old(self)@, option_index),
            final(self).wf(),
            rec == (VoteRecord {
                voter,
                poll: old(self).poll_id,
                option_index,
                timestamp: now,
            }),
    {
        proof {
            lemma_after_vote_wf(old(self)@, option_index);
        }
        let idx = option_index as usize;
        let c = self.vote_counts[idx];
        self.vote_counts.set(idx, c + 1);
        self.total_votes = self.total_votes + 1;
        proof {
            assert(self@ =~= after_vote(old(self)@, option_index));
        }
        VoteRecord { voter, poll: self.poll_id, option_index, timestamp: now }
    }

    /// Close the poll: only the authority may, and the sole effect is that
    /// the active flag goes and stays false. Re-closing is a harmless no-op.
    pub fn close(&mut self, authority: Pubkey) -> (r: Result<(), VotingError>)
        ensures
            authority != old(self).authority ==> r == Err::<(), VotingError>(
                VotingError::Unauthorized,
            ) && *final(self) == *old(self),
            authority == old(self).authority ==> r == Ok::<(), VotingError>(())
                && final(self)@ == after_close(old(self)@),
    {
        if !authority.equals(&self.authority) {
            return Err(VotingError::Unauthorized);
        }
        self.is_active = false;
        proof {
            assert(self@ =~= after_close(old(self)@));
        }
        Ok(())
    }
}

/// One voter's single cast vote on one poll. Created exactly once per
/// (poll, voter) pair and never mutated.
#[derive(Clone, Copy, PartialEq, Eq, Debug)]
pub struct VoteRecord {
    /// The identity of the casting party.
    pub voter: Pubkey,
    /// The key of the poll voted on: a back-reference, not ownership.
    pub poll: u64,
    /// The chosen option.
    pub option_index: u8,
    /// The clock value at casting time.
    pub timestamp: i64,
}

} // verus!
