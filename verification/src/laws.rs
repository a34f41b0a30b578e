//! The properties that hold of the voting state machine, stated over the
//! step functions of [`crate::ledger`] and proved once and for all. Each law
//! quantifies over every ledger state and every input its hypotheses allow.

use vstd::prelude::*;

use crate::error::VotingError;
use crate::ledger::{cast_step, close_step, init_step, view_wf, LedgerView};
use crate::poll::{poll_wf, vote_check, PollView};
use crate::pubkey::Pubkey;

verus! {

/// Creating a poll claims its key: after a successful initialization with a
/// given `poll_id`, a second initialization with the same `poll_id` fails
/// with an allocation conflict and leaves the ledger unchanged, whatever its
/// other arguments are.
pub proof fn lemma_duplicate_poll_id_conflicts(
    s: LedgerView,
    a1: Pubkey,
    d1: Seq<char>,
    t1: i64,
    u1: i64,
    o1: Seq<Seq<char>>,
    a2: Pubkey,
    d2: Seq<char>,
    t2: i64,
    u2: i64,
    o2: Seq<Seq<char>>,
    poll_id: u64,
)
    requires
        init_step(s, a1, poll_id, d1, t1, u1, o1).1 is Ok,
    ensures
        ({
            let s1 = init_step(s, a1, poll_id, d1, t1, u1, o1).0;
            init_step(s1, a2, poll_id, d2, t2, u2, o2) == (
                s1,
                Err::<(), VotingError>(VotingError::AllocationConflict),
            )
        }),
{
}

/// One vote per voter per poll. After a successful cast by a voter on a poll,
/// no second cast by the same voter on the same poll can succeed, and the
/// failure leaves the ledger — tallies included — unchanged. When the second
/// attempt is otherwise admissible (the poll active, the time inside the
/// window, the option valid), the error is precisely the allocation conflict.
pub proof fn lemma_no_double_vote(
    s: LedgerView,
    poll_id: u64,
    voter: Pubkey,
    oi1: u8,
    t1: i64,
    oi2: u8,
    t2: i64,
)
    requires
        cast_step(s, poll_id, voter, oi1, t1).1 is Ok,
    ensures
        ({
            let s1 = cast_step(s, poll_id, voter, oi1, t1).0;
            let (s2, r2) = cast_step(s1, poll_id, voter, oi2, t2);
            &&& !(r2 is Ok)
            &&& s2 == s1
            &&& vote_check(s1.polls[poll_id], oi2, t2) is Ok ==> r2 == Err::<(), VotingError>(
                VotingError::AllocationConflict,
            )
        }),
{
}

/// A recorded vote never disappears: every transition of the state machine,
/// successful or not, keeps every existing (poll, voter) key of the vote map.
/// Together with [`lemma_no_double_vote`] this gives at most one successful
/// cast per (poll, voter) pair over any sequence of transitions.
pub proof fn lemma_votes_persist(
    s: LedgerView,
    k: (u64, Pubkey),
    authority: Pubkey,
    poll_id: u64,
    description: Seq<char>,
    start_time: i64,
    end_time: i64,
    options: Seq<Seq<char>>,
    voter: Pubkey,
    option_index: u8,
    now: i64,
)
    requires
        s.votes.contains_key(k),
    ensures
        init_step(s, authority, poll_id, description, start_time, end_time, options)
            .0.votes.contains_key(k),
        cast_step(s, poll_id, voter, option_index, now).0.votes.contains_key(k),
        close_step(s, poll_id, authority).0.votes.contains_key(k),
{
}

/// Tallies stay consistent through poll creation: in a ledger whose polls all
/// satisfy `total_votes == sum(vote_counts)`, they all still do after an
/// initialization, successful or not — the new poll starts with every counter
/// and the total at zero.
pub proof fn lemma_init_preserves_tally(
    s: LedgerView,
    authority: Pubkey,
    poll_id: u64,
    description: Seq<char>,
    start_time: i64,
    end_time: i64,
    options: Seq<Seq<char>>,
)
    requires
        view_wf(s),
    ensures
        view_wf(init_step(s, authority, poll_id, description, start_time, end_time, options).0),
{
    let s1 = init_step(s, authority, poll_id, description, start_time, end_time, options).0;
    assert forall|k: u64| #[trigger] s1.polls.contains_key(k) implies poll_wf(s1.polls[k]) by {
        if !s.polls.contains_key(poll_id) && k == poll_id {
            crate::poll::lemma_sum_zero(s1.polls[k].vote_counts);
        }
    }
}

/// Tallies stay consistent through voting: after any cast on a poll of the
/// ledger, every poll still satisfies `total_votes == sum(vote_counts)` — a
/// successful vote raises one counter and the total together, and a failed
/// one changes nothing. So after any sequence of votes, starting from
/// creation, the equality holds.
pub proof fn lemma_cast_preserves_tally(
    s: LedgerView,
    poll_id: u64,
    voter: Pubkey,
    option_index: u8,
    now: i64,
)
    requires
        view_wf(s),
        s.polls.contains_key(poll_id),
        s.polls[poll_id].total_votes < u64::MAX,
    ensures
        view_wf(cast_step(s, poll_id, voter, option_index, now).0),
{
    let s1 = cast_step(s, poll_id, voter, option_index, now).0;
    assert forall|k: u64| #[trigger] s1.polls.contains_key(k) implies poll_wf(s1.polls[k]) by {
        if cast_step(s, poll_id, voter, option_index, now).1 is Ok && k == poll_id {
            crate::poll::lemma_after_vote_wf(s.polls[poll_id], option_index);
        }
    }
}

/// Tallies stay consistent through closing: the counters and the total are
/// untouched, whether the close succeeds or is rejected.
pub proof fn lemma_close_preserves_tally(s: LedgerView, poll_id: u64, authority: Pubkey)
    requires
        view_wf(s),
        s.polls.contains_key(poll_id),
    ensures
        view_wf(close_step(s, poll_id, authority).0),
{
    let s1 = close_step(s, poll_id, authority).0;
    assert forall|k: u64| #[trigger] s1.polls.contains_key(k) implies poll_wf(s1.polls[k]) by {
        if authority == s.polls[poll_id].authority && k == poll_id {
            assert(s1.polls[k].vote_counts == s.polls[poll_id].vote_counts);
        }
    }
}

/// The voting window is inclusive at both ends. On an active poll, a vote
/// before `start_time` fails with PollNotStarted and one after `end_time`
/// fails with PollEnded; at exactly `start_time` or exactly `end_time`, a
/// vote for a valid option passes every check.
pub proof fn lemma_window_boundaries(p: PollView, option_index: u8, now: i64)
    requires
        p.is_active,
    ensures
        now < p.start_time ==> vote_check(p, option_index, now) == Err::<(), VotingError>(
            VotingError::PollNotStarted,
        ),
        p.start_time <= now && now > p.end_time ==> vote_check(p, option_index, now) == Err::<
            (),
            VotingError,
        >(VotingError::PollEnded),
        p.start_time <= now <= p.end_time && (option_index as int) < p.options.len()
            ==> vote_check(p, option_index, now) is Ok,
{
}

/// Closing is gated on the authority alone. A closer whose identity differs
/// from the poll's authority is rejected with Unauthorized and the ledger —
/// `is_active` included — is unchanged; the authority's close succeeds and
/// sets `is_active` to false, touching nothing else.
pub proof fn lemma_close_authorization(s: LedgerView, poll_id: u64, authority: Pubkey)
    requires
        s.polls.contains_key(poll_id),
    ensures
        authority != s.polls[poll_id].authority ==> close_step(s, poll_id, authority) == (
            s,
            Err::<(), VotingError>(VotingError::Unauthorized),
        ),
        authority == s.polls[poll_id].authority ==> ({
            let (s1, r1) = close_step(s, poll_id, authority);
            &&& r1 is Ok
            &&& s1.polls[poll_id].is_active == false
            &&& s1.polls[poll_id] == crate::poll::after_close(s.polls[poll_id])
            &&& s1.polls =~= s.polls.insert(poll_id, crate::poll::after_close(s.polls[poll_id]))
            &&& s1.votes == s.votes
        }),
{
}

/// An inactive poll rejects every vote with PollNotActive, regardless of the
/// time and of the chosen option.
pub proof fn lemma_inactive_poll_rejects(p: PollView, option_index: u8, now: i64)
    requires
        !p.is_active,
    ensures
        vote_check(p, option_index, now) == Err::<(), VotingError>(VotingError::PollNotActive),
{
}

/// Once closed, a poll stays closed: no transition of the state machine sets
/// `is_active` back to true on an existing poll.
pub proof fn lemma_closed_stays_closed(
    s: LedgerView,
    poll_id: u64,
    voter: Pubkey,
    authority: Pubkey,
    option_index: u8,
    now: i64,
)
    requires
        s.polls.contains_key(poll_id),
        !s.polls[poll_id].is_active,
    ensures
        !cast_step(s, poll_id, voter, option_index, now).0.polls[poll_id].is_active,
        !close_step(s, poll_id, authority).0.polls[poll_id].is_active,
{
}

} // verus!
