use voting_system::Ledger;
use voting_system::Pubkey;
use voting_system::VotingError;

fn key(tag: u8) -> Pubkey {
    Pubkey::new([tag; 32])
}

fn two_option_poll(ledger: &mut Ledger, authority: Pubkey) {
    let options = vec![String::from("A"), String::from("B")];
    let r = ledger.initialize_poll(
        authority,
        1,
        String::from("favorite letter"),
        100,
        200,
        options,
    );
    assert_eq!(r, Ok(()));
}

#[test]
fn initialize_populates_all_fields() {
    let mut ledger = Ledger::new();
    let alice = key(1);
    two_option_poll(&mut ledger, alice);
    let poll = ledger.get_poll(1).expect("poll must exist");
    assert!(poll.authority.equals(&alice));
    assert_eq!(poll.poll_id, 1);
    assert_eq!(poll.description, "favorite letter");
    assert_eq!(poll.start_time, 100);
    assert_eq!(poll.end_time, 200);
    assert_eq!(poll.options, vec![String::from("A"), String::from("B")]);
    assert_eq!(poll.vote_counts, vec![0, 0]);
    assert_eq!(poll.total_votes, 0);
    assert!(poll.is_active);
    assert!(ledger.get_poll(2).is_none());
}

#[test]
fn duplicate_poll_id_conflicts() {
    let mut ledger = Ledger::new();
    let alice = key(1);
    let bob = key(2);
    two_option_poll(&mut ledger, alice);
    let r = ledger.initialize_poll(
        bob,
        1,
        String::from("something else"),
        0,
        50,
        vec![String::from("X")],
    );
    assert_eq!(r, Err(VotingError::AllocationConflict));
    // The first poll is untouched.
    let poll = ledger.get_poll(1).expect("poll must exist");
    assert!(poll.authority.equals(&alice));
    assert_eq!(poll.options.len(), 2);
    assert_eq!(poll.end_time, 200);
}

#[test]
fn successful_vote_updates_tallies_and_record() {
    let mut ledger = Ledger::new();
    let alice = key(1);
    let x = key(10);
    two_option_poll(&mut ledger, alice);
    assert_eq!(ledger.cast_vote(1, x, 0, 150), Ok(()));
    let poll = ledger.get_poll(1).expect("poll must exist");
    assert_eq!(poll.vote_counts, vec![1, 0]);
    assert_eq!(poll.total_votes, 1);
    let rec = ledger.get_vote_record(1, &x).expect("record must exist");
    assert!(rec.voter.equals(&x));
    assert_eq!(rec.poll, 1);
    assert_eq!(rec.option_index, 0);
    assert_eq!(rec.timestamp, 150);
}

#[test]
fn double_vote_conflicts_and_leaves_tallies_unchanged() {
    let mut ledger = Ledger::new();
    let alice = key(1);
    let x = key(10);
    two_option_poll(&mut ledger, alice);
    assert_eq!(ledger.cast_vote(1, x, 0, 150), Ok(()));
    let r = ledger.cast_vote(1, x, 1, 160);
    assert_eq!(r, Err(VotingError::AllocationConflict));
    let poll = ledger.get_poll(1).expect("poll must exist");
    assert_eq!(poll.vote_counts, vec![1, 0]);
    assert_eq!(poll.total_votes, 1);
    // The stored record is still the first vote.
    let rec = ledger.get_vote_record(1, &x).expect("record must exist");
    assert_eq!(rec.option_index, 0);
    assert_eq!(rec.timestamp, 150);
}

#[test]
fn window_boundaries_are_inclusive() {
    let mut ledger = Ledger::new();
    let alice = key(1);
    two_option_poll(&mut ledger, alice);
    assert_eq!(
        ledger.cast_vote(1, key(10), 0, 99),
        Err(VotingError::PollNotStarted)
    );
    assert_eq!(
        ledger.cast_vote(1, key(11), 0, 201),
        Err(VotingError::PollEnded)
    );
    // Exactly at the boundaries, the vote succeeds.
    assert_eq!(ledger.cast_vote(1, key(12), 0, 100), Ok(()));
    assert_eq!(ledger.cast_vote(1, key(13), 1, 200), Ok(()));
    let poll = ledger.get_poll(1).expect("poll must exist");
    assert_eq!(poll.vote_counts, vec![1, 1]);
    assert_eq!(poll.total_votes, 2);
}

#[test]
fn invalid_option_is_rejected() {
    let mut ledger = Ledger::new();
    let alice = key(1);
    two_option_poll(&mut ledger, alice);
    assert_eq!(
        ledger.cast_vote(1, key(10), 2, 150),
        Err(VotingError::InvalidOption)
    );
    assert_eq!(
        ledger.cast_vote(1, key(10), 255, 150),
        Err(VotingError::InvalidOption)
    );
    let poll = ledger.get_poll(1).expect("poll must exist");
    assert_eq!(poll.total_votes, 0);
}

#[test]
fn poll_with_no_options_rejects_every_vote() {
    let mut ledger = Ledger::new();
    let alice = key(1);
    let r = ledger.initialize_poll(alice, 7, String::new(), 0, 1000, Vec::new());
    assert_eq!(r, Ok(()));
    assert_eq!(
        ledger.cast_vote(7, key(10), 0, 500),
        Err(VotingError::InvalidOption)
    );
}

#[test]
fn inverted_window_makes_voting_impossible() {
    // The core stores start_time > end_time as given; no instant can then
    // satisfy both window checks.
    let mut ledger = Ledger::new();
    let alice = key(1);
    let r = ledger.initialize_poll(
        alice,
        5,
        String::new(),
        200,
        100,
        vec![String::from("A")],
    );
    assert_eq!(r, Ok(()));
    assert_eq!(
        ledger.cast_vote(5, key(10), 0, 150),
        Err(VotingError::PollNotStarted)
    );
    assert_eq!(
        ledger.cast_vote(5, key(10), 0, 250),
        Err(VotingError::PollEnded)
    );
}

#[test]
fn no_record_for_a_party_that_never_voted() {
    let mut ledger = Ledger::new();
    let alice = key(1);
    two_option_poll(&mut ledger, alice);
    assert_eq!(ledger.cast_vote(1, key(10), 0, 150), Ok(()));
    assert!(ledger.get_vote_record(1, &key(11)).is_none());
    assert!(ledger.get_vote_record(2, &key(10)).is_none());
}

#[test]
fn close_requires_authority_and_clears_the_flag() {
    let mut ledger = Ledger::new();
    let alice = key(1);
    let mallory = key(9);
    two_option_poll(&mut ledger, alice);
    assert_eq!(
        ledger.close_poll(1, mallory),
        Err(VotingError::Unauthorized)
    );
    assert!(ledger.get_poll(1).expect("poll must exist").is_active);
    assert_eq!(ledger.close_poll(1, alice), Ok(()));
    assert!(!ledger.get_poll(1).expect("poll must exist").is_active);
    // Re-closing by the authority is a harmless no-op.
    assert_eq!(ledger.close_poll(1, alice), Ok(()));
    assert!(!ledger.get_poll(1).expect("poll must exist").is_active);
}

#[test]
fn inactive_poll_rejects_votes_inside_the_window() {
    let mut ledger = Ledger::new();
    let alice = key(1);
    two_option_poll(&mut ledger, alice);
    assert_eq!(ledger.close_poll(1, alice), Ok(()));
    assert_eq!(
        ledger.cast_vote(1, key(10), 0, 150),
        Err(VotingError::PollNotActive)
    );
    // Inactivity is reported even when the time is also out of the window.
    assert_eq!(
        ledger.cast_vote(1, key(10), 0, 99),
        Err(VotingError::PollNotActive)
    );
}

#[test]
fn total_votes_matches_the_sum_of_vote_counts() {
    let mut ledger = Ledger::new();
    let alice = key(1);
    let options = vec![
        String::from("A"),
        String::from("B"),
        String::from("C"),
    ];
    let r = ledger.initialize_poll(alice, 3, String::from("pick one"), 0, 1000, options);
    assert_eq!(r, Ok(()));
    let picks: [(u8, u8); 5] = [(10, 0), (11, 2), (12, 2), (13, 1), (14, 2)];
    for (voter, option) in picks {
        assert_eq!(ledger.cast_vote(3, key(voter), option, 500), Ok(()));
    }
    let poll = ledger.get_poll(3).expect("poll must exist");
    assert_eq!(poll.vote_counts, vec![1, 1, 3]);
    let sum: u64 = poll.vote_counts.iter().sum();
    assert_eq!(poll.total_votes, sum);
    assert_eq!(poll.total_votes, 5);
}

#[test]
fn full_poll_lifecycle() {
    // Initialize poll 1 with options ["A", "B"] and window [100, 200].
    let mut ledger = Ledger::new();
    let authority = key(1);
    let voter_x = key(10);
    let voter_y = key(11);
    let voter_z = key(12);
    let non_authority = key(9);
    two_option_poll(&mut ledger, authority);

    // Voter X votes for option 0 at time 150: succeeds.
    assert_eq!(ledger.cast_vote(1, voter_x, 0, 150), Ok(()));
    let poll = ledger.get_poll(1).expect("poll must exist");
    assert_eq!(poll.vote_counts, vec![1, 0]);
    assert_eq!(poll.total_votes, 1);

    // Voter X again, option 1 at time 160: allocation conflict, tallies kept.
    assert_eq!(
        ledger.cast_vote(1, voter_x, 1, 160),
        Err(VotingError::AllocationConflict)
    );
    let poll = ledger.get_poll(1).expect("poll must exist");
    assert_eq!(poll.vote_counts, vec![1, 0]);
    assert_eq!(poll.total_votes, 1);

    // Voter Y, option 5 at time 170: invalid option.
    assert_eq!(
        ledger.cast_vote(1, voter_y, 5, 170),
        Err(VotingError::InvalidOption)
    );

    // Close by a non-authority: unauthorized.
    assert_eq!(
        ledger.close_poll(1, non_authority),
        Err(VotingError::Unauthorized)
    );

    // Close by the authority: succeeds.
    assert_eq!(ledger.close_poll(1, authority), Ok(()));

    // Voter Z at time 180: the poll is no longer active.
    assert_eq!(
        ledger.cast_vote(1, voter_z, 0, 180),
        Err(VotingError::PollNotActive)
    );
}
