use tragedy_of_commons::{
    calculate_round_state, end_game, finalize_moves, first_move_per_owner, new_move,
    new_player_stats, next_round, player_stats_from_moves, round_info, round_state_fits_amounts,
    single_link_target, start_new_round, try_to_close_round, validate_create_entry_game_move,
    validate_delete_entry_game_move, validate_update_entry_game_move,
    validate_update_entry_game_round, AgentKey, CloseError, EntryRef, GameMove, GameParams,
    GameRound, GameSession, LinkError, MoveError, NextAction, PlayerStats, RegenerationFactor,
    Rejection, RoundClose, RoundState, SessionState,
};

fn key(b: u8) -> AgentKey {
    AgentKey::new(vec![b, b, b])
}

fn entry(b: u8) -> EntryRef {
    EntryRef::new(vec![0xee, b])
}

fn params(num: u32, den: u32, start: i32, rounds: u32) -> GameParams {
    GameParams {
        regeneration_factor: RegenerationFactor::new(num, den).unwrap(),
        start_amount: start,
        num_rounds: rounds,
    }
}

fn session_of(players: Vec<AgentKey>, params: GameParams) -> GameSession {
    GameSession::new(key(9), params, players, entry(200))
}

fn mv(owner: u8, round: u8, resources: i32) -> GameMove {
    GameMove { owner: key(owner), round: entry(round), resources }
}

fn round_with_left(num: u32, left: i32) -> GameRound {
    GameRound::new(num, entry(100), RoundState::new(left, 0, 0, PlayerStats::new()))
}

#[test]
fn scenario_a_first_round_goes_on() {
    let session = session_of(vec![key(1), key(2)], params(11, 10, 100, 3));
    let round0 = GameRound::first(entry(100), &session.game_params);
    let moves = vec![mv(1, 1, 10), mv(2, 1, 10)];
    match try_to_close_round(&entry(1), &round0, &session, moves) {
        Ok(RoundClose::NextRound { round, moves }) => {
            assert_eq!(round.round_num, 1);
            assert_eq!(round.session, entry(100));
            assert_eq!(round.state.resources_taken, 20);
            assert_eq!(round.state.resources_left, 88);
            assert_eq!(round.state.resources_grown, 8);
            assert_eq!(round.state.player_stats.get(&key(1)), Some(10));
            assert_eq!(round.state.player_stats.get(&key(2)), Some(10));
            assert_eq!(round.state.player_stats.len(), 2);
            assert_eq!(moves.len(), 2);
        }
        other => panic!("expected the next round, got {:?}", other),
    }
}

#[test]
fn scenario_b_last_round_ends_the_game() {
    let session = session_of(vec![key(1), key(2)], params(11, 10, 100, 3));
    let round2 = round_with_left(2, 88);
    let moves = vec![mv(1, 3, 60), mv(2, 3, 60)];
    match try_to_close_round(&entry(3), &round2, &session, moves) {
        Ok(RoundClose::GameOver { session: ended, state, moves }) => {
            assert_eq!(state.resources_taken, 120);
            // -32 grown by 11/10 is -35.2, rounded down to -36
            assert_eq!(state.resources_left, -36);
            assert_eq!(state.resources_grown, -4);
            assert_eq!(moves.len(), 2);
            match &ended.status {
                SessionState::Finished { last_round } => assert_eq!(*last_round, entry(3)),
                other => panic!("expected a finished game, got {:?}", other),
            }
            assert_eq!(ended.scores.get(&key(1)), Some(60));
            assert_eq!(ended.scores.get(&key(2)), Some(60));
            assert_eq!(ended.players, vec![key(1), key(2)]);
            assert_eq!(ended.owner, key(9));
        }
        other => panic!("expected the game to be over, got {:?}", other),
    }
}

#[test]
fn scenario_c_waits_for_the_missing_player() {
    let session = session_of(vec![key(1), key(2)], params(11, 10, 100, 3));
    let round0 = GameRound::first(entry(100), &session.game_params);
    for _ in 0..2 {
        match try_to_close_round(&entry(1), &round0, &session, vec![mv(1, 1, 10)]) {
            Ok(RoundClose::Waiting { outstanding }) => assert_eq!(outstanding, 1),
            other => panic!("expected to wait, got {:?}", other),
        }
    }
    assert_eq!(round0.round_num, 0);
    assert_eq!(round0.state.resources_left, 100);
}

#[test]
fn scenario_c_duplicates_of_one_player_still_wait() {
    let session = session_of(vec![key(1), key(2)], params(11, 10, 100, 3));
    let round0 = GameRound::first(entry(100), &session.game_params);
    let moves = vec![mv(1, 1, 10), mv(1, 1, 20), mv(1, 1, 30)];
    match try_to_close_round(&entry(1), &round0, &session, moves) {
        Ok(RoundClose::Waiting { outstanding }) => assert_eq!(outstanding, 1),
        other => panic!("expected to wait, got {:?}", other),
    }
}

#[test]
fn scenario_d_negative_move_is_rejected() {
    let session = session_of(vec![key(1), key(2)], params(11, 10, 100, 3));
    assert_eq!(
        validate_create_entry_game_move(&mv(1, 1, -5), &session),
        Err(Rejection::NegativeResources { resources: -5 })
    );
    assert_eq!(
        validate_create_entry_game_move(&mv(7, 1, -5), &session),
        Err(Rejection::NegativeResources { resources: -5 })
    );
}

#[test]
fn move_validation_accepts_players_and_zero() {
    let session = session_of(vec![key(1), key(2)], params(11, 10, 100, 3));
    assert_eq!(validate_create_entry_game_move(&mv(2, 1, 0), &session), Ok(()));
    assert_eq!(validate_create_entry_game_move(&mv(1, 1, 15), &session), Ok(()));
    assert_eq!(
        validate_create_entry_game_move(&mv(3, 1, 15), &session),
        Err(Rejection::OwnerNotAPlayer)
    );
    assert_eq!(validate_update_entry_game_move(), Err(Rejection::MoveUpdated));
    assert_eq!(validate_delete_entry_game_move(), Err(Rejection::MoveDeleted));
}

#[test]
fn repeated_close_attempts_agree() {
    let session = session_of(vec![key(1), key(2)], params(11, 10, 100, 3));
    let round0 = GameRound::first(entry(100), &session.game_params);
    let first = try_to_close_round(&entry(1), &round0, &session, vec![mv(1, 1, 10), mv(2, 1, 10)]);
    let second = try_to_close_round(&entry(1), &round0, &session, vec![mv(1, 1, 10), mv(2, 1, 10)]);
    match (first, second) {
        (Ok(RoundClose::NextRound { round: a, .. }), Ok(RoundClose::NextRound { round: b, .. })) => {
            assert_eq!(a.round_num, b.round_num);
            assert_eq!(a.state.resources_left, b.state.resources_left);
            assert_eq!(a.state.resources_taken, b.state.resources_taken);
            assert_eq!(a.state.resources_grown, b.state.resources_grown);
            assert_eq!(a.state.player_stats.get(&key(1)), b.state.player_stats.get(&key(1)));
            assert_eq!(validate_update_entry_game_round(&a, &session, Some(&round0)), Ok(()));
            assert_eq!(validate_update_entry_game_round(&b, &session, Some(&round0)), Ok(()));
            assert_eq!(a.state.resources_left, 88);
        }
        other => panic!("expected two next rounds, got {:?}", other),
    }
}

#[test]
fn racing_close_attempts_each_give_a_valid_fork() {
    let session = session_of(vec![key(1), key(2)], params(11, 10, 100, 3));
    let round0 = GameRound::first(entry(100), &session.game_params);
    // a later peer also sees a second move of player 1; the first still counts
    let a = try_to_close_round(&entry(1), &round0, &session, vec![mv(1, 1, 10), mv(2, 1, 10)]);
    let b = try_to_close_round(&entry(1), &round0, &session, vec![mv(2, 1, 10), mv(1, 1, 10), mv(1, 1, 40)]);
    match (a, b) {
        (Ok(RoundClose::NextRound { round: a, .. }), Ok(RoundClose::NextRound { round: b, .. })) => {
            assert_eq!(validate_update_entry_game_round(&a, &session, Some(&round0)), Ok(()));
            assert_eq!(validate_update_entry_game_round(&b, &session, Some(&round0)), Ok(()));
            assert_eq!(b.state.resources_taken, 20);
            assert_eq!(b.state.resources_left, 88);
            assert_eq!(b.state.player_stats.get(&key(1)), Some(10));
        }
        other => panic!("expected two next rounds, got {:?}", other),
    }
}

#[test]
fn depletion_ends_the_game_early_as_finished() {
    let session = session_of(vec![key(1), key(2)], params(11, 10, 100, 3));
    let round0 = GameRound::first(entry(100), &session.game_params);
    match try_to_close_round(&entry(1), &round0, &session, vec![mv(1, 1, 50), mv(2, 1, 50)]) {
        Ok(RoundClose::GameOver { session: ended, state, .. }) => {
            assert_eq!(state.resources_left, 0);
            assert_eq!(state.resources_grown, 0);
            assert!(matches!(ended.status, SessionState::Finished { .. }));
        }
        other => panic!("expected the game to be over, got {:?}", other),
    }
}

#[test]
fn nothing_taken_in_last_round_is_lost() {
    let session = session_of(vec![key(1), key(2)], params(11, 10, 100, 3));
    let round2 = round_with_left(2, 50);
    match try_to_close_round(&entry(3), &round2, &session, vec![mv(1, 3, 0), mv(2, 3, 0)]) {
        Ok(RoundClose::GameOver { session: ended, state, .. }) => {
            assert_eq!(state.resources_left, 55);
            match &ended.status {
                SessionState::Lost { last_round } => assert_eq!(*last_round, entry(3)),
                other => panic!("expected a lost game, got {:?}", other),
            }
        }
        other => panic!("expected the game to be over, got {:?}", other),
    }
}

#[test]
fn overflowing_amounts_are_an_error() {
    let session = session_of(vec![key(1), key(2)], params(11, 10, 100, 3));
    let round0 = GameRound::first(entry(100), &session.game_params);
    let moves = vec![mv(1, 1, i32::MAX), mv(2, 1, i32::MAX)];
    assert!(!round_state_fits_amounts(&round0.state, &session.game_params, &moves));
    assert!(matches!(
        try_to_close_round(&entry(1), &round0, &session, moves),
        Err(CloseError::ResourceOverflow)
    ));
}

#[test]
fn last_round_number_cannot_advance() {
    let session = session_of(vec![key(1)], params(1, 1, 100, u32::MAX));
    let round = round_with_left(u32::MAX, 100);
    assert!(matches!(
        try_to_close_round(&entry(3), &round, &session, vec![mv(1, 3, 1)]),
        Err(CloseError::RoundNumberOverflow)
    ));
}

#[test]
fn finalize_needs_every_player() {
    assert!(finalize_moves(vec![mv(1, 1, 5)], 2).is_none());
    assert!(finalize_moves(vec![mv(1, 1, 5), mv(1, 1, 6)], 2).is_none());
    assert!(finalize_moves(vec![], 1).is_none());
    let none_expected = finalize_moves(vec![], 0).unwrap();
    assert_eq!(none_expected.len(), 0);
}

#[test]
fn finalize_keeps_the_first_move_of_each_player() {
    let chosen = finalize_moves(vec![mv(2, 1, 7), mv(1, 1, 5), mv(2, 1, 9), mv(1, 1, 3)], 2).unwrap();
    assert_eq!(chosen.len(), 2);
    assert_eq!(chosen[0].owner, key(2));
    assert_eq!(chosen[0].resources, 7);
    assert_eq!(chosen[1].owner, key(1));
    assert_eq!(chosen[1].resources, 5);
    let all = first_move_per_owner(&vec![mv(3, 1, 1), mv(3, 1, 2), mv(4, 1, 3)]);
    assert_eq!(all.len(), 2);
    assert_eq!(all[1].resources, 3);
}

#[test]
fn calculation_is_exact() {
    let p = params(11, 10, 100, 3);
    let prev = RoundState::new(100, 0, 0, PlayerStats::new());
    let state = calculate_round_state(&prev, &p, vec![mv(1, 1, 10), mv(2, 1, 10)]);
    assert_eq!(state.resources_taken, 20);
    assert_eq!(state.resources_left, 88);
    assert_eq!(state.resources_grown, 8);
    let again = calculate_round_state(&prev, &p, vec![mv(1, 1, 10), mv(2, 1, 10)]);
    assert_eq!(again.resources_left, state.resources_left);
    assert_eq!(again.resources_grown, state.resources_grown);
    // 7 * 3 / 2 = 10.5, rounded down
    let halves = calculate_round_state(&RoundState::new(10, 0, 0, PlayerStats::new()), &params(3, 2, 10, 3), vec![mv(1, 1, 3)]);
    assert_eq!(halves.resources_left, 10);
    assert_eq!(halves.resources_grown, 3);
    // -7 * 3 / 2 = -10.5, rounded down
    let below = calculate_round_state(&RoundState::new(0, 0, 0, PlayerStats::new()), &params(3, 2, 10, 3), vec![mv(1, 1, 7)]);
    assert_eq!(below.resources_left, -11);
    assert_eq!(below.resources_grown, -4);
}

#[test]
fn stats_from_moves_keep_the_latest_amount() {
    let stats = player_stats_from_moves(vec![mv(1, 1, 4), mv(2, 1, 5), mv(1, 1, 6)]);
    assert_eq!(stats.len(), 2);
    assert_eq!(stats.get(&key(1)), Some(6));
    assert_eq!(stats.get(&key(2)), Some(5));
    assert_eq!(stats.get(&key(3)), None);
    let zeros = new_player_stats(&vec![key(1), key(2), key(1)]);
    assert_eq!(zeros.len(), 2);
    assert_eq!(zeros.get(&key(2)), Some(0));
}

#[test]
fn stats_set_replaces() {
    let mut stats = PlayerStats::new();
    stats.set(key(1), 3);
    stats.set(key(2), 4);
    stats.set(key(1), 8);
    assert_eq!(stats.len(), 2);
    assert_eq!(stats.get(&key(1)), Some(8));
    let copy = stats.clone();
    assert_eq!(copy.get(&key(2)), Some(4));
}

#[test]
fn round_validation_rules() {
    let session = session_of(vec![key(1)], params(11, 10, 100, 3));
    let prev = round_with_left(1, 10);
    assert_eq!(validate_update_entry_game_round(&round_with_left(2, 5), &session, Some(&prev)), Ok(()));
    assert_eq!(
        validate_update_entry_game_round(&round_with_left(3, 5), &session, Some(&prev)),
        Err(Rejection::RoundNotConsecutive { round_num: 3, previous: 1 })
    );
    assert_eq!(
        validate_update_entry_game_round(&round_with_left(4, 5), &session, Some(&prev)),
        Err(Rejection::RoundBeyondLimit { round_num: 4, num_rounds: 3 })
    );
    assert_eq!(
        validate_update_entry_game_round(&round_with_left(2, 5), &session, None),
        Err(Rejection::NotAnUpdate)
    );
    assert_eq!(
        validate_update_entry_game_round(&round_with_left(1, 5), &session, Some(&prev)),
        Err(Rejection::RoundNotConsecutive { round_num: 1, previous: 1 })
    );
}

#[test]
fn only_players_can_move() {
    let session = session_of(vec![key(1), key(2)], params(11, 10, 100, 3));
    let m = new_move(key(2), 12, entry(5), &session).unwrap();
    assert_eq!(m.owner, key(2));
    assert_eq!(m.round, entry(5));
    assert_eq!(m.resources, 12);
    assert!(matches!(new_move(key(3), 12, entry(5), &session), Err(MoveError::NotAPlayer)));
}

#[test]
fn continuation_rule() {
    let session = session_of(vec![key(1)], params(11, 10, 100, 3));
    let stats = PlayerStats::new();
    let left = RoundState::new(1, 0, 0, stats.clone());
    let empty = RoundState::new(0, 0, 0, stats.clone());
    assert!(start_new_round(&session, &round_with_left(1, 0), &left));
    assert!(!start_new_round(&session, &round_with_left(2, 0), &left));
    assert!(!start_new_round(&session, &round_with_left(0, 0), &empty));
    let next = next_round(&round_with_left(1, 0), left);
    assert_eq!(next.round_num, 2);
    assert_eq!(next.state.resources_left, 1);
}

#[test]
fn end_game_records_scores() {
    let session = session_of(vec![key(1)], params(11, 10, 100, 3));
    let state = RoundState::new(5, 7, 1, player_stats_from_moves(vec![mv(1, 1, 7)]));
    let ended = end_game(&session, &entry(42), &state);
    assert!(matches!(ended.status, SessionState::Finished { .. }));
    assert_eq!(ended.scores.get(&key(1)), Some(7));
    assert_eq!(ended.anchor, entry(200));
    assert!(matches!(session.status, SessionState::InProgress));
    assert_eq!(session.scores.len(), 0);
}

#[test]
fn round_info_reports_each_outcome() {
    let session = session_of(vec![key(1), key(2)], params(11, 10, 100, 3));
    let round0 = GameRound::first(entry(100), &session.game_params);
    let waiting = try_to_close_round(&entry(1), &round0, &session, vec![mv(1, 1, 10)]).unwrap();
    let info = round_info(&waiting, &entry(1), &round0, entry(200));
    assert_eq!(info.next_action, NextAction::Waiting);
    assert_eq!(info.round_num, 0);
    assert_eq!(info.resources_left, None);
    assert_eq!(info.game_session_hash, Some(entry(200)));
    assert_eq!(info.prev_round_entry_hash, Some(entry(1)));
    let next = try_to_close_round(&entry(1), &round0, &session, vec![mv(1, 1, 10), mv(2, 1, 10)]).unwrap();
    let info = round_info(&next, &entry(1), &round0, entry(101));
    assert_eq!(info.next_action, NextAction::StartNextRound);
    assert_eq!(info.round_num, 1);
    assert_eq!(info.resources_left, Some(88));
    assert_eq!(info.current_round_entry_hash, Some(entry(101)));
    assert_eq!(info.moves, vec![(10, key(1)), (10, key(2))]);
}

#[test]
fn link_lookup_takes_at_most_one() {
    assert_eq!(single_link_target(vec![]), Ok(None));
    assert_eq!(single_link_target(vec![entry(1)]), Ok(Some(entry(1))));
    assert_eq!(
        single_link_target(vec![entry(1), entry(2)]),
        Err(LinkError::MoreThanOne { count: 2 })
    );
}

#[test]
fn keys_compare_by_bytes() {
    assert!(key(1).same_as(&AgentKey::new(vec![1, 1, 1])));
    assert!(!key(1).same_as(&AgentKey::new(vec![1, 1])));
    assert_eq!(key(4).clone(), key(4));
    assert_ne!(entry(1), entry(2));
    assert!(RegenerationFactor::new(1, 0).is_none());
    let standard = GameParams::standard();
    assert_eq!(standard.regeneration_factor.numerator(), 11);
    assert_eq!(standard.regeneration_factor.denominator(), 10);
    assert_eq!(standard.start_amount, 100);
    assert_eq!(standard.num_rounds, 3);
}

#[test]
fn closing_the_last_round_of_a_finished_session_changes_nothing() {
    let mut session = session_of(vec![key(1), key(2)], params(11, 10, 100, 3));
    session.status = SessionState::Finished { last_round: entry(3) };
    let round2 = round_with_left(2, 50);
    // nothing taken would mark a game in progress lost; this one stays finished
    match try_to_close_round(&entry(3), &round2, &session, vec![mv(1, 3, 0), mv(2, 3, 0)]) {
        Ok(RoundClose::AlreadyOver { state, moves }) => {
            assert_eq!(state.resources_taken, 0);
            assert_eq!(state.resources_left, 55);
            assert_eq!(moves.len(), 2);
        }
        other => panic!("expected no new session version, got {:?}", other),
    }
    let already = try_to_close_round(&entry(3), &round2, &session, vec![mv(1, 3, 0), mv(2, 3, 0)]).unwrap();
    let info = round_info(&already, &entry(3), &round2, entry(200));
    assert_eq!(info.next_action, NextAction::ShowGameResults);
    assert_eq!(info.game_session_hash, Some(entry(200)));
    assert_eq!(info.resources_left, Some(55));
    session.status = SessionState::Lost { last_round: entry(3) };
    match try_to_close_round(&entry(3), &round2, &session, vec![mv(1, 3, 10)]) {
        Ok(RoundClose::Waiting { outstanding }) => assert_eq!(outstanding, 1),
        other => panic!("expected to wait, got {:?}", other),
    }
}

#[test]
fn an_ended_session_still_waits_and_goes_on() {
    let mut session = session_of(vec![key(1), key(2)], params(11, 10, 100, 3));
    session.status = SessionState::Finished { last_round: entry(3) };
    let round0 = GameRound::first(entry(100), &session.game_params);
    match try_to_close_round(&entry(1), &round0, &session, vec![mv(1, 1, 10)]) {
        Ok(RoundClose::Waiting { outstanding }) => assert_eq!(outstanding, 1),
        other => panic!("expected to wait, got {:?}", other),
    }
    match try_to_close_round(&entry(1), &round0, &session, vec![mv(1, 1, 10), mv(2, 1, 10)]) {
        Ok(RoundClose::NextRound { round, .. }) => {
            assert_eq!(round.round_num, 1);
            assert_eq!(round.state.resources_left, 88);
        }
        other => panic!("expected the next round, got {:?}", other),
    }
}

#[test]
fn repeated_players_are_kept_once() {
    let session = session_of(vec![key(1), key(2), key(1), key(2)], params(11, 10, 100, 3));
    assert_eq!(session.players, vec![key(1), key(2)]);
    let round0 = GameRound::first(entry(100), &session.game_params);
    match try_to_close_round(&entry(1), &round0, &session, vec![mv(2, 1, 10), mv(1, 1, 10)]) {
        Ok(RoundClose::NextRound { round, .. }) => assert_eq!(round.state.resources_left, 88),
        other => panic!("expected the next round, got {:?}", other),
    }
}
