//! Round-closing logic of a multiplayer "tragedy of the commons" game whose
//! players keep private append-only logs and replicate records to each other.
//!
//! The record store, the network and the notifications live outside this
//! library: it holds the entity model, the finalization of submitted moves,
//! the resource calculation, the decision taken when a round is closed and
//! the validation rules for committed records.
mod error;
mod game_move;
mod game_round;
mod game_session;
mod ids;
mod types;

pub use error::{CloseError, LinkError, MoveError, Rejection};
pub use game_move::{
    copy_moves, distinct_owner_count, finalize_moves, finalized, first_move_per_owner,
    first_per_owner, lemma_finalize_one_move_per_owner, lemma_finalize_waits_for_missing_players,
    lemma_first_per_owner, move_verdict, move_views, new_move, owners,
    validate_create_entry_game_move, validate_delete_entry_game_move,
    validate_update_entry_game_move, GameMove, GameMoveInput, MoveView,
};
pub use game_round::{
    calculate_round_state, close_view, consistent_outcome, consumed, continues, fits_amount,
    lemma_accepted_round_advances_by_one, lemma_close_round_safe_to_repeat,
    lemma_round_state_reproducible, move_summary, names, next_round, next_round_state, outcome_view, regrown, round_info, round_state_fits,
    round_state_fits_amounts, round_update_verdict, single_link_target, start_new_round,
    summary_view, try_to_close_round, validate_update_entry_game_round, CloseView, GameRound,
    GameRoundInfo, NextAction, RoundClose, RoundState, RoundStateView, RoundView,
};
pub use game_session::{
    end_game, ended_session, final_status, GameParams, GameScores, GameSession,
    GameSessionInput, GameSignal, RegenerationFactor, SessionState, SessionView, SignalPayload,
    StatusView,
};
pub use ids::{bytes_equal, contains_key, copy_bytes, copy_keys, keys_view, AgentKey, EntryRef};
pub use types::{
    entries_map, keys_unique, lemma_stats_of_moves_domain, new_player_stats,
    player_stats_from_moves, stats_of_moves, zero_stats, PlayerStats, ResourceAmount,
};
