use vstd::prelude::*;
use vstd::arithmetic::div_mod::{
    lemma_fundamental_div_mod, lemma_fundamental_div_mod_converse, lemma_mod_bound,
};

use crate::game_move::{
    copy_moves, distinct_owner_count, finalize_moves, finalized, first_move_per_owner,
    first_per_owner, lemma_first_per_owner, move_views, owners, GameMove, MoveView,
};
use crate::game_session::{
    end_game, ended_session, GameParams, GameSession, RegenerationFactor, SessionState, SessionView,
};
use crate::error::{CloseError, LinkError, Rejection};
use crate::ids::{AgentKey, EntryRef};
use crate::types::{
    lemma_stats_of_moves_domain, player_stats_from_moves, stats_of_moves, PlayerStats, ResourceAmount,
};

verus! {

/// What a round state holds, with amounts as integers.
pub struct RoundStateView {
    pub resources_left: int,
    pub resources_taken: int,
    pub resources_grown: int,
    pub player_stats: Map<Seq<u8>, ResourceAmount>,
}

/// The resource after a round: what is left, what the players took, what grew
/// back, and what each player took.
#[derive(Debug)]
pub struct RoundState {
    pub resources_left: ResourceAmount,
    pub resources_taken: ResourceAmount,
    pub resources_grown: ResourceAmount,
    pub player_stats: PlayerStats,
}

impl View for RoundState {
    type V = RoundStateView;

    open spec fn view(&self) -> RoundStateView {
        RoundStateView {
            resources_left: self.resources_left as int,
            resources_taken: self.resources_taken as int,
            resources_grown: self.resources_grown as int,
            player_stats: self.player_stats@,
        }
    }
}

impl RoundState {
    pub open spec fn wf(&self) -> bool {
        self.player_stats.wf()
    }

    /// Creates a new RoundState instance with the provided input.
    pub fn new(
        resources_left: ResourceAmount,
        resources_taken: ResourceAmount,
        resources_grown: ResourceAmount,
        player_stats: PlayerStats,
    ) -> (r: RoundState)
        ensures
            r.resources_left == resources_left,
            r.resources_taken == resources_taken,
            r.resources_grown == resources_grown,
            r.player_stats@ == player_stats@,
            r.wf() == player_stats.wf(),
    {
        RoundState { resources_left, resources_taken, resources_grown, player_stats }
    }
}

impl Clone for RoundState {
    fn clone(&self) -> (r: RoundState)
        ensures
            r@ == self@,
            r.wf() == self.wf(),
    {
        RoundState {
            resources_left: self.resources_left,
            resources_taken: self.resources_taken,
            resources_grown: self.resources_grown,
            player_stats: self.player_stats.clone(),
        }
    }
}

/// What a round holds, with the session reference as bytes.
pub struct RoundView {
    pub round_num: u32,
    pub session: Seq<u8>,
    pub state: RoundStateView,
}

/// One version of a session's round record. Round 0 is created with the
/// session; every later round is a new version of the same record, whose
/// state is the outcome of the round before it.
#[derive(Debug)]
pub struct GameRound {
    pub round_num: u32,
    pub session: EntryRef,
    pub state: RoundState,
}

impl View for GameRound {
    type V = RoundView;

    open spec fn view(&self) -> RoundView {
        RoundView { round_num: self.round_num, session: self.session@, state: self.state@ }
    }
}

impl GameRound {
    pub open spec fn wf(&self) -> bool {
        self.state.wf()
    }

    /// Creates a new GameRound instance with the provided input.
    pub fn new(round_num: u32, session: EntryRef, round_state: RoundState) -> (r: GameRound)
        ensures
            r@ == (RoundView { round_num, session: session@, state: round_state@ }),
            r.wf() == round_state.wf(),
    {
        GameRound { round_num, session, state: round_state }
    }

    /// Round 0 of a session: the whole starting amount is left, nothing was
    /// taken or grown, and no player has stats yet.
    pub fn first(session: EntryRef, params: &GameParams) -> (r: GameRound)
        ensures
            r.wf(),
            r@ == (RoundView {
                round_num: 0,
                session: session@,
                state: RoundStateView {
                    resources_left: params.start_amount as int,
                    resources_taken: 0,
                    resources_grown: 0,
                    player_stats: Map::empty(),
                },
            }),
    {
        GameRound {
            round_num: 0,
            session,
            state: RoundState {
                resources_left: params.start_amount,
                resources_taken: 0,
                resources_grown: 0,
                player_stats: PlayerStats::new(),
            },
        }
    }
}

impl Clone for GameRound {
    fn clone(&self) -> (r: GameRound)
        ensures
            r@ == self@,
            r.wf() == self.wf(),
    {
        GameRound { round_num: self.round_num, session: self.session.clone(), state: self.state.clone() }
    }
}

/// The total the moves take.
pub open spec fn consumed(s: Seq<MoveView>) -> int
    decreases s.len(),
{
    if s.len() == 0 {
        0
    } else {
        consumed(s.drop_last()) + s.last().resources
    }
}

/// `amount` grown by the factor, rounded down.
pub open spec fn regrown(amount: int, factor: RegenerationFactor) -> int {
    (amount * factor.num()) / (factor.den() as int)
}

/// The state after a round in which the moves `s` were played on what
/// `previous_left` left: the moves take their total, what remains grows by
/// the regeneration factor (rounded down), and each mover's amount is kept.
pub open spec fn next_round_state(previous_left: int, params: GameParams, s: Seq<MoveView>) -> RoundStateView {
    let taken = consumed(s);
    let before_growth = previous_left - taken;
    let left = regrown(before_growth, params.regeneration_factor);
    RoundStateView {
        resources_left: left,
        resources_taken: taken,
        resources_grown: left - before_growth,
        player_stats: stats_of_moves(s),
    }
}

pub open spec fn fits_amount(x: int) -> bool {
    i32::MIN <= x <= i32::MAX
}

/// The amounts of the next state can be held as resource amounts.
pub open spec fn round_state_fits(previous_left: int, params: GameParams, s: Seq<MoveView>) -> bool {
    let n = next_round_state(previous_left, params, s);
    fits_amount(n.resources_left) && fits_amount(n.resources_taken) && fits_amount(
        n.resources_grown,
    )
}

/// Rounds `a / d` down, for a positive `d`.
fn floor_div(a: i128, d: i128) -> (r: i128)
    requires
        d > 0,
        -0x1_0000_0000_0000_0000_0000_0000 <= a <= 0x1_0000_0000_0000_0000_0000_0000,
        d <= 0x1_0000_0000,
    ensures
        r == a as int / d as int,
{
    if a >= 0 {
        let q = (a as u128) / (d as u128);
        q as i128
    } else {
        let n = ((0 - a) as u128) + ((d - 1) as u128);
        let q = n / (d as u128);
        proof {
            let ni = n as int;
            let di = d as int;
            let qi = q as int;
            lemma_fundamental_div_mod(ni, di);
            lemma_mod_bound(ni, di);
            let s = ni % di;
            assert(ni / di == qi);
            assert(ni == di * qi + s);
            assert((-qi) * di == -(di * qi)) by (nonlinear_arith);
            assert(a as int == (-qi) * di + (di - 1 - s));
            lemma_fundamental_div_mod_converse(a as int, di, -qi, di - 1 - s);
        }
        0 - (q as i128)
    }
}

/// The total the moves take.
fn total_consumed(moves: &Vec<GameMove>) -> (r: i128)
    ensures
        r == consumed(move_views(moves@)),
        -(moves@.len() as int) * 0x8000_0000 <= r <= moves@.len() * 0x8000_0000,
{
    let ghost v = move_views(moves@);
    let mut total: i128 = 0;
    let mut i: usize = 0;
    while i < moves.len()
        invariant
            0 <= i <= moves@.len(),
            v == move_views(moves@),
            total == consumed(v.subrange(0, i as int)),
            -(i as int) * 0x8000_0000 <= total <= i * 0x8000_0000,
        decreases moves@.len() - i,
    {
        assert(v.subrange(0, i + 1).drop_last() =~= v.subrange(0, i as int));
        total = total + moves[i].resources as i128;
        i = i + 1;
    }
    assert(v.subrange(0, moves@.len() as int) =~= v);
    total
}

/// The three amounts of the next state, where they can be held as resource
/// amounts.
fn next_amounts(previous_left: ResourceAmount, params: &GameParams, moves: &Vec<GameMove>) -> (r:
    Option<(ResourceAmount, ResourceAmount, ResourceAmount)>)
    ensures
        match r {
            None => !round_state_fits(previous_left as int, *params, move_views(moves@)),
            Some((left, taken, grown)) => {
                let n = next_round_state(previous_left as int, *params, move_views(moves@));
                &&& round_state_fits(previous_left as int, *params, move_views(moves@))
                &&& left == n.resources_left
                &&& taken == n.resources_taken
                &&& grown == n.resources_grown
            },
        },
{
    let taken = total_consumed(moves);
    if taken < i32::MIN as i128 || taken > i32::MAX as i128 {
        return None;
    }
    let before_growth = previous_left as i128 - taken;
    let numerator = params.regeneration_factor.numerator() as i128;
    let denominator = params.regeneration_factor.denominator() as i128;
    assert(-0x1_0000_0000 <= before_growth <= 0x1_0000_0000);
    assert(-0x1_0000_0000_0000_0000 <= before_growth * numerator <= 0x1_0000_0000_0000_0000)
        by (nonlinear_arith)
        requires
            -0x1_0000_0000 <= before_growth <= 0x1_0000_0000,
            0 <= numerator <= 0xffff_ffff,
    ;
    let left = floor_div(before_growth * numerator, denominator);
    if left < i32::MIN as i128 || left > i32::MAX as i128 {
        return None;
    }
    let grown = left - before_growth;
    if grown < i32::MIN as i128 || grown > i32::MAX as i128 {
        return None;
    }
    Some((left as i32, taken as i32, grown as i32))
}

/// Whether the state after the moves can be held as resource amounts.
pub fn round_state_fits_amounts(previous_state: &RoundState, params: &GameParams, moves: &Vec<GameMove>) -> (r: bool)
    ensures
        r == round_state_fits(previous_state.resources_left as int, *params, move_views(moves@)),
{
    next_amounts(previous_state.resources_left, params, moves).is_some()
}

/// The state after a round in which the (finalized) moves were played on
/// `previous_state`. A function of its arguments alone, so that every peer
/// that computes it, while closing a round or while validating, finds the
/// same state.
pub fn calculate_round_state(previous_state: &RoundState, params: &GameParams, player_moves: Vec<GameMove>) -> (r: RoundState)
    requires
        round_state_fits(previous_state.resources_left as int, *params, move_views(player_moves@)),
    ensures
        r.wf(),
        r@ == next_round_state(previous_state.resources_left as int, *params, move_views(player_moves@)),
{
    let (left, taken, grown) = next_amounts(previous_state.resources_left, params, &player_moves).unwrap();
    RoundState {
        resources_left: left,
        resources_taken: taken,
        resources_grown: grown,
        player_stats: player_stats_from_moves(player_moves),
    }
}


/// Whether the game goes on after round `round_num`: rounds are left to
/// play and the resource is not depleted.
pub open spec fn continues(round_num: u32, num_rounds: u32, resources_left: int) -> bool {
    round_num + 1 < num_rounds && resources_left > 0
}

/// Whether a new round starts after `prev_round`, whose outcome is
/// `round_state`.
pub fn start_new_round(game_session: &GameSession, prev_round: &GameRound, round_state: &RoundState) -> (r: bool)
    ensures
        r == continues(prev_round.round_num, game_session.game_params.num_rounds, round_state.resources_left as int),
{
    (prev_round.round_num as u64) + 1 < game_session.game_params.num_rounds as u64
        && round_state.resources_left > 0
}

/// The next version of the round record: the following round number, the
/// same session, and the outcome of the round that closed.
pub fn next_round(last_round: &GameRound, round_state: RoundState) -> (r: GameRound)
    requires
        last_round.round_num < u32::MAX,
    ensures
        r.wf() == round_state.wf(),
        r@ == (RoundView {
            round_num: (last_round.round_num + 1) as u32,
            session: last_round.session@,
            state: round_state@,
        }),
{
    GameRound {
        round_num: last_round.round_num + 1,
        session: last_round.session.clone(),
        state: round_state,
    }
}

/// What an attempt to close a round decided.
#[derive(Debug)]
pub enum RoundClose {
    /// Not every player has moved yet; `outstanding` players are missing.
    Waiting { outstanding: usize },
    /// The round closed and the game goes on with `round`, the next version
    /// of the round record; `moves` are the moves that counted.
    NextRound { round: GameRound, moves: Vec<GameMove> },
    /// The round closed and the game is over: `session` is the next version
    /// of the session record, `state` the outcome of the last round.
    GameOver { session: GameSession, state: RoundState, moves: Vec<GameMove> },
    /// The round closed without a next round, but the session had already
    /// ended: its status is final, so no new session version is made;
    /// `state` is the outcome of the round.
    AlreadyOver { state: RoundState, moves: Vec<GameMove> },
}

/// What an attempt to close a round decides, over views.
pub enum CloseView {
    Waiting(nat),
    NextRound(RoundView, Seq<MoveView>),
    GameOver(SessionView, RoundStateView, Seq<MoveView>),
    AlreadyOver(RoundStateView, Seq<MoveView>),
    Failed(CloseError),
}

/// The decision taken when the round `last` (addressed by `last_round`) of
/// `session` is closed while `moves` are the moves seen for it. The status
/// of the session matters only where the game would end: a session that has
/// already ended is not ended again, as its status is final.
pub open spec fn close_view(last_round: Seq<u8>, last: RoundView, session: SessionView, moves: Seq<MoveView>) -> CloseView {
    let expected = session.players.len();
    match finalized(moves, expected) {
        None => CloseView::Waiting((expected - distinct_owner_count(moves)) as nat),
        Some(chosen) => {
            let params = session.game_params;
            if !round_state_fits(last.state.resources_left, params, chosen) {
                CloseView::Failed(CloseError::ResourceOverflow)
            } else {
                let state = next_round_state(last.state.resources_left, params, chosen);
                if continues(last.round_num, params.num_rounds, state.resources_left) {
                    CloseView::NextRound(
                        RoundView { round_num: (last.round_num + 1) as u32, session: last.session, state },
                        chosen,
                    )
                } else if last.round_num == u32::MAX {
                    CloseView::Failed(CloseError::RoundNumberOverflow)
                } else if session.status is InProgress {
                    CloseView::GameOver(ended_session(session, last_round, state), state, chosen)
                } else {
                    CloseView::AlreadyOver(state, chosen)
                }
            }
        },
    }
}

/// The view of what `try_to_close_round` returned.
pub open spec fn outcome_view(r: Result<RoundClose, CloseError>) -> CloseView {
    match r {
        Ok(RoundClose::Waiting { outstanding }) => CloseView::Waiting(outstanding as nat),
        Ok(RoundClose::NextRound { round, moves }) => CloseView::NextRound(round@, move_views(moves@)),
        Ok(RoundClose::GameOver { session, state, moves }) => CloseView::GameOver(
            session@,
            state@,
            move_views(moves@),
        ),
        Ok(RoundClose::AlreadyOver { state, moves }) => CloseView::AlreadyOver(
            state@,
            move_views(moves@),
        ),
        Err(e) => CloseView::Failed(e),
    }
}

/// Decides what closing `last_round` (addressed by `last_round_entry_hash`)
/// of `game_session` does while `moves` are the moves seen for it. Nothing is
/// written here: the caller persists the new round or session version and
/// notifies the players, so an attempt either does all of that or nothing.
pub fn try_to_close_round(
    last_round_entry_hash: &EntryRef,
    last_round: &GameRound,
    game_session: &GameSession,
    moves: Vec<GameMove>,
) -> (r: Result<RoundClose, CloseError>)
    ensures
        outcome_view(r) == close_view(last_round_entry_hash@, last_round@, game_session@, move_views(moves@)),
        match r {
            Ok(RoundClose::NextRound { round, .. }) => round.wf(),
            Ok(RoundClose::GameOver { session, state, .. }) => {
                &&& session.scores.wf()
                &&& game_session.wf() ==> session.wf()
                &&& state.wf()
            },
            Ok(RoundClose::AlreadyOver { state, .. }) => state.wf(),
            _ => true,
        },
{
    let ghost v = move_views(moves@);
    let expected = game_session.players.len();
    let seen = first_move_per_owner(&moves);
    proof {
        lemma_first_per_owner(v);
    }
    match finalize_moves(moves, expected) {
        None => Ok(RoundClose::Waiting { outstanding: expected - seen.len() }),
        Some(chosen) => {
            let params = &game_session.game_params;
            if !round_state_fits_amounts(&last_round.state, params, &chosen) {
                return Err(CloseError::ResourceOverflow);
            }
            let counted = copy_moves(&chosen);
            let state = calculate_round_state(&last_round.state, params, chosen);
            if start_new_round(game_session, last_round, &state) {
                Ok(RoundClose::NextRound { round: next_round(last_round, state), moves: counted })
            } else if last_round.round_num == u32::MAX {
                Err(CloseError::RoundNumberOverflow)
            } else {
                match game_session.status {
                    SessionState::InProgress => {
                        let session = end_game(game_session, last_round_entry_hash, &state);
                        Ok(RoundClose::GameOver { session, state, moves: counted })
                    },
                    _ => Ok(RoundClose::AlreadyOver { state, moves: counted }),
                }
            }
        },
    }
}


/// What the client is asked to do next.
#[derive(Debug, Clone, Copy, PartialEq, Eq, Structural)]
pub enum NextAction {
    Waiting,
    StartNextRound,
    ShowGameResults,
}

/// What an attempt to close a round reports to the client.
#[derive(Debug)]
pub struct GameRoundInfo {
    pub round_num: u32,
    pub resources_left: Option<ResourceAmount>,
    pub current_round_entry_hash: Option<EntryRef>,
    pub prev_round_entry_hash: Option<EntryRef>,
    pub game_session_hash: Option<EntryRef>,
    pub next_action: NextAction,
    pub moves: Vec<(ResourceAmount, AgentKey)>,
}

/// What each counted move took, and whose it was.
pub open spec fn move_summary(s: Seq<MoveView>) -> Seq<(ResourceAmount, Seq<u8>)> {
    s.map_values(|m: MoveView| (m.resources, m.owner))
}

pub open spec fn summary_view(s: Seq<(ResourceAmount, AgentKey)>) -> Seq<(ResourceAmount, Seq<u8>)> {
    s.map_values(|p: (ResourceAmount, AgentKey)| (p.0, p.1@))
}

pub open spec fn names(r: Option<EntryRef>, bytes: Seq<u8>) -> bool {
    r matches Some(h) && h@ == bytes
}

fn summarize(moves: &Vec<GameMove>) -> (r: Vec<(ResourceAmount, AgentKey)>)
    ensures
        summary_view(r@) == move_summary(move_views(moves@)),
{
    let mut r: Vec<(ResourceAmount, AgentKey)> = Vec::with_capacity(moves.len());
    let mut i: usize = 0;
    while i < moves.len()
        invariant
            0 <= i <= moves@.len(),
            summary_view(r@) == move_summary(move_views(moves@)).subrange(0, i as int),
        decreases moves@.len() - i,
    {
        let entry = (moves[i].resources, moves[i].owner.clone());
        let ghost before = r@;
        r.push(entry);
        assert(summary_view(r@) =~= summary_view(before).push((moves@[i as int].resources, moves@[i as int].owner@)));
        i = i + 1;
        assert(summary_view(r@) =~= move_summary(move_views(moves@)).subrange(0, i as int));
    }
    assert(move_summary(move_views(moves@)).subrange(0, moves@.len() as int) =~= move_summary(move_views(moves@)));
    r
}

/// The report on an attempt to close `last_round`, addressed by
/// `last_round_entry_hash`. `record_hash` addresses the record the attempt
/// points the client to: the session while waiting, the new round version
/// when the game goes on, the new session version when it ends, the
/// session as it stands when it had already ended.
pub fn round_info(
    outcome: &RoundClose,
    last_round_entry_hash: &EntryRef,
    last_round: &GameRound,
    record_hash: EntryRef,
) -> (r: GameRoundInfo)
    requires
        outcome is Waiting || last_round.round_num < u32::MAX,
    ensures
        names(r.prev_round_entry_hash, last_round_entry_hash@),
        match outcome {
            RoundClose::Waiting { .. } => {
                &&& r.round_num == last_round.round_num
                &&& r.resources_left is None
                &&& r.current_round_entry_hash is None
                &&& names(r.game_session_hash, record_hash@)
                &&& r.next_action == NextAction::Waiting
                &&& r.moves@.len() == 0
            },
            RoundClose::NextRound { round, moves } => {
                &&& r.round_num == last_round.round_num + 1
                &&& r.resources_left == Some(round.state.resources_left)
                &&& names(r.current_round_entry_hash, record_hash@)
                &&& r.game_session_hash is None
                &&& r.next_action == NextAction::StartNextRound
                &&& summary_view(r.moves@) == move_summary(move_views(moves@))
            },
            RoundClose::GameOver { state, moves, .. } | RoundClose::AlreadyOver { state, moves } => {
                &&& r.round_num == last_round.round_num + 1
                &&& r.resources_left == Some(state.resources_left)
                &&& r.current_round_entry_hash is None
                &&& names(r.game_session_hash, record_hash@)
                &&& r.next_action == NextAction::ShowGameResults
                &&& summary_view(r.moves@) == move_summary(move_views(moves@))
            },
        },
{
    let prev = Some(last_round_entry_hash.clone());
    match outcome {
        RoundClose::Waiting { .. } => GameRoundInfo {
            round_num: last_round.round_num,
            resources_left: None,
            current_round_entry_hash: None,
            prev_round_entry_hash: prev,
            game_session_hash: Some(record_hash),
            next_action: NextAction::Waiting,
            moves: Vec::new(),
        },
        RoundClose::NextRound { round, moves } => GameRoundInfo {
            round_num: last_round.round_num + 1,
            resources_left: Some(round.state.resources_left),
            current_round_entry_hash: Some(record_hash),
            prev_round_entry_hash: prev,
            game_session_hash: None,
            next_action: NextAction::StartNextRound,
            moves: summarize(moves),
        },
        RoundClose::GameOver { state, moves, .. } | RoundClose::AlreadyOver { state, moves } => GameRoundInfo {
            round_num: last_round.round_num + 1,
            resources_left: Some(state.resources_left),
            current_round_entry_hash: None,
            prev_round_entry_hash: prev,
            game_session_hash: Some(record_hash),
            next_action: NextAction::ShowGameResults,
            moves: summarize(moves),
        },
    }
}

/// The one record a link lookup found, if any; more than one is an error.
pub fn single_link_target(targets: Vec<EntryRef>) -> (r: Result<Option<EntryRef>, LinkError>)
    ensures
        targets@.len() == 0 ==> r == Ok::<Option<EntryRef>, LinkError>(None),
        targets@.len() == 1 ==> (r matches Ok(Some(t)) && t@ == targets@[0]@),
        targets@.len() > 1 ==> r == Err::<Option<EntryRef>, LinkError>(
            LinkError::MoreThanOne { count: targets@.len() as usize },
        ),
{
    if targets.len() == 0 {
        Ok(None)
    } else if targets.len() > 1 {
        Err(LinkError::MoreThanOne { count: targets.len() })
    } else {
        Ok(Some(targets[0].clone()))
    }
}

/// The verdict on a new version `round_num` of a round record, in a session
/// of `num_rounds` rounds, whose previous version has the number `previous`
/// (`None` where the record is not an update of an earlier version).
pub open spec fn round_update_verdict(round_num: u32, num_rounds: u32, previous: Option<u32>) -> Result<(), Rejection> {
    if round_num > num_rounds {
        Err(Rejection::RoundBeyondLimit { round_num, num_rounds })
    } else {
        match previous {
            None => Err(Rejection::NotAnUpdate),
            Some(p) => if p + 1 != round_num {
                Err(Rejection::RoundNotConsecutive { round_num, previous: p })
            } else {
                Ok(())
            },
        }
    }
}

/// Validates `game_round` as a new version of a round record of
/// `game_session`; `previous` is the version it updates, `None` where it is
/// no update.
pub fn validate_update_entry_game_round(
    game_round: &GameRound,
    game_session: &GameSession,
    previous: Option<&GameRound>,
) -> (r: Result<(), Rejection>)
    ensures
        r == round_update_verdict(
            game_round.round_num,
            game_session.game_params.num_rounds,
            match previous {
                None => None,
                Some(p) => Some(p.round_num),
            },
        ),
{
    let num_rounds = game_session.game_params.num_rounds;
    if game_round.round_num > num_rounds {
        return Err(Rejection::RoundBeyondLimit { round_num: game_round.round_num, num_rounds });
    }
    match previous {
        None => Err(Rejection::NotAnUpdate),
        Some(p) => {
            if p.round_num as u64 + 1 != game_round.round_num as u64 {
                Err(Rejection::RoundNotConsecutive { round_num: game_round.round_num, previous: p.round_num })
            } else {
                Ok(())
            }
        },
    }
}


/// The state a round leads to is a function of the state before it, the
/// parameters and the moves alone: peers that compute it from the same
/// values, while closing the round or while validating it, find the same
/// state.
pub proof fn lemma_round_state_reproducible(
    previous_a: RoundStateView,
    previous_b: RoundStateView,
    params: GameParams,
    moves_a: Seq<MoveView>,
    moves_b: Seq<MoveView>,
)
    requires
        previous_a == previous_b,
        moves_a == moves_b,
    ensures
        next_round_state(previous_a.resources_left, params, moves_a) == next_round_state(
            previous_b.resources_left,
            params,
            moves_b,
        ),
        round_state_fits(previous_a.resources_left, params, moves_a) == round_state_fits(
            previous_b.resources_left,
            params,
            moves_b,
        ),
{
}

/// A round version is accepted only as the successor of the version it
/// updates, and never beyond the session's number of rounds.
pub proof fn lemma_accepted_round_advances_by_one(round_num: u32, num_rounds: u32, previous: Option<u32>)
    requires
        round_update_verdict(round_num, num_rounds, previous) is Ok,
    ensures
        previous matches Some(p) && round_num == p + 1,
        round_num <= num_rounds,
{
}

/// Closing a round is safe to repeat and to race. Whatever moves an
/// attempt sees, a new round it produces is accepted by validation as the
/// successor of the round it closes. The state it computes takes exactly the
/// counted moves (the first of each player who moved), grows what is left by
/// the regeneration factor, and holds stats for exactly those players. So
/// two attempts that race produce versions that are each valid on their own.
/// A session that has ended is never ended again, so its status is final;
/// closing its rounds still waits for missing players and computes states.
pub proof fn lemma_close_round_safe_to_repeat(
    last_round: Seq<u8>,
    last: RoundView,
    session: SessionView,
    moves: Seq<MoveView>,
    other_moves: Seq<MoveView>,
)
    ensures
        !(session.status is InProgress) ==> !(close_view(last_round, last, session, moves) is GameOver),
        close_view(last_round, last, session, moves) matches CloseView::AlreadyOver(state, counted) ==> {
            &&& !(session.status is InProgress)
            &&& counted == first_per_owner(moves)
            &&& consistent_outcome(last.state.resources_left, session.game_params, moves, state)
        },
        close_view(last_round, last, session, moves) matches CloseView::GameOver(s, _, _) ==> {
            &&& session.status is InProgress
            &&& !(s.status is InProgress)
        },
        close_view(last_round, last, session, moves) matches CloseView::NextRound(r, counted) ==> {
            &&& round_update_verdict(r.round_num, session.game_params.num_rounds, Some(last.round_num)) is Ok
            &&& r.session == last.session
            &&& counted == first_per_owner(moves)
            &&& consistent_outcome(last.state.resources_left, session.game_params, moves, r.state)
        },
        close_view(last_round, last, session, moves) matches CloseView::GameOver(s, state, counted) ==> {
            &&& counted == first_per_owner(moves)
            &&& consistent_outcome(last.state.resources_left, session.game_params, moves, state)
            &&& s.scores == state.player_stats
            &&& s.players == session.players
        },
        close_view(last_round, last, session, other_moves) matches CloseView::NextRound(r, _) ==> round_update_verdict(
            r.round_num,
            session.game_params.num_rounds,
            Some(last.round_num),
        ) is Ok,
{
    lemma_first_per_owner(moves);
    lemma_stats_of_moves_domain(first_per_owner(moves));
}

/// `state` is what the first move of each player in `moves` leads to from
/// `previous_left`: it takes their total, what remains grows by the factor,
/// and each of those players, and no one else, has stats.
pub open spec fn consistent_outcome(previous_left: int, params: GameParams, moves: Seq<MoveView>, state: RoundStateView) -> bool {
    let counted = first_per_owner(moves);
    &&& state.resources_taken == consumed(counted)
    &&& state.resources_left == regrown(previous_left - state.resources_taken, params.regeneration_factor)
    &&& state.resources_grown == state.resources_left - (previous_left - state.resources_taken)
    &&& state.player_stats.dom() == owners(moves).to_set()
}

} // verus!
