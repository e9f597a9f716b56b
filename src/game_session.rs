use vstd::prelude::*;

use crate::ids::{
    copy_keys, dedup_keys, distinct_keys, keys_view, lemma_distinct_keys, AgentKey, EntryRef,
};
use crate::game_round::{RoundState, RoundStateView};
use crate::types::{PlayerStats, ResourceAmount};

verus! {

/// The factor by which what is left of the resource grows between rounds,
/// as the fraction `numerator / denominator` with a positive denominator.
#[derive(Debug, Clone, Copy)]
pub struct RegenerationFactor {
    numerator: u32,
    denominator: u32,
}

impl RegenerationFactor {
    #[verifier::type_invariant]
    spec fn positive_denominator(self) -> bool {
        self.denominator > 0
    }

    pub closed spec fn num(self) -> nat {
        self.numerator as nat
    }

    pub closed spec fn den(self) -> nat {
        self.denominator as nat
    }

    /// The fraction `numerator / denominator`; `None` where the denominator is 0.
    pub fn new(numerator: u32, denominator: u32) -> (r: Option<RegenerationFactor>)
        ensures
            match r {
                None => denominator == 0,
                Some(f) => denominator > 0 && f.num() == numerator && f.den() == denominator,
            },
    {
        if denominator == 0 {
            None
        } else {
            Some(RegenerationFactor { numerator, denominator })
        }
    }

    pub fn numerator(&self) -> (r: u32)
        ensures
            r == self.num(),
    {
        self.numerator
    }

    pub fn denominator(&self) -> (r: u32)
        ensures
            r == self.den(),
            r > 0,
    {
        proof {
            use_type_invariant(self);
        }
        self.denominator
    }
}

/// The parameters a game is played with; fixed when the session is created.
#[derive(Debug, Clone, Copy)]
pub struct GameParams {
    pub regeneration_factor: RegenerationFactor,
    pub start_amount: ResourceAmount,
    pub num_rounds: u32,
}

impl GameParams {
    /// The parameters a game started from a game code is played with:
    /// growth by a tenth, 100 units at the start, three rounds.
    pub fn standard() -> (r: GameParams)
        ensures
            r.regeneration_factor.num() == 11,
            r.regeneration_factor.den() == 10,
            r.start_amount == 100,
            r.num_rounds == 3,
    {
        GameParams {
            regeneration_factor: RegenerationFactor { numerator: 11, denominator: 10 },
            start_amount: 100,
            num_rounds: 3,
        }
    }
}

/// What a session's status holds, with references as byte strings.
pub enum StatusView {
    InProgress,
    Lost(Seq<u8>),
    Finished(Seq<u8>),
}

/// How the game is going. The only transitions are from `InProgress` to
/// `Lost` or `Finished`, once; both name the last round played.
#[derive(Debug)]
pub enum SessionState {
    InProgress,
    Lost { last_round: EntryRef },
    Finished { last_round: EntryRef },
}

impl View for SessionState {
    type V = StatusView;

    open spec fn view(&self) -> StatusView {
        match self {
            SessionState::InProgress => StatusView::InProgress,
            SessionState::Lost { last_round } => StatusView::Lost(last_round@),
            SessionState::Finished { last_round } => StatusView::Finished(last_round@),
        }
    }
}

impl Clone for SessionState {
    fn clone(&self) -> (r: SessionState)
        ensures
            r@ == self@,
    {
        match self {
            SessionState::InProgress => SessionState::InProgress,
            SessionState::Lost { last_round } => SessionState::Lost { last_round: last_round.clone() },
            SessionState::Finished { last_round } => SessionState::Finished {
                last_round: last_round.clone(),
            },
        }
    }
}

/// What a session holds, with keys and references as byte strings.
pub struct SessionView {
    pub owner: Seq<u8>,
    pub status: StatusView,
    pub game_params: GameParams,
    pub players: Seq<Seq<u8>>,
    pub scores: Map<Seq<u8>, ResourceAmount>,
    pub anchor: Seq<u8>,
}

/// One game: who started it, how it is going, its parameters, its players
/// (fixed at creation), the final scores (filled in when it ends) and the
/// reference by which players discover it.
#[derive(Debug)]
pub struct GameSession {
    pub owner: AgentKey,
    pub status: SessionState,
    pub game_params: GameParams,
    pub players: Vec<AgentKey>,
    pub scores: PlayerStats,
    pub anchor: EntryRef,
}

impl View for GameSession {
    type V = SessionView;

    open spec fn view(&self) -> SessionView {
        SessionView {
            owner: self.owner@,
            status: self.status@,
            game_params: self.game_params,
            players: keys_view(self.players@),
            scores: self.scores@,
            anchor: self.anchor@,
        }
    }
}

impl GameSession {
    /// The scores are well formed and the players form a set: no key is
    /// repeated.
    pub open spec fn wf(&self) -> bool {
        &&& self.scores.wf()
        &&& keys_view(self.players@).no_duplicates()
    }

    /// A session that is in progress, with no scores yet. A player listed
    /// more than once is kept once, where it first appears.
    pub fn new(
        owner: AgentKey,
        game_params: GameParams,
        players: Vec<AgentKey>,
        anchor: EntryRef,
    ) -> (r: GameSession)
        ensures
            r.wf(),
            r@ == (SessionView {
                owner: owner@,
                status: StatusView::InProgress,
                game_params,
                players: distinct_keys(keys_view(players@)),
                scores: Map::empty(),
                anchor: anchor@,
            }),
    {
        let ghost listed = keys_view(players@);
        let players = dedup_keys(players);
        proof {
            lemma_distinct_keys(listed);
        }
        GameSession {
            owner,
            status: SessionState::InProgress,
            game_params,
            players,
            scores: PlayerStats::new(),
            anchor,
        }
    }
}

impl Clone for GameSession {
    fn clone(&self) -> (r: GameSession)
        ensures
            r@ == self@,
            r.wf() == self.wf(),
    {
        GameSession {
            owner: self.owner.clone(),
            status: self.status.clone(),
            game_params: self.game_params,
            players: copy_keys(&self.players),
            scores: self.scores.clone(),
            anchor: self.anchor.clone(),
        }
    }
}

/// What players are told when a round starts or the game ends: the session
/// and the round concerned.
#[derive(Debug)]
pub struct SignalPayload {
    pub game_session_entry_hash: EntryRef,
    pub round_entry_hash_update: EntryRef,
}

/// A notification sent to every player of a session.
#[derive(Debug)]
pub enum GameSignal {
    StartNextRound(SignalPayload),
    GameOver(SignalPayload),
}

/// The input from which a session is created.
#[derive(Debug)]
pub struct GameSessionInput {
    pub game_params: GameParams,
    pub players: Vec<AgentKey>,
}

/// A record of a finished session, kept beside it.
#[derive(Debug)]
pub struct GameScores {
    pub game_session: GameSession,
    pub game_session_entry_hash: EntryRef,
}

/// The status a game ends with after its last round: `Lost` where the
/// players took nothing in that round, else `Finished`. (Another reading
/// would key this off the resource being depleted; this library keys it off
/// what was taken in the last round.)
pub open spec fn final_status(last_round: Seq<u8>, state: RoundStateView) -> StatusView {
    if state.resources_taken <= 0 {
        StatusView::Lost(last_round)
    } else {
        StatusView::Finished(last_round)
    }
}

/// The session as it is once the game has ended after `state`: its status
/// names the last round and its scores are what each player took then.
pub open spec fn ended_session(session: SessionView, last_round: Seq<u8>, state: RoundStateView) -> SessionView {
    SessionView {
        owner: session.owner,
        status: final_status(last_round, state),
        game_params: session.game_params,
        players: session.players,
        scores: state.player_stats,
        anchor: session.anchor,
    }
}

/// The new version of the session record that ends the game after the round
/// `last_round_entry_hash`, whose outcome is `round_state`.
pub fn end_game(game_session: &GameSession, last_round_entry_hash: &EntryRef, round_state: &RoundState) -> (r: GameSession)
    requires
        game_session.status is InProgress,
        round_state.wf(),
    ensures
        r.scores.wf(),
        game_session.wf() ==> r.wf(),
        r@ == ended_session(game_session@, last_round_entry_hash@, round_state@),
{
    let status = if round_state.resources_taken <= 0 {
        SessionState::Lost { last_round: last_round_entry_hash.clone() }
    } else {
        SessionState::Finished { last_round: last_round_entry_hash.clone() }
    };
    GameSession {
        owner: game_session.owner.clone(),
        status,
        game_params: game_session.game_params,
        players: copy_keys(&game_session.players),
        scores: round_state.player_stats.clone(),
        anchor: game_session.anchor.clone(),
    }
}

} // verus!
