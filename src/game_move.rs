use vstd::prelude::*;

use crate::error::{MoveError, Rejection};
use crate::game_session::GameSession;
use crate::ids::{contains_key, keys_view, AgentKey, EntryRef};
use crate::types::ResourceAmount;

verus! {

/// What a move holds, with the keys and references as byte strings.
pub struct MoveView {
    pub owner: Seq<u8>,
    pub round: Seq<u8>,
    pub resources: ResourceAmount,
}

/// A player's move: the amount of the resource that the player takes in the
/// round that `round` addresses.
#[derive(Debug)]
pub struct GameMove {
    pub owner: AgentKey,
    pub round: EntryRef,
    pub resources: ResourceAmount,
}

impl View for GameMove {
    type V = MoveView;

    open spec fn view(&self) -> MoveView {
        MoveView { owner: self.owner@, round: self.round@, resources: self.resources }
    }
}

impl Clone for GameMove {
    fn clone(&self) -> (r: GameMove)
        ensures
            r@ == self@,
    {
        GameMove { owner: self.owner.clone(), round: self.round.clone(), resources: self.resources }
    }
}

/// The views of a sequence of moves.
pub open spec fn move_views(s: Seq<GameMove>) -> Seq<MoveView> {
    s.map_values(|m: GameMove| m@)
}

/// The owners of a sequence of moves, in order.
pub open spec fn owners(s: Seq<MoveView>) -> Seq<Seq<u8>> {
    s.map_values(|m: MoveView| m.owner)
}

/// The number of players who made at least one of the moves.
pub open spec fn distinct_owner_count(s: Seq<MoveView>) -> nat {
    owners(s).to_set().len()
}

/// For each owner, the first of its moves, in the order in which the owners
/// first appear. A later move of an owner never replaces the first one.
pub open spec fn first_per_owner(s: Seq<MoveView>) -> Seq<MoveView>
    decreases s.len(),
{
    if s.len() == 0 {
        Seq::empty()
    } else {
        let before = first_per_owner(s.drop_last());
        if owners(s.drop_last()).contains(s.last().owner) {
            before
        } else {
            before.push(s.last())
        }
    }
}

/// The outcome of finalization: nothing while some of the `expected` players
/// have not moved, else one move per owner.
pub open spec fn finalized(s: Seq<MoveView>, expected: nat) -> Option<Seq<MoveView>> {
    if distinct_owner_count(s) < expected {
        None
    } else {
        Some(first_per_owner(s))
    }
}

proof fn lemma_owners_push(s: Seq<MoveView>, m: MoveView)
    ensures
        owners(s.push(m)) == owners(s).push(m.owner),
{
    assert(owners(s.push(m)) =~= owners(s).push(m.owner));
}

/// The moves chosen per owner come from the input, name each owner of the
/// input once, and name no one else.
pub proof fn lemma_first_per_owner(s: Seq<MoveView>)
    ensures
        owners(first_per_owner(s)).no_duplicates(),
        owners(first_per_owner(s)).to_set() == owners(s).to_set(),
        first_per_owner(s).len() == distinct_owner_count(s),
        forall|j: int| 0 <= j < first_per_owner(s).len() ==> s.contains(
            #[trigger] first_per_owner(s)[j],
        ),
    decreases s.len(),
{
    let f = first_per_owner(s);
    if s.len() == 0 {
        assert(owners(f).to_set() =~= owners(s).to_set());
        assert(owners(s) =~= Seq::<Seq<u8>>::empty());
        owners(s).lemma_cardinality_of_empty_set_is_0();
    } else {
        let p = s.drop_last();
        let x = s.last();
        assert(s == p.push(x));
        lemma_first_per_owner(p);
        lemma_owners_push(p, x);
        owners(p).lemma_push_to_set_commute(x.owner);
        let fp = first_per_owner(p);
        if owners(p).contains(x.owner) {
            assert(owners(s).to_set() =~= owners(p).to_set());
        } else {
            lemma_owners_push(fp, x);
            owners(fp).lemma_push_to_set_commute(x.owner);
            assert(!owners(fp).contains(x.owner)) by {
                if owners(fp).contains(x.owner) {
                    assert(owners(fp).to_set().contains(x.owner));
                    assert(owners(p).to_set().contains(x.owner));
                }
            }
            assert(owners(f).no_duplicates()) by {
                assert forall|i: int, j: int|
                    0 <= i < owners(f).len() && 0 <= j < owners(f).len() && i != j implies
                    owners(f)[i] != owners(f)[j] by {
                    if i == owners(f).len() - 1 {
                        assert(owners(fp)[j] == owners(f)[j]);
                    } else if j == owners(f).len() - 1 {
                        assert(owners(fp)[i] == owners(f)[i]);
                    } else {
                        assert(owners(fp)[i] == owners(f)[i]);
                        assert(owners(fp)[j] == owners(f)[j]);
                    }
                }
            }
        }
        assert forall|j: int| 0 <= j < f.len() implies s.contains(#[trigger] f[j]) by {
            if j < fp.len() {
                assert(f[j] == fp[j]);
                let i = choose|i: int| 0 <= i < p.len() && p[i] == fp[j];
                assert(s[i] == p[i]);
            } else {
                assert(s[s.len() - 1] == f[j]);
            }
        }
    }
    owners(f).unique_seq_to_set();
}

/// Whether one of `moves` is owned by `owner`.
fn has_move_by(moves: &Vec<GameMove>, owner: &AgentKey) -> (r: bool)
    ensures
        r == owners(move_views(moves@)).contains(owner@),
{
    let ghost o = owners(move_views(moves@));
    let mut i: usize = 0;
    while i < moves.len()
        invariant
            0 <= i <= moves@.len(),
            o == owners(move_views(moves@)),
            o.len() == moves@.len(),
            forall|j: int| 0 <= j < i ==> o[j] != owner@,
        decreases moves@.len() - i,
    {
        if moves[i].owner.same_as(owner) {
            assert(o[i as int] == owner@);
            return true;
        }
        i = i + 1;
    }
    false
}

/// For each owner, the first of its moves, in the order in which the owners
/// first appear.
pub fn first_move_per_owner(moves: &Vec<GameMove>) -> (r: Vec<GameMove>)
    ensures
        move_views(r@) == first_per_owner(move_views(moves@)),
{
    let ghost v = move_views(moves@);
    let mut chosen: Vec<GameMove> = Vec::new();
    let mut i: usize = 0;
    while i < moves.len()
        invariant
            0 <= i <= moves@.len(),
            v == move_views(moves@),
            move_views(chosen@) == first_per_owner(v.subrange(0, i as int)),
        decreases moves@.len() - i,
    {
        let ghost prefix = v.subrange(0, i as int);
        let ghost next = v.subrange(0, i + 1);
        assert(next.drop_last() =~= prefix);
        proof {
            lemma_first_per_owner(prefix);
        }
        let seen = has_move_by(&chosen, &moves[i].owner);
        assert(seen == owners(prefix).contains(v[i as int].owner)) by {
            if seen {
                assert(owners(first_per_owner(prefix)).to_set().contains(v[i as int].owner));
            } else if owners(prefix).contains(v[i as int].owner) {
                assert(owners(prefix).to_set().contains(v[i as int].owner));
                assert(owners(first_per_owner(prefix)).to_set().contains(v[i as int].owner));
            }
        }
        if !seen {
            let m = moves[i].clone();
            chosen.push(m);
            assert(move_views(chosen@) =~= first_per_owner(prefix).push(v[i as int]));
        }
        i = i + 1;
    }
    assert(v.subrange(0, moves@.len() as int) =~= v);
    chosen
}

/// Decides whether the round can be closed: `None` while fewer than
/// `number_of_players` players have moved, else the first move of each
/// player who moved. Which of a player's moves counts is decided by the
/// order of `moves` alone: the first one wins, whatever came later.
pub fn finalize_moves(moves: Vec<GameMove>, number_of_players: usize) -> (r: Option<Vec<GameMove>>)
    ensures
        match r {
            None => finalized(move_views(moves@), number_of_players as nat) is None,
            Some(chosen) => finalized(move_views(moves@), number_of_players as nat) == Some(
                move_views(chosen@),
            ),
        },
{
    let ghost v = move_views(moves@);
    if moves.len() < number_of_players {
        proof {
            owners(v).lemma_cardinality_of_set();
        }
        return None;
    }
    let chosen = first_move_per_owner(&moves);
    proof {
        lemma_first_per_owner(v);
    }
    if chosen.len() < number_of_players {
        None
    } else {
        Some(chosen)
    }
}

/// Copies a list of moves.
pub fn copy_moves(moves: &Vec<GameMove>) -> (r: Vec<GameMove>)
    ensures
        move_views(r@) == move_views(moves@),
{
    let mut r: Vec<GameMove> = Vec::with_capacity(moves.len());
    let mut i: usize = 0;
    while i < moves.len()
        invariant
            0 <= i <= moves@.len(),
            move_views(r@) == move_views(moves@).subrange(0, i as int),
        decreases moves@.len() - i,
    {
        let m = moves[i].clone();
        let ghost before = r@;
        r.push(m);
        assert(move_views(r@) =~= move_views(before).push(moves@[i as int]@));
        i = i + 1;
        assert(move_views(r@) =~= move_views(moves@).subrange(0, i as int));
    }
    assert(move_views(moves@).subrange(0, moves@.len() as int) =~= move_views(moves@));
    r
}

/// The input with which a player makes a move.
#[derive(Debug)]
pub struct GameMoveInput {
    pub resource_amount: ResourceAmount,
    pub previous_round: EntryRef,
}

/// The move `owner` makes in the round `round_entry_hash` of `game_session`,
/// taking `resource_amount`; only a player of the session can move.
pub fn new_move(
    owner: AgentKey,
    resource_amount: ResourceAmount,
    round_entry_hash: EntryRef,
    game_session: &GameSession,
) -> (r: Result<GameMove, MoveError>)
    ensures
        keys_view(game_session.players@).contains(owner@) ==> (r matches Ok(m) && m@ == (MoveView {
            owner: owner@,
            round: round_entry_hash@,
            resources: resource_amount,
        })),
        !keys_view(game_session.players@).contains(owner@) ==> r == Err::<GameMove, MoveError>(
            MoveError::NotAPlayer,
        ),
{
    if !contains_key(&game_session.players, &owner) {
        return Err(MoveError::NotAPlayer);
    }
    Ok(GameMove { owner, round: round_entry_hash, resources: resource_amount })
}

/// The verdict on a committed move of `resources` by a player who is (or is
/// not) one of the session's players.
pub open spec fn move_verdict(resources: ResourceAmount, owner_is_player: bool) -> Result<(), Rejection> {
    if resources < 0 {
        Err(Rejection::NegativeResources { resources })
    } else if !owner_is_player {
        Err(Rejection::OwnerNotAPlayer)
    } else {
        Ok(())
    }
}

/// Validates a committed move against the session its round belongs to: it
/// takes no negative amount, and its owner is a player of that session.
pub fn validate_create_entry_game_move(game_move: &GameMove, game_session: &GameSession) -> (r: Result<(), Rejection>)
    ensures
        r == move_verdict(game_move.resources, keys_view(game_session.players@).contains(game_move.owner@)),
{
    if game_move.resources < 0 {
        return Err(Rejection::NegativeResources { resources: game_move.resources });
    }
    if !contains_key(&game_session.players, &game_move.owner) {
        return Err(Rejection::OwnerNotAPlayer);
    }
    Ok(())
}

/// Moves are never updated.
pub fn validate_update_entry_game_move() -> (r: Result<(), Rejection>)
    ensures
        r == Err::<(), Rejection>(Rejection::MoveUpdated),
{
    Err(Rejection::MoveUpdated)
}

/// Moves are never deleted.
pub fn validate_delete_entry_game_move() -> (r: Result<(), Rejection>)
    ensures
        r == Err::<(), Rejection>(Rejection::MoveDeleted),
{
    Err(Rejection::MoveDeleted)
}

/// Finalization waits while fewer players than expected have moved,
/// however many moves were made.
pub proof fn lemma_finalize_waits_for_missing_players(s: Seq<MoveView>, expected: nat)
    requires
        distinct_owner_count(s) < expected,
    ensures
        finalized(s, expected) is None,
{
}

/// Once exactly the expected number of players have moved, duplicates
/// included, finalization yields that many moves, one for each of those
/// players, each one of the moves made.
pub proof fn lemma_finalize_one_move_per_owner(s: Seq<MoveView>, expected: nat)
    requires
        distinct_owner_count(s) == expected,
    ensures
        finalized(s, expected) matches Some(f) && {
            &&& f.len() == expected
            &&& owners(f).no_duplicates()
            &&& owners(f).to_set() == owners(s).to_set()
            &&& forall|j: int| 0 <= j < f.len() ==> s.contains(#[trigger] f[j])
        },
{
    lemma_first_per_owner(s);
}

} // verus!
