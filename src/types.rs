use vstd::prelude::*;

use crate::game_move::{move_views, owners, GameMove, MoveView};
use crate::ids::AgentKey;

verus! {

/// An amount of the shared resource. Negative values are meaningful: a
/// negative amount left signals that the resource was depleted.
pub type ResourceAmount = i32;

/// The map that a sequence of (key, amount) entries stands for; a later entry
/// for a key replaces an earlier one.
pub open spec fn entries_map(e: Seq<(AgentKey, ResourceAmount)>) -> Map<Seq<u8>, ResourceAmount>
    decreases e.len(),
{
    if e.len() == 0 {
        Map::empty()
    } else {
        entries_map(e.drop_last()).insert(e.last().0@, e.last().1)
    }
}

/// No two entries share a key.
pub open spec fn keys_unique(e: Seq<(AgentKey, ResourceAmount)>) -> bool {
    forall|i: int, j: int| 0 <= i < j < e.len() ==> #[trigger] e[i].0@ != #[trigger] e[j].0@
}

/// Per-player amounts as a map from each player's key to the amount that
/// player took, as a later move of a player replaces an earlier one.
pub open spec fn stats_of_moves(s: Seq<MoveView>) -> Map<Seq<u8>, ResourceAmount>
    decreases s.len(),
{
    if s.len() == 0 {
        Map::empty()
    } else {
        stats_of_moves(s.drop_last()).insert(s.last().owner, s.last().resources)
    }
}

proof fn lemma_entries_map_domain(e: Seq<(AgentKey, ResourceAmount)>, k: Seq<u8>)
    ensures
        entries_map(e).contains_key(k) <==> exists|j: int| 0 <= j < e.len() && e[j].0@ == k,
    decreases e.len(),
{
    if e.len() > 0 {
        let p = e.drop_last();
        lemma_entries_map_domain(p, k);
        if entries_map(p).contains_key(k) {
            let j = choose|j: int| 0 <= j < p.len() && p[j].0@ == k;
            assert(e[j].0@ == k);
        }
        if exists|j: int| 0 <= j < e.len() && e[j].0@ == k {
            let j = choose|j: int| 0 <= j < e.len() && e[j].0@ == k;
            if j < e.len() - 1 {
                assert(p[j].0@ == k);
            }
        }
    }
}

proof fn lemma_entries_map_value(e: Seq<(AgentKey, ResourceAmount)>, j: int)
    requires
        keys_unique(e),
        0 <= j < e.len(),
    ensures
        entries_map(e).contains_key(e[j].0@),
        entries_map(e)[e[j].0@] == e[j].1,
    decreases e.len(),
{
    let p = e.drop_last();
    if j < e.len() - 1 {
        assert(keys_unique(p)) by {
            assert forall|a: int, b: int| 0 <= a < b < p.len() implies p[a].0@ != p[b].0@ by {
                assert(p[a] == e[a] && p[b] == e[b]);
            }
        }
        lemma_entries_map_value(p, j);
        assert(e[j].0@ != e[e.len() - 1].0@);
        assert(p[j] == e[j]);
    }
}

proof fn lemma_entries_map_len(e: Seq<(AgentKey, ResourceAmount)>)
    requires
        keys_unique(e),
    ensures
        entries_map(e).dom().finite(),
        entries_map(e).dom().len() == e.len(),
    decreases e.len(),
{
    if e.len() > 0 {
        let p = e.drop_last();
        assert(keys_unique(p)) by {
            assert forall|a: int, b: int| 0 <= a < b < p.len() implies p[a].0@ != p[b].0@ by {
                assert(p[a] == e[a] && p[b] == e[b]);
            }
        }
        lemma_entries_map_len(p);
        lemma_entries_map_domain(p, e.last().0@);
        if entries_map(p).contains_key(e.last().0@) {
            let j = choose|j: int| 0 <= j < p.len() && p[j].0@ == e.last().0@;
            assert(e[j].0@ == e[e.len() - 1].0@);
        }
    }
}

proof fn lemma_entries_congruent(a: Seq<(AgentKey, ResourceAmount)>, b: Seq<(AgentKey, ResourceAmount)>)
    requires
        a.len() == b.len(),
        forall|j: int| 0 <= j < a.len() ==> (#[trigger] a[j]).0@ == b[j].0@ && a[j].1 == b[j].1,
    ensures
        entries_map(a) == entries_map(b),
        keys_unique(a) == keys_unique(b),
    decreases a.len(),
{
    if a.len() > 0 {
        lemma_entries_congruent(a.drop_last(), b.drop_last());
        assert(a.last().0@ == b.last().0@);
    }
    if keys_unique(a) {
        assert forall|i: int, j: int| 0 <= i < j < b.len() implies #[trigger] b[i].0@ != #[trigger] b[j].0@ by {
            assert(a[i].0@ != a[j].0@);
        }
    }
    if keys_unique(b) {
        assert forall|i: int, j: int| 0 <= i < j < a.len() implies #[trigger] a[i].0@ != #[trigger] a[j].0@ by {
            assert(b[i].0@ != b[j].0@);
        }
    }
}

/// What each player took in a round, keyed by the player's key.
#[derive(Debug)]
pub struct PlayerStats {
    entries: Vec<(AgentKey, ResourceAmount)>,
}

impl View for PlayerStats {
    type V = Map<Seq<u8>, ResourceAmount>;

    closed spec fn view(&self) -> Map<Seq<u8>, ResourceAmount> {
        entries_map(self.entries@)
    }
}

impl PlayerStats {
    /// The representation holds each key once.
    pub closed spec fn wf(&self) -> bool {
        keys_unique(self.entries@)
    }

    pub fn new() -> (r: PlayerStats)
        ensures
            r.wf(),
            r@ == Map::<Seq<u8>, ResourceAmount>::empty(),
    {
        PlayerStats { entries: Vec::new() }
    }

    /// The number of players with an entry.
    pub fn len(&self) -> (r: usize)
        requires
            self.wf(),
        ensures
            self@.dom().finite(),
            r == self@.dom().len(),
    {
        proof {
            lemma_entries_map_len(self.entries@);
        }
        self.entries.len()
    }

    fn position(&self, key: &AgentKey) -> (r: Option<usize>)
        ensures
            match r {
                Some(j) => j < self.entries@.len() && self.entries@[j as int].0@ == key@,
                None => forall|j: int| 0 <= j < self.entries@.len() ==> self.entries@[j].0@ != key@,
            },
    {
        let mut i: usize = 0;
        while i < self.entries.len()
            invariant
                0 <= i <= self.entries@.len(),
                forall|j: int| 0 <= j < i ==> self.entries@[j].0@ != key@,
            decreases self.entries@.len() - i,
        {
            if self.entries[i].0.same_as(key) {
                return Some(i);
            }
            i = i + 1;
        }
        None
    }

    /// The amount recorded for a player, if any.
    pub fn get(&self, key: &AgentKey) -> (r: Option<ResourceAmount>)
        requires
            self.wf(),
        ensures
            r == (if self@.contains_key(key@) {
                Some(self@[key@])
            } else {
                None::<ResourceAmount>
            }),
    {
        proof {
            lemma_entries_map_domain(self.entries@, key@);
        }
        match self.position(key) {
            Some(j) => {
                proof {
                    lemma_entries_map_value(self.entries@, j as int);
                }
                Some(self.entries[j].1)
            },
            None => None,
        }
    }

    /// The (key, amount) pairs, each key once.
    pub fn pairs(&self) -> (r: Vec<(AgentKey, ResourceAmount)>)
        requires
            self.wf(),
        ensures
            keys_unique(r@),
            entries_map(r@) == self@,
    {
        let mut r: Vec<(AgentKey, ResourceAmount)> = Vec::with_capacity(self.entries.len());
        let mut i: usize = 0;
        while i < self.entries.len()
            invariant
                0 <= i <= self.entries@.len(),
                r@.len() == i,
                forall|j: int|
                    0 <= j < i ==> (#[trigger] r@[j]).0@ == self.entries@[j].0@ && r@[j].1
                        == self.entries@[j].1,
            decreases self.entries@.len() - i,
        {
            let key = self.entries[i].0.clone();
            r.push((key, self.entries[i].1));
            i = i + 1;
        }
        proof {
            lemma_entries_congruent(r@, self.entries@);
        }
        r
    }

    /// Records `value` for a player, replacing what was recorded before.
    pub fn set(&mut self, key: AgentKey, value: ResourceAmount)
        requires
            old(self).wf(),
        ensures
            final(self).wf(),
            final(self)@ == old(self)@.insert(key@, value),
    {
        let ghost before = self.entries@;
        match self.position(&key) {
            Some(j) => {
                let ghost k = key@;
                self.entries[j] = (key, value);
                let ghost after = self.entries@;
                assert(keys_unique(after)) by {
                    assert forall|a: int, b: int| 0 <= a < b < after.len() implies after[a].0@
                        != after[b].0@ by {
                        if a != j && b != j {
                            assert(after[a] == before[a] && after[b] == before[b]);
                        } else if a == j {
                            assert(after[b] == before[b]);
                            assert(before[j as int].0@ == k);
                        } else {
                            assert(after[a] == before[a]);
                            assert(before[j as int].0@ == k);
                        }
                    }
                }
                assert(entries_map(after) =~= entries_map(before).insert(k, value)) by {
                    assert forall|x: Seq<u8>| #[trigger]
                        entries_map(after).contains_key(x) == entries_map(before).insert(
                            k,
                            value,
                        ).contains_key(x) by {
                        lemma_entries_map_domain(after, x);
                        lemma_entries_map_domain(before, x);
                        if exists|i: int| 0 <= i < before.len() && before[i].0@ == x {
                            let i = choose|i: int| 0 <= i < before.len() && before[i].0@ == x;
                            if i == j {
                                assert(after[i].0@ == x);
                            } else {
                                assert(after[i] == before[i]);
                            }
                        }
                        if exists|i: int| 0 <= i < after.len() && after[i].0@ == x {
                            let i = choose|i: int| 0 <= i < after.len() && after[i].0@ == x;
                            if i != j {
                                assert(after[i] == before[i]);
                            }
                        }
                    }
                    assert forall|x: Seq<u8>| #[trigger]
                        entries_map(after).contains_key(x) implies entries_map(after)[x]
                        == entries_map(before).insert(k, value)[x] by {
                        lemma_entries_map_domain(after, x);
                        let i = choose|i: int| 0 <= i < after.len() && after[i].0@ == x;
                        lemma_entries_map_value(after, i);
                        if i != j {
                            assert(after[i] == before[i]);
                            lemma_entries_map_value(before, i);
                        }
                    }
                }
            },
            None => {
                self.entries.push((key, value));
                assert(self.entries@.drop_last() =~= before);
            },
        }
    }
}

impl Clone for PlayerStats {
    fn clone(&self) -> (r: PlayerStats)
        ensures
            r.wf() == self.wf(),
            r@ == self@,
    {
        let mut entries: Vec<(AgentKey, ResourceAmount)> = Vec::with_capacity(self.entries.len());
        let mut i: usize = 0;
        while i < self.entries.len()
            invariant
                0 <= i <= self.entries@.len(),
                entries@.len() == i,
                forall|j: int|
                    0 <= j < i ==> (#[trigger] entries@[j]).0@ == self.entries@[j].0@
                        && entries@[j].1 == self.entries@[j].1,
            decreases self.entries@.len() - i,
        {
            let key = self.entries[i].0.clone();
            entries.push((key, self.entries[i].1));
            i = i + 1;
        }
        proof {
            lemma_entries_congruent(entries@, self.entries@);
        }
        PlayerStats { entries }
    }
}

/// A zero amount for every player of `players`.
pub open spec fn zero_stats(players: Seq<Seq<u8>>) -> Map<Seq<u8>, ResourceAmount>
    decreases players.len(),
{
    if players.len() == 0 {
        Map::empty()
    } else {
        zero_stats(players.drop_last()).insert(players.last(), 0)
    }
}

/// Generates stats that hold 0 for every player of `players`.
pub fn new_player_stats(players: &Vec<AgentKey>) -> (r: PlayerStats)
    ensures
        r.wf(),
        r@ == zero_stats(players@.map_values(|k: AgentKey| k@)),
{
    let ghost keys = players@.map_values(|k: AgentKey| k@);
    let mut stats = PlayerStats::new();
    let mut i: usize = 0;
    while i < players.len()
        invariant
            0 <= i <= players@.len(),
            keys == players@.map_values(|k: AgentKey| k@),
            stats.wf(),
            stats@ == zero_stats(keys.subrange(0, i as int)),
        decreases players@.len() - i,
    {
        stats.set(players[i].clone(), 0);
        assert(keys.subrange(0, i + 1).drop_last() =~= keys.subrange(0, i as int));
        i = i + 1;
    }
    assert(keys.subrange(0, players@.len() as int) =~= keys);
    stats
}

/// Generates stats from the moves: each move's owner with the amount it
/// took, a later move of an owner replacing an earlier one.
pub fn player_stats_from_moves(game_moves: Vec<GameMove>) -> (r: PlayerStats)
    ensures
        r.wf(),
        r@ == stats_of_moves(move_views(game_moves@)),
{
    let ghost views = move_views(game_moves@);
    let mut stats = PlayerStats::new();
    let mut i: usize = 0;
    while i < game_moves.len()
        invariant
            0 <= i <= game_moves@.len(),
            views == move_views(game_moves@),
            stats.wf(),
            stats@ == stats_of_moves(views.subrange(0, i as int)),
        decreases game_moves@.len() - i,
    {
        let m = &game_moves[i];
        stats.set(m.owner.clone(), m.resources);
        assert(views.subrange(0, i + 1).drop_last() =~= views.subrange(0, i as int));
        i = i + 1;
    }
    assert(views.subrange(0, game_moves@.len() as int) =~= views);
    stats
}

/// The players with stats are the owners of the moves.
pub proof fn lemma_stats_of_moves_domain(s: Seq<MoveView>)
    ensures
        stats_of_moves(s).dom() == owners(s).to_set(),
    decreases s.len(),
{
    if s.len() == 0 {
        assert(owners(s) =~= Seq::<Seq<u8>>::empty());
        assert(stats_of_moves(s).dom() =~= owners(s).to_set());
    } else {
        let p = s.drop_last();
        lemma_stats_of_moves_domain(p);
        assert(owners(s) =~= owners(p).push(s.last().owner));
        owners(p).lemma_push_to_set_commute(s.last().owner);
        assert(stats_of_moves(s).dom() =~= owners(s).to_set());
    }
}

} // verus!
