//! The world: a tile map and the players in it, in the order they joined.

use vstd::prelude::*;
use crate::player::{player_color, Object, Player, PLAYER_GLYPH};
use crate::tile_map::TileMap;

verus! {

/// Where a player that joins first stands.
pub const SPAWN_X: i32 = 1;
pub const SPAWN_Y: i32 = 1;

pub struct World {
    map: TileMap,
    players: Vec<Player>,
}

/// The first position in `players` of a player with identity `id`.
pub open spec fn first_with_id(players: Seq<Player>, id: u64, i: int) -> bool {
    &&& 0 <= i < players.len()
    &&& players[i].spec_id() == id
    &&& forall|j: int| 0 <= j < i ==> #[trigger] players[j].spec_id() != id
}

impl World {
    pub closed spec fn spec_map(&self) -> TileMap {
        self.map
    }

    /// The players, in the order in which they joined.
    pub closed spec fn spec_players(&self) -> Seq<Player> {
        self.players@
    }

    /// A world on `map`, with no players yet.
    pub fn new(map: TileMap) -> (r: World)
        ensures
            r.spec_map() == map,
            r.spec_players() == Seq::<Player>::empty(),
    {
        World { map, players: Vec::new() }
    }

    pub fn map(&self) -> (r: &TileMap)
        ensures
            *r == self.spec_map(),
    {
        &self.map
    }

    pub fn players(&self) -> (r: &Vec<Player>)
        ensures
            r@ == self.spec_players(),
    {
        &self.players
    }

    /// A new player with identity `id` joins, at the spawn position.
    pub fn add_player(&mut self, id: u64)
        ensures
            final(self).spec_map() == old(self).spec_map(),
            final(self).spec_players().len() == old(self).spec_players().len() + 1,
            final(self).spec_players().drop_last() == old(self).spec_players(),
            final(self).spec_players().last().spec_id() == id,
            final(self).spec_players().last().spec_glyph() == PLAYER_GLYPH,
            final(self).spec_players().last().spec_color() == player_color(id),
            final(self).spec_players().last().spec_object() == (Object { x: SPAWN_X, y: SPAWN_Y }),
    {
        let player = Player::new(id, SPAWN_X, SPAWN_Y);
        self.players.push(player);
        assert(self.players@.drop_last() =~= old(self).players@);
    }

    /// The first player with identity `id` leaves; with none, nothing changes.
    pub fn remove_player(&mut self, id: u64)
        ensures
            final(self).spec_map() == old(self).spec_map(),
            (exists|i: int| first_with_id(old(self).spec_players(), id, i)) ==> (exists|i: int|
                first_with_id(old(self).spec_players(), id, i)
                    && final(self).spec_players() == old(self).spec_players().remove(i)),
            !(exists|i: int| first_with_id(old(self).spec_players(), id, i)) ==> final(self).spec_players()
                == old(self).spec_players(),
    {
        let mut i: usize = 0;
        while i < self.players.len()
            invariant
                *self == *old(self),
                0 <= i <= self.players@.len(),
                forall|j: int| 0 <= j < i ==> #[trigger] self.players@[j].spec_id() != id,
            decreases self.players@.len() - i,
        {
            if self.players[i].id() == id {
                assert(first_with_id(old(self).spec_players(), id, i as int));
                self.players.remove(i);
                return;
            }
            i = i + 1;
        }
        assert forall|k: int| !first_with_id(old(self).spec_players(), id, k) by {
            if 0 <= k < old(self).spec_players().len() {
                assert(old(self).spec_players()[k].spec_id() != id);
            }
        }
    }
}

} // verus!
