//! Per-match statistics of a room: match, team and player records.
use vstd::prelude::*;

use crate::mapping::{map_all, normalize_pairs, MapStats, Mapping, StatMap};

verus! {

/// One player's statistics within a match.
pub struct PlayerStats {
    pub nickname: String,
    pub player_id: String,
    pub stats: StatMap,
}

/// One team's statistics within a match, with those of its players.
pub struct TeamStats {
    pub team_id: String,
    pub players: Vec<PlayerStats>,
    pub stats: StatMap,
}

/// The statistics of one match of a room.
pub struct MatchStats {
    /// Milliseconds since the Unix epoch.
    pub date_ms: u64,
    pub game: String,
    pub game_mode: String,
    pub match_id: String,
    pub played: String,
    pub teams: Vec<TeamStats>,
    pub stats: StatMap,
}

/// The statistics of every match of a room.
pub struct RoomStats(pub Vec<MatchStats>);

impl MapStats for PlayerStats {
    open spec fn stats_wf(&self) -> bool {
        self.stats.wf()
    }

    open spec fn stats_normalized(&self, before: &Self, m: Map<Seq<char>, Seq<char>>) -> bool {
        &&& self.nickname == before.nickname
        &&& self.player_id == before.player_id
        &&& self.stats@ == normalize_pairs(before.stats.pairs(), m)
    }

    fn map_stats(&mut self, mapping: &Mapping) {
        self.stats.map_stats(mapping);
    }
}

impl MapStats for TeamStats {
    open spec fn stats_wf(&self) -> bool {
        &&& self.stats.wf()
        &&& forall|j: int| 0 <= j < self.players@.len() ==> (#[trigger] self.players@[j]).stats_wf()
    }

    open spec fn stats_normalized(&self, before: &Self, m: Map<Seq<char>, Seq<char>>) -> bool {
        &&& self.team_id == before.team_id
        &&& self.stats@ == normalize_pairs(before.stats.pairs(), m)
        &&& self.players@.len() == before.players@.len()
        &&& forall|j: int|
            0 <= j < self.players@.len() ==> (#[trigger] self.players@[j]).stats_normalized(
                &before.players@[j],
                m,
            )
    }

    fn map_stats(&mut self, mapping: &Mapping) {
        self.stats.map_stats(mapping);
        map_all(&mut self.players, mapping);
    }
}

impl MapStats for MatchStats {
    open spec fn stats_wf(&self) -> bool {
        &&& self.stats.wf()
        &&& forall|j: int| 0 <= j < self.teams@.len() ==> (#[trigger] self.teams@[j]).stats_wf()
    }

    open spec fn stats_normalized(&self, before: &Self, m: Map<Seq<char>, Seq<char>>) -> bool {
        &&& self.date_ms == before.date_ms
        &&& self.game == before.game
        &&& self.game_mode == before.game_mode
        &&& self.match_id == before.match_id
        &&& self.played == before.played
        &&& self.stats@ == normalize_pairs(before.stats.pairs(), m)
        &&& self.teams@.len() == before.teams@.len()
        &&& forall|j: int|
            0 <= j < self.teams@.len() ==> (#[trigger] self.teams@[j]).stats_normalized(
                &before.teams@[j],
                m,
            )
    }

    fn map_stats(&mut self, mapping: &Mapping) {
        self.stats.map_stats(mapping);
        map_all(&mut self.teams, mapping);
    }
}

impl MapStats for RoomStats {
    open spec fn stats_wf(&self) -> bool {
        forall|i: int| 0 <= i < self.0@.len() ==> (#[trigger] self.0@[i]).stats_wf()
    }

    open spec fn stats_normalized(&self, before: &Self, m: Map<Seq<char>, Seq<char>>) -> bool {
        &&& self.0@.len() == before.0@.len()
        &&& forall|i: int|
            0 <= i < self.0@.len() ==> (#[trigger] self.0@[i]).stats_normalized(&before.0@[i], m)
    }

    /// Normalizes the record of every match, of each of its teams and of each
    /// of their players.
    fn map_stats(&mut self, mapping: &Mapping) {
        map_all(&mut self.0, mapping);
    }
}

} // verus!
