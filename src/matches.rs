//! A player's match history.
use vstd::prelude::*;

use crate::mapping::{map_all, normalize_pairs, MapStats, Mapping, StatMap};

verus! {

/// One match of a player's history.
pub struct Match {
    pub match_id: String,
    /// Milliseconds since the Unix epoch.
    pub date_ms: u64,
    pub elo: Option<u16>,
    pub premade: Option<bool>,
    pub team_id: String,
    pub game_mode: String,
    pub best_of: String,
    pub played: String,
    pub status: String,
    pub game: String,
    pub stats: StatMap,
}

/// A page of a player's match history.
pub struct Matches(pub Vec<Match>);

impl MapStats for Match {
    open spec fn stats_wf(&self) -> bool {
        self.stats.wf()
    }

    open spec fn stats_normalized(&self, before: &Self, m: Map<Seq<char>, Seq<char>>) -> bool {
        &&& self.match_id == before.match_id
        &&& self.date_ms == before.date_ms
        &&& self.elo == before.elo
        &&& self.premade == before.premade
        &&& self.team_id == before.team_id
        &&& self.game_mode == before.game_mode
        &&& self.best_of == before.best_of
        &&& self.played == before.played
        &&& self.status == before.status
        &&& self.game == before.game
        &&& self.stats@ == normalize_pairs(before.stats.pairs(), m)
    }

    fn map_stats(&mut self, mapping: &Mapping) {
        self.stats.map_stats(mapping);
    }
}

impl MapStats for Matches {
    open spec fn stats_wf(&self) -> bool {
        forall|i: int| 0 <= i < self.0@.len() ==> (#[trigger] self.0@[i]).stats_wf()
    }

    open spec fn stats_normalized(&self, before: &Self, m: Map<Seq<char>, Seq<char>>) -> bool {
        &&& self.0@.len() == before.0@.len()
        &&& forall|i: int|
            0 <= i < self.0@.len() ==> (#[trigger] self.0@[i]).stats_normalized(&before.0@[i], m)
    }

    /// Normalizes the record of every match.
    fn map_stats(&mut self, mapping: &Mapping) {
        map_all(&mut self.0, mapping);
    }
}

} // verus!
