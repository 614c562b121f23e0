//! Rosters of a match room.
use vstd::prelude::*;

use crate::humanize::Duration;

verus! {

/// A player of a room's roster.
pub struct Player {
    pub id: String,
    pub nickname: String,
    pub game_id: String,
    pub elo: u16,
    pub skill_level: u8,
    pub memberships: Vec<String>,
}

/// One side of a room.
pub struct Team {
    pub id: String,
    pub name: String,
    pub leader: String,
    pub roster: Vec<Player>,
}

/// The two sides of a room.
pub struct Teams {
    pub faction_1: Team,
    pub faction_2: Team,
}

/// The time from `started_ms` to `finished_ms` (milliseconds since the Unix
/// epoch), or `None` when the match finished before it started.
pub fn match_duration(started_ms: i64, finished_ms: i64) -> (r: Option<Duration>)
    ensures
        finished_ms < started_ms ==> r is None,
        finished_ms >= started_ms ==> (r matches Some(d) && d.nanos < 1_000_000_000
            && d.total_nanos() == (finished_ms - started_ms) * 1_000_000),
{
    if finished_ms < started_ms {
        None
    } else {
        let ms: u64 = (finished_ms as i128 - started_ms as i128) as u64;
        Some(Duration::from_millis(ms))
    }
}

} // verus!
