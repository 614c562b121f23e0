use faceit_core::mapping::{normalize, MapStats, Mapping, StatMap};
use faceit_core::matches::{Match, Matches};
use faceit_core::room_stats::{MatchStats, PlayerStats, RoomStats, TeamStats};

fn s(x: &str) -> String {
    x.to_string()
}

fn record(pairs: &[(&str, &str)]) -> StatMap {
    StatMap::from_pairs(pairs.iter().map(|(k, v)| (s(k), s(v))).collect())
}

fn table(pairs: &[(&str, &str)]) -> Mapping {
    Mapping::build(pairs.iter().map(|(k, v)| (s(k), s(v))).collect())
}

#[test]
fn normalize_renames_and_drops() {
    let r = record(&[("a", "1"), ("b", "2")]);
    let m = table(&[("a", "X")]);
    let out = normalize(&r, &m);
    assert_eq!(out.len(), 1);
    assert_eq!(out.get(&s("X")), Some(&s("1")));
    assert_eq!(out.get(&s("a")), None);
    assert_eq!(out.get(&s("b")), None);
}

#[test]
fn normalize_twice_with_code_table_is_empty() {
    let r = record(&[("a", "1"), ("b", "2")]);
    let m = table(&[("a", "Kills"), ("b", "Deaths")]);
    let once = normalize(&r, &m);
    assert_eq!(once.len(), 2);
    let twice = normalize(&once, &m);
    assert_eq!(twice.len(), 0);
}

#[test]
fn normalize_collision_later_entry_wins() {
    let r = record(&[("a", "1"), ("b", "2")]);
    let m = table(&[("a", "L"), ("b", "L")]);
    let out = normalize(&r, &m);
    assert_eq!(out.len(), 1);
    assert_eq!(out.get(&s("L")), Some(&s("2")));
}

#[test]
fn normalize_empty_inputs() {
    let out = normalize(&StatMap::new(), &table(&[("a", "X")]));
    assert_eq!(out.len(), 0);
    let out = normalize(&record(&[("a", "1")]), &table(&[]));
    assert_eq!(out.len(), 0);
}

#[test]
fn mapping_build_and_lookup() {
    let m = table(&[("k1", "Kills"), ("k2", "Deaths"), ("k1", "K/D")]);
    assert_eq!(m.lookup(&s("k1")), Some(&s("K/D")));
    assert_eq!(m.lookup(&s("k2")), Some(&s("Deaths")));
    assert_eq!(m.lookup(&s("k3")), None);
}

#[test]
fn stat_map_insert_replaces() {
    let mut r = StatMap::new();
    r.insert(s("a"), s("1"));
    r.insert(s("b"), s("2"));
    r.insert(s("a"), s("3"));
    assert_eq!(r.len(), 2);
    assert_eq!(r.get(&s("a")), Some(&s("3")));
    assert_eq!(r.entries().len(), 2);
    assert_eq!(r.entries()[0], (s("a"), s("3")));
}

#[test]
fn stat_map_normalizes_in_place() {
    let mut r = record(&[("a", "1"), ("c", "3")]);
    r.map_stats(&table(&[("a", "A"), ("c", "C")]));
    assert_eq!(r.len(), 2);
    assert_eq!(r.get(&s("A")), Some(&s("1")));
    assert_eq!(r.get(&s("C")), Some(&s("3")));
}

#[test]
fn room_stats_normalizes_every_level() {
    let m = table(&[("m1", "Rounds"), ("t1", "Team Win"), ("pk", "Kills")]);
    let player = PlayerStats { nickname: s("nick"), player_id: s("p-1"), stats: record(&[("pk", "20"), ("zz", "x")]) };
    let team = TeamStats { team_id: s("t-1"), players: vec![player], stats: record(&[("t1", "1"), ("zz", "x")]) };
    let game = MatchStats {
        date_ms: 1_600_000_000_000,
        game: s("csgo"),
        game_mode: s("5v5"),
        match_id: s("m-1"),
        played: s("1"),
        teams: vec![team],
        stats: record(&[("m1", "30"), ("zz", "x")]),
    };
    let mut room = RoomStats(vec![game]);
    room.map_stats(&m);
    let g = &room.0[0];
    assert_eq!(g.stats.len(), 1);
    assert_eq!(g.stats.get(&s("Rounds")), Some(&s("30")));
    assert_eq!(g.teams[0].stats.len(), 1);
    assert_eq!(g.teams[0].stats.get(&s("Team Win")), Some(&s("1")));
    assert_eq!(g.teams[0].players[0].stats.len(), 1);
    assert_eq!(g.teams[0].players[0].stats.get(&s("Kills")), Some(&s("20")));
    assert_eq!(g.teams[0].players[0].nickname, "nick");
    assert_eq!(g.match_id, "m-1");
}

#[test]
fn matches_normalize_every_match() {
    let mk = |id: &str, stats: StatMap| Match {
        match_id: s(id),
        date_ms: 0,
        elo: Some(1500),
        premade: None,
        team_id: s("t"),
        game_mode: s("5v5"),
        best_of: s("1"),
        played: s("1"),
        status: s("APPROVED"),
        game: s("csgo"),
        stats,
    };
    let mut ms = Matches(vec![mk("m1", record(&[("i6", "10")])), mk("m2", record(&[("i6", "7"), ("i7", "1")]))]);
    ms.map_stats(&table(&[("i6", "Kills")]));
    assert_eq!(ms.0[0].stats.get(&s("Kills")), Some(&s("10")));
    assert_eq!(ms.0[1].stats.get(&s("Kills")), Some(&s("7")));
    assert_eq!(ms.0[1].stats.len(), 1);
    assert_eq!(ms.0[1].elo, Some(1500));
}
