use faceit_core::democracy::{Democracy, PickBan, VoteSequence};
use faceit_core::room::match_duration;

fn pick(guid: &str) -> PickBan {
    PickBan { guid: guid.to_string(), status: "pick".to_string(), random: false, round: 1, selected_by: "faction1".to_string() }
}

#[test]
fn democracy_takes_first_map_vote() {
    let tickets = vec![
        VoteSequence { entity_type: "location".to_string(), vote_type: "drop".to_string(), entities: vec![pick("eu")] },
        VoteSequence { entity_type: "map".to_string(), vote_type: "drop".to_string(), entities: vec![pick("de_dust2"), pick("de_inferno")] },
        VoteSequence { entity_type: "map".to_string(), vote_type: "pick".to_string(), entities: vec![pick("de_nuke")] },
    ];
    let d = Democracy::from_tickets("m1".to_string(), tickets);
    assert_eq!(d.match_id, "m1");
    assert_eq!(d.map_veto.len(), 2);
    assert_eq!(d.map_veto[0].guid, "de_dust2");
    assert_eq!(d.map_veto[1].guid, "de_inferno");
}

#[test]
fn democracy_without_map_vote_is_empty() {
    let tickets = vec![VoteSequence { entity_type: "location".to_string(), vote_type: "drop".to_string(), entities: vec![pick("eu")] }];
    let d = Democracy::from_tickets("m2".to_string(), tickets);
    assert!(d.map_veto.is_empty());
    assert!(Democracy::from_tickets("m3".to_string(), vec![]).map_veto.is_empty());
}

#[test]
fn match_duration_between_instants() {
    let d = match_duration(1_000, 4_500).unwrap();
    assert_eq!(d.as_secs(), 3);
    assert_eq!(d.subsec_nanos(), 500_000_000);
    assert!(match_duration(5, 4).is_none());
    assert_eq!(match_duration(i64::MIN, i64::MAX).unwrap().as_secs(), u64::MAX / 1000);
}
