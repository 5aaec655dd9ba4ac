use dynamic_tournament::api::{Client, EntrantKind, Entrants, NodeKind, NodeValue, Player, Team, TournamentId};

#[test]
fn entrant_kind_bytes() {
    assert_eq!(EntrantKind::Player.to_u8(), 0);
    assert_eq!(EntrantKind::Team.to_u8(), 1);
    assert_eq!(EntrantKind::from_u8(0), Some(EntrantKind::Player));
    assert_eq!(EntrantKind::from_u8(1), Some(EntrantKind::Team));
    assert_eq!(EntrantKind::from_u8(2), None);
    assert_eq!(EntrantKind::from_u8(255), None);
    for k in [EntrantKind::Player, EntrantKind::Team] {
        assert_eq!(EntrantKind::from_u8(k.to_u8()), Some(k));
    }
}

#[test]
fn entrants_length() {
    let players = Entrants::Players(vec![Player { name: "a".to_string() }, Player { name: "b".to_string() }]);
    assert_eq!(players.len(), 2);
    assert!(!players.is_empty());
    let teams = Entrants::Teams(vec![]);
    assert_eq!(teams.len(), 0);
    assert!(teams.is_empty());
    let one = Entrants::Teams(vec![Team { name: "t".to_string(), players: vec![] }]);
    assert_eq!(one.len(), 1);
}

#[test]
fn clients_carry_their_ids() {
    let client = Client::new("http://localhost".to_string());
    assert_eq!(client.base_url(), "http://localhost");
    let tournaments = client.tournaments();
    assert_eq!(tournaments.brackets(TournamentId(7)).id(), TournamentId(7));
    assert_eq!(tournaments.entrants(TournamentId(3)).id(), TournamentId(3));
}

#[test]
fn node_value_kinds() {
    assert_eq!(NodeValue::Bool(true).kind(), NodeKind::Bool);
    assert_eq!(NodeValue::I64(-1).kind(), NodeKind::I64);
    assert_eq!(NodeValue::U64(1).kind(), NodeKind::U64);
}
