use scoreboard_engine::registry::Registry;
use scoreboard_engine::registry::channel_key_str;
use scoreboard_engine::registry::is_reserved_key;
use scoreboard_engine::registry::message_key_str;

#[test]
fn registering_twice_stores_exactly_one_record() {
    let mut r = Registry::new();
    assert!(r.register("summoner-id-1".to_owned()));
    assert!(!r.register("summoner-id-1".to_owned()));
    assert_eq!(r.len(), 1);
    assert!(r.contains_id(&"summoner-id-1".to_owned()));
}

#[test]
fn distinct_identities_all_stored() {
    let mut r = Registry::new();
    assert!(r.register("a1".to_owned()));
    assert!(r.register("a2".to_owned()));
    assert!(r.register("a3".to_owned()));
    assert_eq!(r.len(), 3);
    let names: Vec<&str> = r.identities().iter().map(|s| s.as_str()).collect();
    assert_eq!(names, vec!["a1", "a2", "a3"]);
}

#[test]
fn scan_excludes_reserved_configuration_keys() {
    let keys = vec![
        "scoreboard_channel".to_owned(),
        "player-one".to_owned(),
        "scoreboard_message".to_owned(),
        "player-two".to_owned(),
        "player-one".to_owned(),
    ];
    let r = Registry::from_keys(&keys);
    assert_eq!(r.len(), 2);
    assert!(r.contains_id(&"player-one".to_owned()));
    assert!(r.contains_id(&"player-two".to_owned()));
    assert!(!r.contains_id(&"scoreboard_channel".to_owned()));
    assert!(!r.contains_id(&"scoreboard_message".to_owned()));
}

#[test]
fn reserved_key_predicate_matches_the_two_keys() {
    assert!(is_reserved_key(&"scoreboard_channel".to_owned()));
    assert!(is_reserved_key(&"scoreboard_message".to_owned()));
    assert!(!is_reserved_key(&"scoreboard".to_owned()));
    assert_eq!(channel_key_str(), "scoreboard_channel");
    assert_eq!(message_key_str(), "scoreboard_message");
}
