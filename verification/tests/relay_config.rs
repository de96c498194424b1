use notedeck_channels::relay_config::RelayConfig;

#[test]
fn test_relay_config() {
    let mut config = RelayConfig::new();
    assert!(config.is_empty());

    config.add_relay("wss://relay.example.com".to_string());
    assert_eq!(config.len(), 1);
    assert!(config.has_relay("wss://relay.example.com"));

    config.remove_relay("wss://relay.example.com");
    assert!(config.is_empty());
}

#[test]
fn test_default_relays() {
    let config = RelayConfig::default_relays();
    assert!(!config.is_empty());
    assert!(config.has_relay("wss://relay.damus.io"));
}

#[test]
fn default_relays_are_the_three_known_ones() {
    let config = RelayConfig::default_relays();
    assert_eq!(config.len(), 3);
    assert!(config.has_relay("wss://relay.damus.io"));
    assert!(config.has_relay("wss://relay.nostr.band"));
    assert!(config.has_relay("wss://nos.lol"));
    assert!(!config.has_relay("wss://relay.example.com"));
    let same = RelayConfig::default();
    assert_eq!(same.get_relays(), config.get_relays());
}

#[test]
fn adding_a_relay_twice_inserts_it_once() {
    let mut config = RelayConfig::new();
    assert!(config.add_relay("wss://a.example".to_string()));
    assert_eq!(config.len(), 1);
    assert!(!config.add_relay("wss://a.example".to_string()));
    assert_eq!(config.len(), 1);
    assert!(config.has_relay("wss://a.example"));
}

#[test]
fn removing_a_relay_reports_whether_it_was_held() {
    let mut config = RelayConfig::new();
    config.add_relay("wss://a.example".to_string());
    assert!(!config.remove_relay("wss://b.example"));
    assert_eq!(config.len(), 1);
    assert!(config.remove_relay("wss://a.example"));
    assert!(!config.remove_relay("wss://a.example"));
    assert_eq!(config.len(), 0);
    assert!(config.is_empty());
}

#[test]
fn relays_come_out_in_ascending_order() {
    let mut config = RelayConfig::new();
    config.add_relay("wss://c.example".to_string());
    config.add_relay("wss://a.example".to_string());
    config.add_relay("wss://b.example".to_string());
    config.add_relay("wss://a.example/x".to_string());
    config.add_relay("wss://B.example".to_string());
    let expected: Vec<String> = vec![
        "wss://B.example".to_string(),
        "wss://a.example".to_string(),
        "wss://a.example/x".to_string(),
        "wss://b.example".to_string(),
        "wss://c.example".to_string(),
    ];
    assert_eq!(config.get_relays(), &expected);
    let mut sorted = expected.clone();
    sorted.sort();
    assert_eq!(sorted, expected);
}

#[test]
fn relays_beyond_ascii_are_ordered_as_strings_are() {
    let mut config = RelayConfig::new();
    let urls = ["wss://\u{e9}.example", "wss://z.example", "wss://\u{4e2d}.example", "wss://", ""];
    for url in urls {
        assert!(config.add_relay(url.to_string()));
    }
    let mut expected: Vec<String> = urls.iter().map(|u| u.to_string()).collect();
    expected.sort();
    assert_eq!(config.get_relays(), &expected);
    for url in urls {
        assert!(config.has_relay(url));
    }
    assert!(config.remove_relay(""));
    assert_eq!(config.len(), 4);
}
