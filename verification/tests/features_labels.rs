use wsrx::flags::{FeatureFlags, PingFallSettings};
use wsrx::manager::{make_conn_id, Connection, ConnectionManager};
use wsrx::strutil::{str_ends_with, str_eq, str_starts_with};
use wsrx::tunnel::{default_label_for, fresh_label};

#[test]
fn feature_names_follow_the_table_order() {
    let both = FeatureFlags { basic: true, pingfall: true };
    assert_eq!(both.as_feature_vec(), vec!["basic", "pingfall"]);
    let none = FeatureFlags::empty();
    assert!(none.as_feature_vec().is_empty());
    let only_basic = FeatureFlags::basic_only();
    assert_eq!(only_basic.as_feature_vec(), vec!["basic"]);
    let only_pingfall = FeatureFlags { basic: false, pingfall: true };
    assert_eq!(only_pingfall.as_feature_vec(), vec!["pingfall"]);
}

#[test]
fn feature_names_parse_back_and_ignore_unknown_names() {
    let names = vec![
        String::from("pingfall"),
        String::from("mystery"),
        String::from("basic"),
    ];
    let flags = FeatureFlags::from_feature_names(&names);
    assert!(flags.basic);
    assert!(flags.pingfall);
    let round = FeatureFlags::from_feature_names(
        &FeatureFlags { basic: true, pingfall: true }
            .as_feature_vec()
            .into_iter()
            .map(String::from)
            .collect(),
    );
    assert_eq!(round, FeatureFlags { basic: true, pingfall: true });
}

#[test]
fn pingfall_settings_know_their_status_codes() {
    let ps = PingFallSettings { fail_status: vec![502, 503], drop_unknown: false };
    assert!(ps.contains_status(503));
    assert!(!ps.contains_status(404));
    let empty = PingFallSettings::new_default();
    assert!(!empty.contains_status(503));
    assert!(!empty.drop_unknown);
}

#[test]
fn default_labels_are_the_prefix_plus_six_hex_digits() {
    assert_eq!(default_label_for(0x000001), "inst-000001");
    assert_eq!(default_label_for(0xABCDEF), "inst-abcdef");
    assert_eq!(default_label_for(0xFF123456), "inst-123456");
    let fresh = fresh_label();
    assert_eq!(fresh.len(), 11);
    assert!(fresh.starts_with("inst-"));
}

#[test]
fn string_helpers_compare_by_characters() {
    assert!(str_eq("abc", "abc"));
    assert!(!str_eq("abc", "abd"));
    assert!(!str_eq("abc", "ab"));
    assert!(str_ends_with("https://a.example", "a.example"));
    assert!(!str_ends_with("https://b.example", "a.example"));
    assert!(str_ends_with("x", ""));
    assert!(str_starts_with("wss://x", "wss://"));
    assert!(!str_starts_with("ws://x", "wss://"));
}

#[test]
fn connection_ids_join_host_and_port() {
    assert_eq!(make_conn_id("echo.example", 8080), "echo.example#8080");
    assert_eq!(make_conn_id("h", 0), "h#0");
    assert_eq!(make_conn_id("h", 65535), "h#65535");
}

fn conn(id: &str, url: &str, port: u16) -> Connection {
    Connection { id: String::from(id), url: String::from(url), port, latency: 0 }
}

#[test]
fn connection_manager_tracks_alive_and_dead_endpoints() {
    let mut cm = ConnectionManager::new();
    assert!(cm.add_connection(conn("a#1", "wss://a", 1)));
    assert!(cm.add_connection(conn("b#2", "wss://b", 2)));
    assert!(!cm.add_connection(conn("a#1", "wss://other", 9)));
    assert_eq!(cm.get_alive_ws_connections().len(), 2);

    assert!(cm.set_latency("a#1", 33));
    assert_eq!(cm.get_alive_ws_connections()[0].latency, 33);
    assert!(!cm.set_latency("nope", 1));

    assert!(cm.mark_dead("a#1"));
    assert!(!cm.mark_dead("a#1"));
    assert_eq!(cm.get_alive_ws_connections().len(), 1);
    let dead = cm.get_dead_ws_connections();
    assert_eq!(dead.len(), 1);
    assert_eq!(dead[0].id, "a#1");

    cm.remove_ws_connection("a#1");
    assert!(cm.get_dead_ws_connections().is_empty());
    cm.remove_ws_connection("b#2");
    assert!(cm.get_alive_ws_connections().is_empty());
}
