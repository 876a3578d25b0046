use std::collections::HashSet;

use weeb_logger::controllers::config::{config_endpoint, ConfigResponse};
use weeb_logger::controllers::wed::{classify_endpoint, EmoteMap};

fn names(v: &[&str]) -> Vec<String> {
    v.iter().map(|s| s.to_string()).collect()
}

#[test]
fn config_keeps_each_channel_once() {
    let c = ConfigResponse::from_names(names(&["a", "b", "a", "c", "b"]));
    assert_eq!(c.channels, names(&["a", "b", "c"]));
}

#[test]
fn config_of_nothing_is_empty() {
    let c = ConfigResponse::from_names(Vec::new());
    assert!(c.channels.is_empty());
}

#[test]
fn config_channels_are_registered_as_logged() {
    let c = ConfigResponse::from_names(names(&["x", "y"]));
    let rows = c.channels_to_register();
    assert_eq!(rows.len(), 2);
    assert_eq!(rows[0].channel_name, "x");
    assert_eq!(rows[1].channel_name, "y");
    assert!(rows.iter().all(|r| r.actively_logged));
}

#[test]
fn config_set_is_preserved() {
    let input = names(&["q", "w", "q", "e", "w", "q"]);
    let want: HashSet<String> = input.iter().cloned().collect();
    let c = ConfigResponse::from_names(input);
    let got: HashSet<String> = c.channels.iter().cloned().collect();
    assert_eq!(got, want);
    assert_eq!(got.len(), c.channels.len());
}

#[test]
fn endpoints_append_paths() {
    assert_eq!(config_endpoint("http://cfg/".to_string()), "http://cfg/api/v1/config");
    assert_eq!(classify_endpoint("http://wed/".to_string()), "http://wed/api/v1/hwis");
}

#[test]
fn emote_map_insert_then_get() {
    let mut m = EmoteMap::new();
    assert_eq!(m.insert("Kappa".to_string(), "25".to_string()), None);
    assert_eq!(m.get(&"Kappa".to_string()), Some(&"25".to_string()));
    assert_eq!(m.get(&"PogChamp".to_string()), None);
}

#[test]
fn emote_map_insert_replaces() {
    let mut m = EmoteMap::new();
    m.insert("Kappa".to_string(), "25".to_string());
    m.insert("Lul".to_string(), "9".to_string());
    assert_eq!(m.insert("Kappa".to_string(), "26".to_string()), Some("25".to_string()));
    assert_eq!(m.get(&"Kappa".to_string()), Some(&"26".to_string()));
    assert_eq!(m.get(&"Lul".to_string()), Some(&"9".to_string()));
    assert_eq!(m.pairs().len(), 2);
}
