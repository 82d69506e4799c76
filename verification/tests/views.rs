//! What the views share: the harness, extensions, memory and menus.

use okena_workspace::collections::IdMap;
use okena_workspace::extensions_state::{
    ApiExtension, ClientExtension, ExtensionConnection, ExtensionsState, extension_key, split_key,
};
use okena_workspace::harness_state::{HarnessSection, HarnessState};
use okena_workspace::process_memory::{ApiProcessMemory, ProcessMemory, format_memory};
use okena_workspace::requests::TerminalMenuInvocation;
use okena_workspace::state::WindowId;

fn with(section: HarnessSection) -> HarnessState {
    let mut state = HarnessState::new();
    state.set(WindowId::Main, Some(section));
    state
}

#[test]
fn reselecting_the_same_view_is_not_a_change() {
    let state = with(HarnessSection::Tasks);
    assert!(!state.is_change(WindowId::Main, Some(HarnessSection::Tasks)));
}

#[test]
fn switching_views_is_a_change() {
    let state = with(HarnessSection::Tasks);
    assert!(state.is_change(WindowId::Main, Some(HarnessSection::Specs)));
}

#[test]
fn clearing_from_active_is_a_change() {
    let state = with(HarnessSection::Specs);
    assert!(state.is_change(WindowId::Main, None));
    assert!(!HarnessState::new().is_change(WindowId::Main, None));
}

#[test]
fn leaving_an_extension_view_is_a_change() {
    let mut state = HarnessState::new();
    state.set_extension(WindowId::Main, Some("local/x".to_string()));
    assert!(state.is_change(WindowId::Main, None));
}

#[test]
fn windows_are_independent() {
    let state = with(HarnessSection::Tasks);
    let other = WindowId::Extra(0);
    assert_eq!(state.active(WindowId::Main), Some(HarnessSection::Tasks));
    assert_eq!(state.active(other), None);
}

#[test]
fn a_window_shows_one_view_at_a_time() {
    let mut state = with(HarnessSection::Agents);
    assert!(state.set_extension(WindowId::Main, Some("local/x".to_string())));
    assert_eq!(state.active(WindowId::Main), None);
    assert_eq!(state.active_extension(WindowId::Main), Some("local/x"));
    assert!(!state.set_extension(WindowId::Main, Some("local/x".to_string())));
    assert!(state.set(WindowId::Main, Some(HarnessSection::Specs)));
    assert_eq!(state.active_extension(WindowId::Main), None);
    assert_eq!(state.active(WindowId::Main), Some(HarnessSection::Specs));
    assert!(!state.set_extension(WindowId::Main, None));
    assert!(state.set(WindowId::Main, None));
    assert!(!state.set(WindowId::Main, None));
}

#[test]
fn keys_split_back_into_connection_and_extension() {
    assert_eq!(
        split_key("local-daemon/cli-table"),
        Some(("local-daemon", "cli-table"))
    );
    assert_eq!(split_key("nope"), None);
    let key = extension_key("box/2", "x");
    assert_eq!(key, "box/2/x");
    assert_eq!(split_key(&key), Some(("box/2", "x")));
}

fn extension(connection: &str, id: &str, enabled: bool, view: Option<&str>) -> ClientExtension {
    ClientExtension {
        connection_id: connection.to_string(),
        connection_name: connection.to_string(),
        local: connection == "local",
        ext: ApiExtension {
            id: id.to_string(),
            enabled,
            view_title: view.map(|v| v.to_string()),
            rest: format!("{{\"name\":\"{id}\"}}"),
        },
    }
}

#[test]
fn extensions_are_found_by_their_keys() {
    let mut state = ExtensionsState::new();
    let list = vec![
        extension("local", "a", true, Some("A")),
        extension("box", "a", true, None),
        extension("box", "b", false, Some("B")),
    ];
    assert!(state.replace(list.clone()));
    assert!(!state.replace(list));
    assert_eq!(state.list().len(), 3);
    assert_eq!(state.get("box/a").map(|e| e.connection_id.clone()), Some("box".to_string()));
    assert!(state.get("box/c").is_none());
    let shown = state.with_views();
    assert_eq!(shown.len(), 1);
    assert_eq!(shown[0].key(), "local/a");
    assert!(state.replace(vec![extension("local", "a", true, None)]));
    assert!(state.with_views().is_empty());

    let mut updated = extension("local", "a", true, None);
    updated.ext.rest = r#"{"name":"a","version":"2"}"#.to_string();
    assert!(state.replace(vec![updated.clone()]));
    assert!(!state.replace(vec![updated]));
    let kept = state.get("local/a").map(|e| e.ext.rest.clone());
    assert_eq!(kept.as_deref(), Some(r#"{"name":"a","version":"2"}"#));
}

#[test]
fn this_machines_connections_come_first() {
    let connection = |id: &str, local: bool, client: Option<&str>| ExtensionConnection {
        id: id.to_string(),
        name: id.to_string(),
        local,
        client: client.map(|c| c.to_string()),
    };
    let mut state = ExtensionsState::default();
    state.set_connections(vec![
        connection("box", false, Some("t1")),
        connection("mac", false, None),
        connection("local", true, Some("t2")),
    ]);
    let ids: Vec<&str> = state.connections().iter().map(|c| c.id.as_str()).collect();
    assert_eq!(ids, ["local", "box", "mac"]);
    assert_eq!(state.client("box"), Some("t1".to_string()));
    assert_eq!(state.client("mac"), None);
    assert_eq!(state.client("gone"), None);
}

const MB: u64 = 1024 * 1024;

fn memory(projects: &[(&str, u64)]) -> ApiProcessMemory {
    let mut map: IdMap<u64> = IdMap::new();
    for (id, b) in projects {
        map.insert(id.to_string(), *b);
    }
    ApiProcessMemory {
        daemon_bytes: 1,
        terminals_bytes: 2,
        projects: map,
    }
}

#[test]
fn formats_megabytes_then_gigabytes() {
    assert_eq!(format_memory(0), "0 MB");
    assert_eq!(format_memory(412 * MB + 100), "412 MB");
    assert_eq!(format_memory(1023 * MB), "1023 MB");
    assert_eq!(format_memory(1024 * MB), "1.0 GB");
    assert_eq!(format_memory(1536 * MB), "1.5 GB");
}

#[test]
fn memory_is_rounded_as_numbers_are_printed() {
    for bytes in [
        MB / 2,
        MB / 2 - 1,
        1024 * MB - MB / 2,
        1280 * MB,
        1792 * MB,
        1279 * MB,
        123456 * MB + 77,
        10 * 1024 * MB,
    ] {
        let mb = (bytes + MB / 2) / MB;
        let text = if mb < 1024 {
            format!("{mb} MB")
        } else {
            format!("{:.1} GB", bytes as f64 / (1024.0 * MB as f64))
        };
        assert_eq!(format_memory(bytes), text);
    }
}

#[test]
fn a_project_is_found_under_its_own_connection() {
    let mut m = ProcessMemory::default();
    m.set("local", Some(memory(&[("p1", 5 * MB)])));
    m.set("box:2", Some(memory(&[("p1", 7 * MB)])));
    assert_eq!(m.project("remote:local:p1"), Some(5 * MB));
    assert_eq!(m.project("remote:box:2:p1"), Some(7 * MB));
    assert_eq!(m.project("remote:local:p2"), None, "nothing running in it");
    assert_eq!(m.project("p1"), None, "not a client id");
    assert_eq!(
        m.project("remote:loc:p1"),
        None,
        "a connection id prefix is not a match"
    );
    assert_eq!(m.connection("local").map(|m| m.daemon_bytes), Some(1));
    assert!(m.connection("gone").is_none());
}

#[test]
fn only_a_shown_change_counts() {
    let mut m = ProcessMemory::default();
    assert!(m.set("local", Some(memory(&[("p1", 5 * MB)]))));
    assert!(
        !m.set("local", Some(memory(&[("p1", 5 * MB + 1000)]))),
        "same MB"
    );
    assert!(m.set("local", Some(memory(&[("p1", 9 * MB)]))));
    assert!(m.set("local", Some(memory(&[]))), "the agent stopped");
    assert!(!m.set("local", None), "nothing shown before or after");
}

#[test]
fn menus_know_where_they_were_opened() {
    let content = TerminalMenuInvocation::Content {
        has_selection: true,
        link_url: None,
    };
    assert!(content.includes_content_actions());
    assert!(content.includes_primary_actions());
    let header = TerminalMenuInvocation::Header {
        include_primary_actions: false,
    };
    assert!(!header.includes_content_actions());
    assert!(!header.includes_primary_actions());
    let header = TerminalMenuInvocation::Header {
        include_primary_actions: true,
    };
    assert!(header.includes_primary_actions());
}
