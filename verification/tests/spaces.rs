//! Spaces, and what the selector draws of them.

use okena_workspace::layout::LayoutNode;
use okena_workspace::settings::{AppSettings, SpaceData, TaskScope};
use okena_workspace::spaces::{
    activate, activate_nth, contents, create, mint_space_id, refuse_removing_connection, remove,
    rename, set_connection, set_task_scope, spaces_using_connection, step,
};
use okena_workspace::spaces_state::SpacesState;
use okena_workspace::state::{ProjectData, WorkspaceData, new_project_row};

const DEFAULT_SPACE_ID: &str = "default";

fn settings() -> AppSettings {
    let mut s = AppSettings::default();
    s.ensure_spaces();
    s
}

fn project(id: &str, name: &str, space: &str) -> ProjectData {
    let layout: Option<LayoutNode> = None;
    let mut p = new_project_row(
        id.to_string(),
        name.to_string(),
        format!("/tmp/{id}"),
        layout,
        None,
    );
    p.space_id = space.to_string();
    p
}

fn agent(id: &str, name: &str, space: &str) -> ProjectData {
    let mut p = project(id, name, space);
    p.session.task_ref = Some("linear/t1".to_string());
    p
}

fn scope(groups: &[&str], statuses: &[&str]) -> TaskScope {
    TaskScope {
        groups: groups.iter().map(|g| g.to_string()).collect(),
        statuses: statuses.iter().map(|g| g.to_string()).collect(),
    }
}

#[test]
fn a_new_space_is_appended_after_default_with_no_roots() {
    let mut s = settings();
    let space = create(&mut s, "  Client A  ", None, TaskScope::default()).expect("created");
    assert_eq!(space.name, "Client A");
    assert_eq!(space.id, "client-a");
    assert_eq!(s.spaces.len(), 2);
    assert_eq!(s.spaces[0].id, DEFAULT_SPACE_ID);
    assert_eq!(s.space_position("client-a"), Some(2));
    assert!(space.specs.folders.is_empty());
    assert_eq!(s.active_space, DEFAULT_SPACE_ID);
}

#[test]
fn a_space_needs_a_name() {
    let mut s = settings();
    assert!(create(&mut s, "   ", None, TaskScope::default()).is_err());
    assert_eq!(s.spaces.len(), 1);
}

#[test]
fn a_new_space_can_reuse_a_connection_and_carry_filters() {
    let mut s = settings();
    let space = create(
        &mut s,
        "Client A",
        Some("linear".to_string()),
        scope(&["alpha"], &[]),
    )
    .expect("created");
    assert_eq!(space.connection.as_deref(), Some("linear"));
    assert_eq!(space.tasks.groups.len() + space.tasks.statuses.len(), 1);
    assert_eq!(s.spaces[0].connection.as_deref(), Some("linear"));
}

#[test]
fn default_can_be_neither_renamed_nor_deleted() {
    let mut s = settings();
    let renamed = rename(&mut s, DEFAULT_SPACE_ID, "Mine");
    assert_eq!(
        renamed,
        Err("The Default space cannot be renamed.".to_string())
    );
    assert_eq!(s.spaces[0].name, "Default");
    let deleted = remove(&mut s, DEFAULT_SPACE_ID);
    assert_eq!(
        deleted,
        Err("The Default space cannot be deleted.".to_string())
    );
    assert_eq!(s.spaces.len(), 1);
}

#[test]
fn any_other_space_can_be_renamed() {
    let mut s = settings();
    create(&mut s, "Client A", None, TaskScope::default()).expect("created");
    rename(&mut s, "client-a", "  Acme  ").expect("renamed");
    assert_eq!(s.space("client-a").map(|s| s.name.as_str()), Some("Acme"));
    assert!(s.space("acme").is_none());
    assert_eq!(
        rename(&mut s, "client-a", " "),
        Err("A space needs a name.".to_string())
    );
    assert_eq!(
        rename(&mut s, "nope", "X"),
        Err("No space called nope.".to_string())
    );
}

#[test]
fn deleting_the_space_you_are_in_falls_back_to_default() {
    let mut s = settings();
    create(&mut s, "Client A", None, TaskScope::default()).expect("created");
    activate(&mut s, "client-a").expect("activated");
    let active = remove(&mut s, "client-a").expect("removed");
    assert_eq!(active, DEFAULT_SPACE_ID);
    assert_eq!(s.active_space, DEFAULT_SPACE_ID);
    assert_eq!(s.spaces.len(), 1);
}

#[test]
fn deleting_a_space_you_are_not_in_leaves_you_where_you_are() {
    let mut s = settings();
    create(&mut s, "Client A", None, TaskScope::default()).expect("created");
    create(&mut s, "Client B", None, TaskScope::default()).expect("created");
    activate(&mut s, "client-b").expect("activated");
    remove(&mut s, "client-a").expect("removed");
    assert_eq!(s.active_space, "client-b");
}

#[test]
fn a_delete_names_the_projects_and_agents_it_will_remove() {
    let mut data = WorkspaceData::empty();
    data.projects.push(project("p1", "acme-web", "client-a"));
    data.projects.push(agent("a1", "QBL-1 login", "client-a"));
    data.projects.push(project("p2", "other", DEFAULT_SPACE_ID));

    let held = contents(&data, "client-a");
    assert_eq!(held.projects, ["acme-web"]);
    assert_eq!(held.agents, ["QBL-1 login"]);
    assert_eq!(held.project_ids, ["p1", "a1"]);
    assert!(!held.is_empty());
    assert!(contents(&data, DEFAULT_SPACE_ID).projects == ["other"]);
}

#[test]
fn an_empty_space_has_nothing_to_confirm() {
    let data = WorkspaceData::empty();
    assert!(contents(&data, "client-a").is_empty());
}

#[test]
fn a_closed_agent_still_counts_as_the_spaces_own() {
    let mut data = WorkspaceData::empty();
    let mut closed = agent("a1", "QBL-1 login", "client-a");
    closed.closed_at = Some(1);
    data.projects.push(closed);
    assert_eq!(contents(&data, "client-a").agents, ["QBL-1 login"]);
}

#[test]
fn a_connection_no_space_reads_can_be_forgotten() {
    let mut s = settings();
    assert_eq!(refuse_removing_connection(&s, "linear-2"), Ok(()));
    create(
        &mut s,
        "Client A",
        Some("linear-2".to_string()),
        TaskScope::default(),
    )
    .expect("created");
    assert_eq!(
        refuse_removing_connection(&s, "linear-2"),
        Err(
            "linear-2 is still used by Client A. Point it at another connection first."
                .to_string()
        )
    );
}

#[test]
fn removing_a_connection_in_use_names_every_space_using_it() {
    let mut s = settings();
    create(
        &mut s,
        "Client A",
        Some("linear-2".to_string()),
        TaskScope::default(),
    )
    .expect("created");
    create(
        &mut s,
        "Client B",
        Some("linear-2".to_string()),
        TaskScope::default(),
    )
    .expect("created");
    let message = refuse_removing_connection(&s, "linear-2").expect_err("refused");
    assert!(message.contains("Client A"), "{message}");
    assert!(message.contains("Client B"), "{message}");
    assert!(message.contains("them"), "{message}");
    assert_eq!(
        spaces_using_connection(&s, "linear-2"),
        ["Client A", "Client B"]
    );
}

#[test]
fn deleting_a_space_leaves_its_connection_alone() {
    let mut s = settings();
    create(
        &mut s,
        "Client A",
        Some("linear-2".to_string()),
        TaskScope::default(),
    )
    .expect("created");
    remove(&mut s, "client-a").expect("removed");
    assert!(spaces_using_connection(&s, "linear-2").is_empty());
    assert_eq!(s.spaces[0].connection.as_deref(), Some("linear"));
}

#[test]
fn several_spaces_can_share_one_connection() {
    let mut s = settings();
    create(
        &mut s,
        "Client A",
        Some("linear".to_string()),
        TaskScope::default(),
    )
    .expect("created");
    assert_eq!(
        spaces_using_connection(&s, "linear"),
        ["Default", "Client A"]
    );
}

#[test]
fn activating_the_space_already_showing_changes_nothing() {
    let mut s = settings();
    assert_eq!(activate(&mut s, DEFAULT_SPACE_ID), Ok(false));
    assert!(activate(&mut s, "nope").is_err());
}

#[test]
fn stepping_cycles_through_the_spaces_and_wraps() {
    let mut s = settings();
    create(&mut s, "A", None, TaskScope::default()).expect("created");
    create(&mut s, "B", None, TaskScope::default()).expect("created");

    assert_eq!(step(&mut s, 1), Ok(true));
    assert_eq!(s.active_space, "a");
    assert_eq!(step(&mut s, 1), Ok(true));
    assert_eq!(s.active_space, "b");
    assert_eq!(step(&mut s, 1), Ok(true));
    assert_eq!(s.active_space, DEFAULT_SPACE_ID, "wraps to the front");
    assert_eq!(step(&mut s, -1), Ok(true));
    assert_eq!(s.active_space, "b", "and backwards off the front");
}

#[test]
fn the_numbered_shortcuts_count_from_one_and_stop_at_the_end() {
    let mut s = settings();
    create(&mut s, "A", None, TaskScope::default()).expect("created");
    create(&mut s, "B", None, TaskScope::default()).expect("created");

    assert_eq!(activate_nth(&mut s, 3), Ok(true));
    assert_eq!(s.active_space, "b");
    assert_eq!(activate_nth(&mut s, 1), Ok(true));
    assert_eq!(s.active_space, DEFAULT_SPACE_ID);
    assert_eq!(activate_nth(&mut s, 9), Ok(false));
    assert_eq!(s.active_space, DEFAULT_SPACE_ID);
    assert_eq!(activate_nth(&mut s, 0), Ok(false));
}

#[test]
fn a_spaces_connection_and_filters_can_be_edited_at_any_time() {
    let mut s = settings();
    create(
        &mut s,
        "Client A",
        Some("linear".to_string()),
        TaskScope::default(),
    )
    .expect("created");
    set_connection(&mut s, "client-a", Some("linear-2".to_string())).expect("repointed");
    assert_eq!(
        s.space("client-a").and_then(|s| s.connection.as_deref()),
        Some("linear-2")
    );
    set_task_scope(&mut s, "client-a", scope(&[], &["In Review"])).expect("refiltered");
    assert_eq!(
        s.space("client-a")
            .map(|s| s.tasks.groups.len() + s.tasks.statuses.len()),
        Some(1)
    );
    set_connection(&mut s, "client-a", Some("  ".to_string())).expect("cleared");
    assert!(s.space("client-a").and_then(|s| s.connection.as_ref()).is_none());
    assert!(set_connection(&mut s, "nope", None).is_err());
    assert!(set_task_scope(&mut s, "nope", TaskScope::default()).is_err());
}

#[test]
fn a_second_space_of_the_same_name_gets_a_number() {
    let mut s = settings();
    create(&mut s, "Client A", None, TaskScope::default()).expect("created");
    let second = create(&mut s, "client a!", None, TaskScope::default()).expect("created");
    assert_eq!(second.id, "client-a-2");
    let third = create(&mut s, "CLIENT-A", None, TaskScope::default()).expect("created");
    assert_eq!(third.id, "client-a-3");
}

#[test]
fn ids_are_made_of_letters_and_digits() {
    let taken: Vec<String> = Vec::new();
    assert_eq!(mint_space_id("  Über 9000 // Zeta ", &taken), "ber-9000-zeta");
    assert_eq!(mint_space_id("…", &taken), "space");
}

fn state(ids: &[&str], active: &str) -> SpacesState {
    let mut s = SpacesState::new();
    s.set(
        ids.iter().map(|id| SpaceData::new(id, id)).collect(),
        active.to_string(),
    );
    s
}

#[test]
fn the_active_index_is_where_the_highlight_goes() {
    assert_eq!(state(&["default", "a", "b"], "b").active_index(), Some(2));
}

#[test]
fn an_unknown_active_space_highlights_nothing() {
    assert!(state(&["default"], "gone").active_index().is_none());
    assert!(SpacesState::new().active_index().is_none());
}

#[test]
fn observers_hear_of_a_real_change_only() {
    let mut s = state(&["default", "a"], "a");
    let same: Vec<SpaceData> = vec![
        SpaceData::new("default", "default"),
        SpaceData::new("a", "a"),
    ];
    assert!(!s.set(same, "a".to_string()));
    assert!(s.set(
        vec![SpaceData::new("default", "default")],
        "default".to_string()
    ));
    assert_eq!(s.active(), "default");
    assert_eq!(s.spaces().len(), 1);
}
