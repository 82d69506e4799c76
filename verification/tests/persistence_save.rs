//! Saving the workspace file.

use okena_workspace::layout::ShellType;
use okena_workspace::persistence::load::{LoadReply, SaveGate, WorkspaceLoad};
use okena_workspace::persistence::save::{SaveAction, SaveReply, WorkspaceSave, saved_projects};
use okena_workspace::state::{WorkspaceData, new_project_row};

fn blocked() -> SaveGate {
    let load = WorkspaceLoad::new(SaveGate::new(), false, ShellType::Default)
        .advance(LoadReply::Found(true))
        .advance(LoadReply::Content(Err("denied".to_string())));
    load.save_gate()
}

/// Runs a save in which `failing` fails, with a workspace file there or not.
fn run(gate: SaveGate, found: bool, failing: Option<SaveAction>) -> (Vec<SaveAction>, Option<String>) {
    let mut save = WorkspaceSave::new(&gate);
    let mut done = Vec::new();
    loop {
        let action = save.action();
        let reply = match action {
            SaveAction::Nothing => break,
            SaveAction::Look => SaveReply::Found(found),
            _ if Some(action) == failing => SaveReply::Done(Err("full".to_string())),
            _ => SaveReply::Done(Ok(())),
        };
        done.push(action);
        save = save.advance(reply);
    }
    (done, save.outcome().unwrap().err())
}

#[test]
fn a_save_keeps_the_last_workspace_as_its_backup() {
    let (done, error) = run(SaveGate::new(), true, None);
    assert_eq!(
        done,
        vec![
            SaveAction::MakeDirectory,
            SaveAction::Encode,
            SaveAction::Look,
            SaveAction::MoveAside,
            SaveAction::Write,
            SaveAction::Publish
        ]
    );
    assert!(error.is_none());
}

#[test]
fn a_first_save_has_nothing_to_back_up() {
    let (done, error) = run(SaveGate::new(), false, None);
    assert!(!done.contains(&SaveAction::MoveAside));
    assert!(error.is_none());
}

#[test]
fn a_backup_that_cannot_be_made_does_not_stop_the_save() {
    let (done, error) = run(SaveGate::new(), true, Some(SaveAction::MoveAside));
    assert_eq!(done.last(), Some(&SaveAction::Publish));
    assert!(error.is_none());
}

#[test]
fn other_failures_stop_the_save() {
    for step in [
        SaveAction::MakeDirectory,
        SaveAction::Encode,
        SaveAction::Write,
        SaveAction::Publish,
    ] {
        let (done, error) = run(SaveGate::new(), true, Some(step));
        assert_eq!(done.last(), Some(&step));
        assert_eq!(error.as_deref(), Some("full"));
    }
}

#[test]
fn a_blocked_save_touches_nothing() {
    let (done, error) = run(blocked(), true, None);
    assert!(done.is_empty());
    assert!(error.unwrap().starts_with("workspace not saved"));
}

#[test]
fn projects_of_other_daemons_are_not_saved() {
    let row = |id: &str, conn: Option<&str>| {
        let mut p = new_project_row(
            id.to_string(),
            id.to_string(),
            format!("/{id}"),
            None,
            None,
        );
        p.connection_id = conn.map(|c| c.to_string());
        p
    };
    let mut data = WorkspaceData::empty();
    data.projects = vec![row("a", None), row("remote:c:b", Some("c")), row("d", None)];
    let ids: Vec<&str> = saved_projects(&data).iter().map(|p| p.id.as_str()).collect();
    assert_eq!(ids, vec!["a", "d"]);
}
