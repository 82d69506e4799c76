//! Loading and saving without losing the file, and the instance lock.

use okena_workspace::collections::IdMap;
use okena_workspace::layout::ShellType;
use okena_workspace::persistence::instance_lock::{
    instance_lock_held_message, instance_lock_identity, instance_lock_pid,
};
use okena_workspace::persistence::legacy::WORKSPACE_VERSION;
use okena_workspace::persistence::load::{
    LoadAction, LoadOutcome, LoadReply, SaveGate, WorkspaceFile, WorkspaceLoad, default_workspace,
    default_workspace_with, present_workspace_json,
};
use okena_workspace::persistence::worktrees::DiskFacts;
use okena_workspace::state::{WorkspaceData, WorktreeMetadata, new_project_row};
use okena_workspace::wsl::WslFacts;

#[test]
fn instance_lock_pid_accepts_legacy_and_owned_formats() {
    assert_eq!(instance_lock_pid("1234"), Some(1234));
    assert_eq!(instance_lock_pid("1234:owner-token"), Some(1234));
    assert_eq!(instance_lock_pid("invalid"), None);
}

#[test]
fn process_numbers_are_read_as_numbers_are() {
    for s in [
        "", "+", "+7", "-7", "++7", "0", "007", "4294967295", "4294967296", "99999999999999999999",
        " 12\n", "12 :x", "1 2", ":5", "7:8:9", "\u{a0}3\u{2003}", "1٣", "+007:z",
    ] {
        let expected: Option<u32> = s.trim().split(':').next().and_then(|p| p.parse().ok());
        assert_eq!(instance_lock_pid(s), expected, "{s:?}");
    }
}

#[test]
fn a_lock_names_its_owner() {
    let identity = instance_lock_identity(4294967295, "some token ");
    assert_eq!(identity, "4294967295:some token ");
    assert_eq!(instance_lock_pid(&identity), Some(4294967295));
    assert_eq!(instance_lock_pid(&instance_lock_identity(0, "")), Some(0));
    assert_eq!(
        instance_lock_held_message("17:x", "busy", "\"/tmp/okena.lock\""),
        "Another Okena instance is already running (PID 17): busy. If this is incorrect, delete \
         \"/tmp/okena.lock\" and try again."
    );
    assert!(
        instance_lock_held_message("", "busy", "f")
            .starts_with("Another Okena instance is already running (another process): busy.")
    );
}

fn facts() -> DiskFacts {
    DiskFacts {
        existing: Vec::new(),
        complete: Vec::new(),
        registries: IdMap::new(),
        wsl: WslFacts::none(),
    }
}

fn load() -> WorkspaceLoad {
    WorkspaceLoad::new(SaveGate::new(), true, ShellType::Default)
}

fn asks(load: &WorkspaceLoad, file: WorkspaceFile) {
    match load.action() {
        LoadAction::Exists(f) => assert_eq!(f, file),
        other => panic!("{other:?}"),
    }
}

fn copies(load: &WorkspaceLoad, source: WorkspaceFile, target: WorkspaceFile) {
    match load.action() {
        LoadAction::Copy { from, to } => {
            assert_eq!(from, source);
            assert_eq!(to, target);
        }
        other => panic!("{other:?}"),
    }
}

#[test]
fn a_suppressed_save_fails_instead_of_reporting_durable_success() {
    let failed = load()
        .advance(LoadReply::Found(true))
        .advance(LoadReply::Content(Err("permission denied".to_string())));
    let mut gate = failed.save_gate();
    let error = gate
        .ensure_workspace_save_allowed()
        .expect_err("a blocked save must not report success");
    assert!(error.contains("workspace not saved"));
    assert!(gate.workspace_save_suppressed());

    assert!(gate.clear_workspace_save_suppression());
    assert!(!gate.workspace_save_suppressed());
    assert!(!gate.clear_workspace_save_suppression());
    assert_eq!(gate.ensure_workspace_save_allowed(), Ok(()));
}

#[test]
fn a_good_file_is_loaded_and_cleaned_up() {
    let started = load();
    asks(&started, WorkspaceFile::Workspace);
    let reading = started.advance(LoadReply::Found(true));
    assert!(matches!(reading.action(), LoadAction::ReadWorkspace));
    let parsing = reading.advance(LoadReply::Content(Ok(
        r#"{"version":1,"project_widths":{"p":1.0}}"#.to_string(),
    )));
    match parsing.action() {
        LoadAction::Parse(text) => {
            let v: serde_json::Value = serde_json::from_str(&text).unwrap();
            assert_eq!(v["main_window"]["project_widths"]["p"].as_f64(), Some(1.0));
        }
        other => panic!("{other:?}"),
    }
    let mut data = WorkspaceData::empty();
    data.version = 0;
    let mut stale = new_project_row(
        "wt".to_string(),
        "W".to_string(),
        "/gone".to_string(),
        None,
        None,
    );
    stale.worktree_info = Some(WorktreeMetadata {
        parent_project_id: "p".to_string(),
        color_override: None,
        main_repo_path: "/repo".to_string(),
        worktree_path: "/gone".to_string(),
        branch_name: String::new(),
    });
    stale
        .hook_terminals
        .insert("h".to_string(), okena_workspace::state::HookTerminalEntry {
            label: "hook".to_string(),
            status: okena_workspace::state::HookTerminalStatus::Succeeded,
            hook_type: "on_project_open".to_string(),
            command: "true".to_string(),
            cwd: "/gone".to_string(),
            finished_at: None,
        });
    data.projects.push(stale);
    let surveying = parsing.advance(LoadReply::Parsed(Ok(data)));
    assert!(matches!(surveying.action(), LoadAction::Survey));
    assert_eq!(surveying.surveyed().map(|d| d.projects.len()), Some(1));
    let over = surveying.advance(LoadReply::Surveyed(facts()));
    assert!(matches!(over.action(), LoadAction::Nothing));
    assert!(!over.save_gate().workspace_save_suppressed());
    match over.outcome() {
        Some(LoadOutcome::Loaded(l)) => {
            assert_eq!(l.data.version, WORKSPACE_VERSION);
            assert!(l.data.projects.is_empty());
            assert!(l.data.project_order.is_empty());
            assert_eq!(l.stale_terminal_ids.len(), 1);
            assert_eq!(l.stale_terminal_ids[0].terminal_id, "h");
        }
        other => panic!("{other:?}"),
    }
}

#[test]
fn what_cannot_be_parsed_is_kept_without_touching_a_backup() {
    let broken = || {
        load()
            .advance(LoadReply::Found(true))
            .advance(LoadReply::Content(Ok("{".to_string())))
            .advance(LoadReply::Parsed(Err("bad".to_string())))
    };
    let asking = broken();
    asks(&asking, WorkspaceFile::Backup);
    let beside = asking.advance(LoadReply::Found(true));
    copies(&beside, WorkspaceFile::Workspace, WorkspaceFile::Corrupt);
    let first = broken().advance(LoadReply::Found(false));
    copies(&first, WorkspaceFile::Workspace, WorkspaceFile::Backup);
    let over = first.advance(LoadReply::Copied);
    assert!(over.save_gate().workspace_save_suppressed());
    match over.outcome() {
        Some(LoadOutcome::Failed(e)) => assert_eq!(e, "bad"),
        other => panic!("{other:?}"),
    }
}

#[test]
fn a_missing_file_comes_back_from_its_backup() {
    let looking = load().advance(LoadReply::Found(false));
    asks(&looking, WorkspaceFile::Backup);
    let restoring = looking.advance(LoadReply::Found(true));
    copies(&restoring, WorkspaceFile::Backup, WorkspaceFile::Workspace);
    let again = restoring.advance(LoadReply::Copied);
    asks(&again, WorkspaceFile::Workspace);
    let reading = again.advance(LoadReply::Found(true));
    assert!(matches!(reading.action(), LoadAction::ReadWorkspace));
}

#[test]
fn nothing_to_load_blocks_saving_only_where_a_backup_is_left() {
    let lost = load()
        .advance(LoadReply::Found(false))
        .advance(LoadReply::Found(true))
        .advance(LoadReply::Copied)
        .advance(LoadReply::Found(false));
    asks(&lost, WorkspaceFile::Backup);
    let over = lost.advance(LoadReply::Found(true));
    assert!(over.save_gate().workspace_save_suppressed());
    assert!(matches!(over.outcome(), Some(LoadOutcome::Fresh)));

    let fresh = load()
        .advance(LoadReply::Found(false))
        .advance(LoadReply::Found(false))
        .advance(LoadReply::Found(false))
        .advance(LoadReply::Found(false));
    assert!(!fresh.save_gate().workspace_save_suppressed());
    assert!(matches!(fresh.outcome(), Some(LoadOutcome::Fresh)));
}

#[test]
fn replies_that_nobody_waits_for_change_nothing() {
    let started = load().advance(LoadReply::Copied);
    asks(&started, WorkspaceFile::Workspace);
    assert!(started.outcome().is_none());
}

#[test]
fn text_that_cannot_be_read_is_handed_on_as_it_is() {
    assert_eq!(present_workspace_json("{".to_string()), "{");
}

#[test]
fn the_first_workspace_has_one_project_at_home() {
    let data = default_workspace();
    assert_eq!(data.version, WORKSPACE_VERSION);
    assert_eq!(data.projects.len(), 1);
    assert_eq!(data.project_order, [data.projects[0].id.clone()]);
    assert_eq!(data.projects[0].id.len(), 36);
    assert_eq!(data.projects[0].name, "Default");
    let home = dirs::home_dir()
        .map(|p| p.to_string_lossy().to_string())
        .unwrap_or_else(|| "/".to_string());
    assert_eq!(data.projects[0].path, home);
    assert!(data.projects[0].layout.is_some());

    let other = default_workspace();
    assert_ne!(data.projects[0].id, other.projects[0].id);
    assert_ne!(data.main_window.id, other.main_window.id);

    let nowhere = default_workspace_with("p".to_string(), None, 7);
    assert_eq!(nowhere.projects[0].path, "/");
    assert_eq!(nowhere.main_window.id, 7);
}
