//! Reading files that older versions wrote.

use okena_workspace::layout::LayoutNode;
use okena_workspace::persistence::legacy::{
    LegacyJsonError, WORKSPACE_VERSION, migrate_legacy_json, migrate_workspace,
};
use okena_workspace::persistence::validate::validate_workspace_data;
use okena_workspace::state::{
    FolderColor, FolderData, WorkspaceData, new_project_row,
};
use serde_json::Value;
use okena_workspace::wsl::WslFacts;

fn text(v: &Value, key: &str) -> String {
    v[key].as_str().unwrap_or_default().to_string()
}

fn hundredths(v: &Value) -> u32 {
    (v.as_f64().unwrap() * 100.0) as u32
}

fn items(v: &Value) -> Vec<Value> {
    v.as_array().cloned().unwrap_or_default()
}

/// What the file's text stands for, as far as these tests look.
fn parse(json: &str) -> WorkspaceData {
    let v: Value = serde_json::from_str(json).expect("typed parse succeeds");
    read(&v)
}

fn read(v: &Value) -> WorkspaceData {
    let mut data = WorkspaceData::empty();
    data.version = v["version"].as_u64().unwrap_or(0) as u32;
    for p in items(&v["projects"]) {
        let layout: Option<LayoutNode> = None;
        data.projects.push(new_project_row(
            text(&p, "id"),
            text(&p, "name"),
            text(&p, "path"),
            layout,
            None,
        ));
    }
    for id in items(&v["project_order"]) {
        data.project_order.push(id.as_str().unwrap().to_string());
    }
    for f in items(&v["folders"]) {
        data.folders.push(FolderData {
            id: text(&f, "id"),
            name: text(&f, "name"),
            project_ids: items(&f["project_ids"])
                .iter()
                .map(|p| p.as_str().unwrap().to_string())
                .collect(),
            folder_color: FolderColor::Default,
        });
    }
    let w = &v["main_window"];
    for id in items(&w["hidden_project_ids"]) {
        data.main_window
            .hidden_project_ids
            .insert(id.as_str().unwrap());
    }
    if let Some(widths) = w["project_widths"].as_object() {
        for (id, width) in widths {
            data.main_window
                .project_widths
                .insert(id.clone(), hundredths(width));
        }
    }
    if let Some(collapsed) = w["folder_collapsed"].as_object() {
        for (id, c) in collapsed {
            data.main_window
                .folder_collapsed
                .insert(id.clone(), c.as_bool().unwrap());
        }
    }
    data
}

fn migrate(json: &str) -> String {
    migrate_legacy_json(json).expect("migrate_legacy_json must succeed")
}

#[test]
fn legacy_v1_folder_collapsed_folds_into_main_window() {
    let json = r#"{
        "version": 1,
        "projects": [],
        "project_order": [],
        "folders": [
            {
                "id": "f1",
                "name": "F",
                "project_ids": [],
                "collapsed": true
            }
        ]
    }"#;
    let migrated = migrate_workspace(parse(&migrate(json)));
    assert_eq!(migrated.version, WORKSPACE_VERSION);
    assert_eq!(
        migrated.main_window.folder_collapsed.get("f1").copied(),
        Some(true),
    );
}

#[test]
fn legacy_v1_show_in_overview_folds_into_main_window() {
    let json = r#"{
        "version": 1,
        "projects": [
            {
                "id": "p1",
                "name": "Hidden",
                "path": "/tmp",
                "layout": null,
                "show_in_overview": false
            }
        ],
        "project_order": ["p1"]
    }"#;
    let migrated = migrate_workspace(parse(&migrate(json)));
    assert_eq!(migrated.version, WORKSPACE_VERSION);
    assert!(migrated.main_window.hidden_project_ids.contains("p1"));
}

#[test]
fn legacy_v1_is_visible_alias_folds_into_main_window() {
    let json = r#"{
        "version": 1,
        "projects": [
            {
                "id": "p1",
                "name": "Hidden",
                "path": "/tmp",
                "layout": null,
                "is_visible": false
            }
        ],
        "project_order": ["p1"]
    }"#;
    let migrated = migrate_workspace(parse(&migrate(json)));
    assert_eq!(migrated.version, WORKSPACE_VERSION);
    assert!(migrated.main_window.hidden_project_ids.contains("p1"));
}

#[test]
fn legacy_v1_top_level_project_widths_folds_into_main_window() {
    let json = r#"{
        "version": 1,
        "projects": [],
        "project_order": [],
        "project_widths": {"p1": 60.0, "p2": 40.0}
    }"#;
    let migrated = migrate_workspace(parse(&migrate(json)));
    assert_eq!(migrated.version, WORKSPACE_VERSION);
    assert_eq!(
        migrated.main_window.project_widths.get("p1").copied(),
        Some(6000)
    );
    assert_eq!(
        migrated.main_window.project_widths.get("p2").copied(),
        Some(4000)
    );
}

#[test]
fn legacy_exported_workspace_folds_nested_workspace_fields() {
    let json = r#"{
        "version": 1,
        "exported_at": "2026-05-12T00:00:00Z",
        "workspace": {
            "version": 1,
            "projects": [
                {
                    "id": "p1",
                    "name": "Hidden",
                    "path": "/tmp",
                    "layout": null,
                    "show_in_overview": false
                }
            ],
            "project_order": ["p1"],
            "folders": [
                {
                    "id": "f1",
                    "name": "F",
                    "project_ids": ["p1"],
                    "collapsed": true
                }
            ],
            "project_widths": {"p1": 60.0}
        }
    }"#;
    let exported: Value = serde_json::from_str(&migrate(json)).unwrap();
    assert_eq!(text(&exported, "exported_at"), "2026-05-12T00:00:00Z");
    let migrated = migrate_workspace(read(&exported["workspace"]));

    assert_eq!(migrated.version, WORKSPACE_VERSION);
    assert!(migrated.main_window.hidden_project_ids.contains("p1"));
    assert_eq!(
        migrated.main_window.folder_collapsed.get("f1").copied(),
        Some(true)
    );
    assert_eq!(
        migrated.main_window.project_widths.get("p1").copied(),
        Some(6000)
    );
}

#[test]
fn legacy_v1_full_pipeline_migrates_all_fields_into_main_window() {
    let legacy_json = r#"{
        "version": 1,
        "projects": [
            {
                "id": "visible",
                "name": "Visible",
                "path": "/tmp/visible",
                "layout": null
            },
            {
                "id": "hidden_show_in_overview",
                "name": "Hidden via show_in_overview",
                "path": "/tmp/hidden1",
                "layout": null,
                "show_in_overview": false
            },
            {
                "id": "hidden_is_visible",
                "name": "Hidden via is_visible alias",
                "path": "/tmp/hidden2",
                "layout": null,
                "is_visible": false
            }
        ],
        "project_order": ["folder1", "visible", "hidden_show_in_overview", "hidden_is_visible"],
        "folders": [
            {
                "id": "folder1",
                "name": "Group",
                "project_ids": [],
                "collapsed": true
            },
            {
                "id": "folder2",
                "name": "Expanded",
                "project_ids": []
            }
        ],
        "project_widths": {
            "visible": 60.0,
            "hidden_show_in_overview": 40.0
        }
    }"#;

    let migrated_json = migrate(legacy_json);
    let mut data = migrate_workspace(parse(&migrated_json));
    validate_workspace_data(&mut data, false, &WslFacts::none());

    assert_eq!(data.version, WORKSPACE_VERSION);
    let main = &data.main_window;
    assert!(main.hidden_project_ids.contains("hidden_show_in_overview"));
    assert!(main.hidden_project_ids.contains("hidden_is_visible"));
    assert!(!main.hidden_project_ids.contains("visible"));
    assert_eq!(main.folder_collapsed.get("folder1").copied(), Some(true));
    assert!(!main.folder_collapsed.contains_key("folder2"));
    assert_eq!(main.project_widths.get("visible").copied(), Some(6000));
    assert_eq!(
        main.project_widths.get("hidden_show_in_overview").copied(),
        Some(4000),
    );
    assert!(data.extra_windows.is_empty());

    let value: Value = serde_json::from_str(&migrated_json).unwrap();
    let obj = value.as_object().unwrap();
    assert!(!obj.contains_key("project_widths"));
    for p in items(&value["projects"]) {
        let po = p.as_object().unwrap();
        assert!(!po.contains_key("show_in_overview"));
        assert!(!po.contains_key("is_visible"));
    }
    for f in items(&value["folders"]) {
        assert!(!f.as_object().unwrap().contains_key("collapsed"));
    }
}

#[test]
fn legacy_v1_migration_is_idempotent_across_save_reload() {
    let legacy_json = r#"{
        "version": 1,
        "projects": [
            { "id": "visible", "name": "Visible", "path": "/tmp/visible", "layout": null },
            { "id": "hidden", "name": "Hidden", "path": "/tmp/hidden", "layout": null, "show_in_overview": false }
        ],
        "project_order": ["folder1", "visible", "hidden"],
        "folders": [
            { "id": "folder1", "name": "Group", "project_ids": [], "collapsed": true }
        ],
        "project_widths": { "visible": 60.0, "hidden": 40.0 }
    }"#;
    let once = migrate(legacy_json);
    let twice = migrate(&once);
    let a: Value = serde_json::from_str(&once).unwrap();
    let b: Value = serde_json::from_str(&twice).unwrap();
    assert_eq!(a, b);

    let load = |json: &str| {
        let mut data = migrate_workspace(parse(json));
        validate_workspace_data(&mut data, false, &WslFacts::none());
        data
    };
    let first = load(&once);
    let second = load(&twice);
    assert_eq!(first.version, WORKSPACE_VERSION);
    assert_eq!(second.version, WORKSPACE_VERSION);
    assert_eq!(
        first.main_window.hidden_project_ids.members(),
        second.main_window.hidden_project_ids.members()
    );
    let (a, b) = (&first.main_window, &second.main_window);
    assert_eq!(a.project_widths.keys(), b.project_widths.keys());
    assert_eq!(a.folder_collapsed.keys(), b.folder_collapsed.keys());
    for id in ["visible", "hidden"] {
        assert_eq!(a.project_widths.get(id), b.project_widths.get(id));
    }
    assert_eq!(a.folder_collapsed.get("folder1"), b.folder_collapsed.get("folder1"));
    assert_eq!(a.project_widths.get("hidden"), Some(&4000));
    assert_eq!(a.folder_collapsed.get("folder1"), Some(&true));
    assert_eq!(a.folder_filter, b.folder_filter);
    let ids = |data: &WorkspaceData| {
        data.projects.iter().map(|p| p.id.clone()).collect::<Vec<_>>()
    };
    assert_eq!(ids(&first), ids(&second));
    assert_eq!(first.project_order, second.project_order);
    assert_eq!(first.folders.len(), second.folders.len());
}

#[test]
fn present_files_and_other_values_are_left_alone() {
    let present = r#"{"version":2,"project_widths":{"p1":60.0}}"#;
    let value: Value = serde_json::from_str(&migrate(present)).unwrap();
    assert!(value.as_object().unwrap().contains_key("project_widths"));
    assert_eq!(migrate("[1,true,null]"), "[1,true,null]");
    assert_eq!(
        migrate_legacy_json("{").err(),
        Some(LegacyJsonError::Unreadable)
    );
}

#[test]
fn what_the_window_has_already_is_kept() {
    let json = r#"{
        "version": 1,
        "projects": [
            { "id": "a", "show_in_overview": true },
            { "id": "b", "show_in_overview": false },
            { "id": "c", "is_visible": "no" },
            { "show_in_overview": false },
            7
        ],
        "folders": [ { "id": "f", "collapsed": false }, { "id": "g", "collapsed": true } ],
        "project_widths": { "a": 1.0 },
        "main_window": {
            "hidden_project_ids": ["b", "z"],
            "project_widths": { "a": 2.0 },
            "folder_collapsed": { "f": false }
        }
    }"#;
    let value: Value = serde_json::from_str(&migrate(json)).unwrap();
    let w = &value["main_window"];
    let hidden: Vec<String> = items(&w["hidden_project_ids"])
        .iter()
        .map(|v| v.as_str().unwrap().to_string())
        .collect();
    assert_eq!(hidden, ["b", "z", "b"]);
    assert_eq!(w["project_widths"]["a"].as_f64(), Some(2.0));
    assert_eq!(w["folder_collapsed"]["f"].as_bool(), Some(false));
    assert_eq!(w["folder_collapsed"]["g"].as_bool(), Some(true));
}
