//! Closes that can be undone.

use okena_workspace::actions::soft_close::PendingDecision;
use okena_workspace::actions::soft_close_flow::{
    TerminalInfo, begin_soft_close_flow, build_soft_close_toast, close_now_flow, finalize_expired,
    shorten_cwd, truncate_label, undo_soft_close_flow,
};
use okena_workspace::collections::IdMap;
use okena_workspace::focus::FocusManager;
use okena_workspace::layout::{LayoutNode, ShellType, SplitDirection};
use okena_workspace::state::{WorkspaceData, new_project_row};
use okena_workspace::workspace::{Workspace, WorkspaceCx};

fn cx() -> WorkspaceCx {
    WorkspaceCx::new(100_000)
}

fn term(id: &str) -> LayoutNode {
    LayoutNode::Terminal {
        terminal_id: Some(id.to_string()),
        minimized: false,
        detached: false,
        shell_type: ShellType::Default,
        zoom_level: 100,
    }
}

fn workspace_with(layout: LayoutNode) -> Workspace {
    let mut data = WorkspaceData::empty();
    data.projects = vec![new_project_row(
        "p1".to_string(),
        "Project p1".to_string(),
        "/tmp/test".to_string(),
        Some(layout),
        None,
    )];
    data.project_order = vec!["p1".to_string()];
    Workspace::new(data)
}

fn two_panes() -> Workspace {
    workspace_with(LayoutNode::Split {
        direction: SplitDirection::Horizontal,
        sizes: vec![5000, 5000],
        children: vec![term("a"), term("b")],
    })
}

fn close_a(ws: &mut Workspace, fm: &mut FocusManager) {
    ws.begin_soft_close(fm, "p1", &[0], "a", "toast-a", &mut cx());
}

fn layout(ws: &Workspace) -> &LayoutNode {
    ws.project("p1").unwrap().layout.as_ref().unwrap()
}

#[test]
fn undo_restores_exact_tree_when_unchanged() {
    let mut ws = two_panes();
    ws.data.projects[0]
        .terminal_names
        .insert("a".to_string(), "Named terminal".to_string());
    let mut fm = FocusManager::new();
    close_a(&mut ws, &mut fm);
    assert!(ws.has_pending_close("a"));
    assert!(layout(&ws).same_as(&term("b")));

    assert!(ws.undo_soft_close(&mut fm, "a", true, &mut cx()));
    assert!(!ws.has_pending_close("a"));
    assert_eq!(layout(&ws).find_terminal_path("a"), Some(vec![0]));
    assert_eq!(layout(&ws).find_terminal_path("b"), Some(vec![1]));
    let names = &ws.project("p1").unwrap().terminal_names;
    assert_eq!(names.get("a").map(|n| n.as_str()), Some("Named terminal"));
    assert!(ws.take_closing_terminal_owner("a").is_none());
}

#[test]
fn undo_with_dead_pty_drops_pending_without_restoring() {
    let mut ws = two_panes();
    let mut fm = FocusManager::new();
    close_a(&mut ws, &mut fm);
    assert!(!ws.undo_soft_close(&mut fm, "a", false, &mut cx()));
    assert!(!ws.has_pending_close("a"));
    assert!(layout(&ws).same_as(&term("b")));
}

#[test]
fn undo_restores_nothing_once_the_project_is_gone() {
    let mut ws = two_panes();
    let mut fm = FocusManager::new();
    close_a(&mut ws, &mut fm);
    ws.data.projects.clear();
    ws.data.project_order.clear();
    let focused = fm.focused_terminal_state().map(|t| t.project_id.clone());
    assert!(!ws.undo_soft_close(&mut fm, "a", true, &mut cx()));
    assert!(!ws.has_pending_close("a"));
    assert!(ws.take_closing_terminal_owner("a").is_none());
    assert!(!ws.reap_restored_close("a", &mut cx()));
    assert_eq!(
        fm.focused_terminal_state().map(|t| t.project_id.clone()),
        focused
    );
}

#[test]
fn undo_reports_a_terminal_that_its_layout_never_held() {
    let mut ws = two_panes();
    let mut fm = FocusManager::new();
    ws.begin_soft_close(&mut fm, "p1", &[0], "stranger", "toast", &mut cx());
    assert!(!ws.undo_soft_close(&mut fm, "stranger", true, &mut cx()));
    assert!(!ws.reap_restored_close("stranger", &mut cx()));
    assert!(!ws.has_pending_close("stranger"));
}

#[test]
fn finalize_queues_kill_and_drops_pending() {
    let mut ws = two_panes();
    let mut fm = FocusManager::new();
    close_a(&mut ws, &mut fm);
    assert!(ws.finalize_soft_close("a", &mut cx()));
    assert!(!ws.has_pending_close("a"));
    assert_eq!(ws.drain_pending_terminal_kills(), vec!["a".to_string()]);
    assert_eq!(
        ws.take_closing_terminal_owner("a"),
        Some(("p1".to_string(), None))
    );
    assert!(!ws.finalize_soft_close("a", &mut cx()));
}

#[test]
fn decide_keeps_busy_terminal_for_undo() {
    let mut ws = two_panes();
    let mut fm = FocusManager::new();
    close_a(&mut ws, &mut fm);
    assert!(matches!(
        ws.decide_pending_close("a", true, &mut cx()),
        PendingDecision::KeepForUndo
    ));
    assert!(ws.has_pending_close("a"));
    assert!(ws.drain_pending_terminal_kills().is_empty());
}

#[test]
fn decide_finalizes_idle_terminal() {
    let mut ws = two_panes();
    let mut fm = FocusManager::new();
    close_a(&mut ws, &mut fm);
    assert!(matches!(
        ws.decide_pending_close("a", false, &mut cx()),
        PendingDecision::Finalized
    ));
    assert!(!ws.has_pending_close("a"));
    assert_eq!(ws.drain_pending_terminal_kills(), vec!["a".to_string()]);
}

#[test]
fn decide_is_noop_when_pending_already_gone() {
    let mut ws = two_panes();
    let mut fm = FocusManager::new();
    close_a(&mut ws, &mut fm);
    ws.cancel_pending_close("a");
    assert!(matches!(
        ws.decide_pending_close("a", true, &mut cx()),
        PendingDecision::Raced
    ));
    assert!(ws.drain_pending_terminal_kills().is_empty());
}

#[test]
fn undo_appends_to_root_when_layout_changed() {
    let mut ws = two_panes();
    let mut fm = FocusManager::new();
    close_a(&mut ws, &mut fm);
    ws.data.projects[0].layout = Some(LayoutNode::Tabs {
        children: vec![term("b"), LayoutNode::new_terminal()],
        active_tab: 1,
    });
    assert!(ws.undo_soft_close(&mut fm, "a", true, &mut cx()));
    assert_eq!(layout(&ws).find_terminal_path("a"), Some(vec![2]));
    assert_eq!(layout(&ws).find_terminal_path("b"), Some(vec![0]));
}

#[test]
fn reap_restored_close_removes_dead_pane_after_undo() {
    let mut ws = two_panes();
    let mut fm = FocusManager::new();
    close_a(&mut ws, &mut fm);
    assert!(ws.undo_soft_close(&mut fm, "a", true, &mut cx()));
    assert_eq!(layout(&ws).find_terminal_path("a"), Some(vec![0]));

    assert!(ws.reap_restored_close("a", &mut cx()));
    assert!(layout(&ws).find_terminal_path("a").is_none());
    assert!(layout(&ws).find_terminal_path("b").is_some());
    assert!(!ws.reap_restored_close("a", &mut cx()));
}

#[test]
fn re_closing_clears_stale_restore_breadcrumb() {
    let mut ws = two_panes();
    let mut fm = FocusManager::new();
    close_a(&mut ws, &mut fm);
    assert!(ws.undo_soft_close(&mut fm, "a", true, &mut cx()));
    ws.begin_soft_close(&mut fm, "p1", &[0], "a", "toast-a2", &mut cx());
    assert!(!ws.reap_restored_close("a", &mut cx()));
}

#[test]
fn drain_pending_closes_returns_all_ids() {
    let mut ws = two_panes();
    let mut fm = FocusManager::new();
    close_a(&mut ws, &mut fm);
    assert_eq!(ws.drain_pending_closes(), vec!["a".to_string()]);
    assert!(!ws.has_pending_close("a"));
    assert!(ws.take_closing_terminal_owner("a").is_none());
}

#[test]
fn cancel_pending_close_returns_toast_and_drops_record() {
    let mut ws = two_panes();
    let mut fm = FocusManager::new();
    close_a(&mut ws, &mut fm);
    assert_eq!(ws.cancel_pending_close("a"), Some("toast-a".to_string()));
    assert!(!ws.has_pending_close("a"));
    assert!(ws.take_closing_terminal_owner("a").is_none());
    assert_eq!(ws.cancel_pending_close("a"), None);
}

#[test]
fn drain_pending_closes_for_project_filters_by_project() {
    let mut ws = two_panes();
    let mut fm = FocusManager::new();
    close_a(&mut ws, &mut fm);
    assert!(ws.drain_pending_closes_for_project("other").is_empty());
    assert!(ws.has_pending_close("a"));
    assert_eq!(
        ws.drain_pending_closes_for_project("p1"),
        vec!["a".to_string()]
    );
    assert!(!ws.has_pending_close("a"));
}

#[test]
fn begin_flow_arms_deadline_and_returns_toast() {
    let mut ws = two_panes();
    let mut fm = FocusManager::new();
    let mut deadlines: IdMap<u64> = IdMap::new();
    let toast = begin_soft_close_flow(
        &mut deadlines,
        &mut ws,
        &mut fm,
        None,
        None,
        "p1",
        "a",
        5,
        Some("make".to_string()),
        &mut cx(),
    )
    .expect("the terminal is in the layout");
    assert_eq!(toast.id.as_deref(), Some("soft-close:a"));
    assert_eq!(toast.message, "Closed \u{201c}make\u{201d}");
    assert_eq!(toast.actions.len(), 2);
    assert!(ws.has_pending_close("a"));
    assert_eq!(deadlines.get("a"), Some(&105_000));
    assert!(layout(&ws).same_as(&term("b")));
}

#[test]
fn soft_close_toast_ignores_codex_main_thread_title_for_command_label() {
    let ws = workspace_with(term("a"));
    let info = TerminalInfo {
        title: Some("MainThread".to_string()),
        cwd: "/tmp/test".to_string(),
    };
    let toast = build_soft_close_toast(
        &ws,
        Some(&info),
        None,
        "p1",
        "a",
        Some("codex".to_string()),
        "soft-close:a",
        5,
    );
    assert_eq!(toast.message, "Closed \u{201c}codex\u{201d}");
}

#[test]
fn begin_flow_returns_none_when_terminal_not_in_layout() {
    let mut ws = two_panes();
    let mut fm = FocusManager::new();
    let mut deadlines: IdMap<u64> = IdMap::new();
    let toast = begin_soft_close_flow(
        &mut deadlines,
        &mut ws,
        &mut fm,
        None,
        None,
        "p1",
        "z",
        5,
        None,
        &mut cx(),
    );
    assert!(toast.is_none());
    assert!(!ws.has_pending_close("z"));
    assert!(deadlines.is_empty());
}

#[test]
fn finalize_expired_kills_only_past_deadline_ids() {
    let mut ws = two_panes();
    let mut fm = FocusManager::new();
    let mut deadlines: IdMap<u64> = IdMap::new();
    close_a(&mut ws, &mut fm);
    ws.begin_soft_close(&mut fm, "p1", &[0], "b", "toast-b", &mut cx());
    deadlines.insert("a".to_string(), 99_000);
    deadlines.insert("b".to_string(), 160_000);
    let kill_ids = finalize_expired(&mut deadlines, &mut ws, &mut cx());
    assert_eq!(kill_ids, vec!["a".to_string()]);
    assert!(!deadlines.contains_key("a"));
    assert!(deadlines.contains_key("b"));
    assert!(!ws.has_pending_close("a"));
    assert!(ws.has_pending_close("b"));
}

#[test]
fn close_now_flow_clears_deadline_and_kills() {
    let mut ws = two_panes();
    let mut fm = FocusManager::new();
    let mut deadlines: IdMap<u64> = IdMap::new();
    close_a(&mut ws, &mut fm);
    deadlines.insert("a".to_string(), 160_000);
    let kill_ids = close_now_flow(&mut deadlines, &mut ws, "a", &mut cx());
    assert!(!deadlines.contains_key("a"));
    assert!(!ws.has_pending_close("a"));
    assert_eq!(kill_ids, vec!["a".to_string()]);
}

#[test]
fn undo_flow_clears_deadline() {
    let mut ws = two_panes();
    let mut fm = FocusManager::new();
    let mut deadlines: IdMap<u64> = IdMap::new();
    close_a(&mut ws, &mut fm);
    deadlines.insert("a".to_string(), 160_000);
    undo_soft_close_flow(&mut deadlines, &mut ws, &mut fm, false, "a", &mut cx());
    assert!(!deadlines.contains_key("a"));
    assert!(!ws.has_pending_close("a"));
}

#[test]
fn closing_moves_the_focus_to_a_sibling() {
    let mut ws = two_panes();
    let mut fm = FocusManager::new();
    ws.set_focused_terminal(&mut fm, "p1".to_string(), vec![0], &mut cx());
    ws.close_terminal_and_focus_sibling(&mut fm, "p1", &[0], &mut cx());
    assert!(layout(&ws).same_as(&term("b")));
    let focused = fm.focused_terminal_state().unwrap();
    assert_eq!(focused.project_id, "p1");
    assert!(focused.layout_path.is_empty());
    assert!(ws.close_terminal("p1", &[], &mut cx()));
    assert!(ws.project("p1").unwrap().layout.is_none());
    assert!(!ws.close_terminal("p1", &[], &mut cx()));
}

#[test]
fn labels_and_directories_are_shortened() {
    assert_eq!(truncate_label("make"), "make");
    let long = "x".repeat(100);
    let short = truncate_label(&long);
    assert!(short.chars().count() < 100);
    assert!(short.ends_with('\u{2026}'));
    assert_eq!(shorten_cwd("/home/me/src", Some("/home/me")), "~/src");
    assert_eq!(shorten_cwd("/srv", Some("/home/me")), "/srv");
    assert_eq!(shorten_cwd("/srv", None), "/srv");
}
