//! Pane trees, and moving panes between them.

use okena_workspace::focus::FocusManager;
use okena_workspace::layout::{DropZone, LayoutNode, ShellType, SplitDirection};
use okena_workspace::state::{ProjectData, WorkspaceData, new_project_row};
use okena_workspace::workspace::{Workspace, WorkspaceCx};

fn cx() -> WorkspaceCx {
    WorkspaceCx::new(0)
}

fn terminal_node(id: &str) -> LayoutNode {
    LayoutNode::Terminal {
        terminal_id: Some(id.to_string()),
        minimized: false,
        detached: false,
        shell_type: ShellType::Default,
        zoom_level: 100,
    }
}

fn hsplit(sizes: Vec<u32>, children: Vec<LayoutNode>) -> LayoutNode {
    LayoutNode::Split {
        direction: SplitDirection::Horizontal,
        sizes,
        children,
    }
}

fn split(children: Vec<LayoutNode>) -> LayoutNode {
    LayoutNode::Split {
        direction: SplitDirection::Vertical,
        sizes: vec![5000; children.len()],
        children,
    }
}

fn tabs(children: Vec<LayoutNode>) -> LayoutNode {
    LayoutNode::Tabs {
        children,
        active_tab: 0,
    }
}

fn project(id: &str, layout: LayoutNode) -> ProjectData {
    new_project_row(
        id.to_string(),
        id.to_string(),
        "/tmp/test".to_string(),
        Some(layout),
        None,
    )
}

fn workspace(projects: Vec<ProjectData>) -> Workspace {
    let mut data = WorkspaceData::empty();
    data.project_order = projects.iter().map(|p| p.id.clone()).collect();
    data.projects = projects;
    Workspace::new(data)
}

fn layout_of<'a>(ws: &'a Workspace, id: &str) -> &'a LayoutNode {
    ws.project(id).unwrap().layout.as_ref().unwrap()
}

fn terminal_ids(ws: &Workspace, id: &str) -> Vec<String> {
    ws.project(id)
        .and_then(|p| p.layout.as_ref())
        .map(|l| l.collect_terminal_ids())
        .unwrap_or_default()
}

fn divide(node: LayoutNode, direction: SplitDirection) -> LayoutNode {
    LayoutNode::Split {
        direction,
        sizes: vec![5000, 5000],
        children: vec![node, LayoutNode::new_terminal()],
    }
}

#[test]
fn test_split_terminal_creates_split() {
    let mut layout = divide(terminal_node("t1"), SplitDirection::Vertical);
    layout.normalize();
    match &layout {
        LayoutNode::Split {
            direction,
            children,
            sizes,
        } => {
            assert_eq!(*direction, SplitDirection::Vertical);
            assert_eq!(children.len(), 2);
            assert_eq!(sizes.len(), 2);
            assert!(children[0].same_as(&terminal_node("t1")));
            assert!(matches!(
                &children[1],
                LayoutNode::Terminal {
                    terminal_id: None,
                    ..
                }
            ));
        }
        _ => panic!("Expected split"),
    }
}

#[test]
fn test_nested_split_normalizes() {
    let mut layout = hsplit(
        vec![5000, 5000],
        vec![terminal_node("t1"), terminal_node("t2")],
    );
    if let Some(node) = layout.get_at_path_mut(&[0]) {
        *node = divide(terminal_node("t1"), SplitDirection::Horizontal);
        node.normalize();
    }
    layout.normalize();
    match &layout {
        LayoutNode::Split {
            direction,
            children,
            ..
        } => {
            assert_eq!(*direction, SplitDirection::Horizontal);
            assert_eq!(children.len(), 3);
        }
        _ => panic!("Expected flattened split"),
    }
}

#[test]
fn test_add_tab_creates_tab_group() {
    let layout = LayoutNode::Tabs {
        children: vec![terminal_node("t1"), LayoutNode::new_terminal()],
        active_tab: 1,
    };
    match &layout {
        LayoutNode::Tabs {
            children,
            active_tab,
        } => {
            assert_eq!(children.len(), 2);
            assert_eq!(*active_tab, 1);
        }
        _ => panic!("Expected tabs"),
    }
    assert_eq!(layout.find_uninitialized_terminal_path(), Some(vec![1]));
}

#[test]
fn test_add_tab_to_existing_tabs() {
    let mut layout = tabs(vec![terminal_node("t1"), terminal_node("t2")]);
    layout.append_to_root(LayoutNode::new_terminal());
    match &layout {
        LayoutNode::Tabs {
            children,
            active_tab,
        } => {
            assert_eq!(children.len(), 3);
            assert_eq!(*active_tab, 2);
        }
        _ => panic!("Expected tabs"),
    }
}

#[test]
fn test_equalize_parent_split_via_path() {
    let mut layout = LayoutNode::Split {
        direction: SplitDirection::Vertical,
        sizes: vec![7000, 3000],
        children: vec![terminal_node("t1"), terminal_node("t2")],
    };
    match layout.get_at_path_mut(&[]) {
        Some(LayoutNode::Split {
            sizes, children, ..
        }) => *sizes = vec![10000 / children.len() as u32; children.len()],
        _ => panic!("Expected split"),
    }
    match &layout {
        LayoutNode::Split { sizes, .. } => assert_eq!(sizes, &vec![5000, 5000]),
        _ => panic!("Expected split"),
    }
}

#[test]
fn test_close_terminal_sibling_replaces_parent() {
    let mut layout = hsplit(
        vec![5000, 5000],
        vec![terminal_node("t1"), terminal_node("t2")],
    );
    assert!(layout.remove_at_path(&[0]).is_some());
    assert!(layout.same_as(&terminal_node("t2")));
}

#[test]
fn test_close_terminal_from_3_child_split() {
    let mut layout = hsplit(
        vec![3300, 3300, 3400],
        vec![
            terminal_node("t1"),
            terminal_node("t2"),
            terminal_node("t3"),
        ],
    );
    assert!(layout.remove_at_path(&[1]).is_some());
    match &layout {
        LayoutNode::Split {
            children, sizes, ..
        } => {
            assert_eq!(children.len(), 2);
            assert_eq!(sizes.len(), 2);
        }
        _ => panic!("Expected split with 2 children"),
    }
    assert_eq!(layout.collect_terminal_ids(), vec!["t1", "t3"]);
}

#[test]
fn test_close_terminal_from_3_child_sizes_consistent() {
    let sizes_after = |direction: SplitDirection, sizes: Vec<u32>, gone: usize| {
        let mut layout = LayoutNode::Split {
            direction,
            sizes,
            children: vec![
                terminal_node("t1"),
                terminal_node("t2"),
                terminal_node("t3"),
            ],
        };
        layout.remove_at_path(&[gone]);
        match layout {
            LayoutNode::Split {
                children, sizes, ..
            } => {
                assert_eq!(children.len(), 2);
                assert_eq!(sizes.len(), 2);
                sizes
            }
            _ => panic!("Expected split with 2 children"),
        }
    };
    let across = SplitDirection::Horizontal;
    let down = SplitDirection::Vertical;
    assert_eq!(sizes_after(across, vec![2500, 5000, 2500], 1), vec![7500, 2500]);
    assert_eq!(sizes_after(down, vec![3000, 4000, 3000], 0), vec![7000, 3000]);
    assert_eq!(sizes_after(down, vec![3000, 4000, 3000], 2), vec![3000, 7000]);
}

#[test]
fn test_move_tab() {
    let mut ws = workspace(vec![project(
        "p",
        tabs(vec![
            terminal_node("t1"),
            terminal_node("t2"),
            terminal_node("t3"),
        ]),
    )]);
    ws.move_tab("p", &[], 0, 2, &mut cx());
    assert_eq!(terminal_ids(&ws, "p"), vec!["t2", "t3", "t1"]);
    match layout_of(&ws, "p") {
        LayoutNode::Tabs { active_tab, .. } => assert_eq!(*active_tab, 2),
        _ => panic!("Expected tabs"),
    }
}

#[test]
fn test_equalize_nested_parent_split_via_path() {
    let mut layout = LayoutNode::Split {
        direction: SplitDirection::Vertical,
        sizes: vec![6000, 4000],
        children: vec![
            hsplit(
                vec![8000, 2000],
                vec![terminal_node("t1"), terminal_node("t2")],
            ),
            terminal_node("t3"),
        ],
    };
    match layout.get_at_path_mut(&[0]) {
        Some(LayoutNode::Split { sizes, .. }) => *sizes = vec![5000, 5000],
        _ => panic!("Expected inner split"),
    }
    match &layout {
        LayoutNode::Split {
            sizes, children, ..
        } => {
            assert_eq!(sizes, &vec![6000, 4000]);
            match &children[0] {
                LayoutNode::Split { sizes, .. } => assert_eq!(sizes, &vec![5000, 5000]),
                _ => panic!("Expected inner split"),
            }
        }
        _ => panic!("Expected split"),
    }
}

#[test]
fn pane_move_to_a_stale_target_keeps_the_source_pane() {
    let mut ws = workspace(vec![project(
        "p1",
        split(vec![terminal_node("a"), terminal_node("b")]),
    )]);
    ws.move_pane(
        &mut FocusManager::new(),
        "p1",
        "a",
        "p1",
        "gone",
        DropZone::Right,
        &mut cx(),
    );
    assert_eq!(terminal_ids(&ws, "p1"), vec!["a", "b"]);
}

#[test]
fn panes_are_dropped_beside_their_target() {
    let order = |zone: DropZone| {
        let mut ws = workspace(vec![project(
            "p1",
            split(vec![
                terminal_node("a"),
                terminal_node("b"),
                terminal_node("c"),
            ]),
        )]);
        ws.move_pane(
            &mut FocusManager::new(),
            "p1",
            "a",
            "p1",
            "c",
            zone,
            &mut cx(),
        );
        terminal_ids(&ws, "p1")
    };
    assert_eq!(order(DropZone::Left), vec!["b", "a", "c"]);
    assert_eq!(order(DropZone::Right), vec!["b", "c", "a"]);
    assert_eq!(order(DropZone::Top), vec!["b", "a", "c"]);
    assert_eq!(order(DropZone::Bottom), vec!["b", "c", "a"]);
    assert_eq!(order(DropZone::Center).len(), 3);
}

#[test]
fn a_pane_takes_its_name_to_another_project() {
    let mut first = project("p1", terminal_node("a"));
    first
        .terminal_names
        .insert("a".to_string(), "mine".to_string());
    let mut ws = workspace(vec![first, project("p2", terminal_node("b"))]);
    ws.move_pane(
        &mut FocusManager::new(),
        "p1",
        "a",
        "p2",
        "b",
        DropZone::Right,
        &mut cx(),
    );
    assert!(ws.project("p1").unwrap().layout.is_none());
    assert_eq!(terminal_ids(&ws, "p2"), vec!["b", "a"]);
    let names = &ws.project("p2").unwrap().terminal_names;
    assert_eq!(names.get("a").map(|n| n.as_str()), Some("mine"));
    assert!(!ws.project("p1").unwrap().terminal_names.contains_key("a"));
}

fn to_tabs(ws: &mut Workspace, t: &str, target: &str, path: &[usize], at: Option<usize>) {
    ws.move_terminal_to_tab_group(
        &mut FocusManager::new(),
        "p1",
        t,
        target,
        path,
        at,
        &mut cx(),
    );
}

#[test]
fn tab_group_move_to_a_split_destination_keeps_the_source_pane() {
    let mut ws = workspace(vec![project(
        "p1",
        split(vec![
            split(vec![terminal_node("x"), terminal_node("y")]),
            terminal_node("z"),
        ]),
    )]);
    to_tabs(&mut ws, "z", "p1", &[0], None);
    assert_eq!(terminal_ids(&ws, "p1"), vec!["x", "y", "z"]);
}

#[test]
fn tab_group_move_targets_the_requested_group_not_a_nested_split() {
    let mut ws = workspace(vec![project(
        "p1",
        split(vec![
            tabs(vec![
                split(vec![terminal_node("x"), terminal_node("y")]),
                terminal_node("w"),
            ]),
            terminal_node("z"),
        ]),
    )]);
    to_tabs(&mut ws, "z", "p1", &[0], None);
    match layout_of(&ws, "p1") {
        LayoutNode::Tabs { children, .. } => {
            assert_eq!(children.len(), 3);
            assert!(children[2].same_as(&terminal_node("z")));
        }
        other => panic!("expected the requested tab group to gain a tab, got {other:?}"),
    }
}

#[test]
fn cross_project_tab_group_move_to_a_split_destination_keeps_the_source_pane() {
    let mut ws = workspace(vec![
        project("p1", split(vec![terminal_node("a"), terminal_node("b")])),
        project("p2", split(vec![terminal_node("c"), terminal_node("d")])),
    ]);
    to_tabs(&mut ws, "a", "p2", &[], None);
    assert_eq!(terminal_ids(&ws, "p1"), vec!["a", "b"]);
    assert_eq!(terminal_ids(&ws, "p2"), vec!["c", "d"]);
}

#[test]
fn cross_project_tab_group_move_targets_the_requested_group() {
    let mut ws = workspace(vec![
        project("p1", split(vec![terminal_node("a"), terminal_node("b")])),
        project(
            "p2",
            tabs(vec![
                split(vec![terminal_node("c"), terminal_node("d")]),
                terminal_node("e"),
            ]),
        ),
    ]);
    to_tabs(&mut ws, "a", "p2", &[], Some(0));
    assert_eq!(terminal_ids(&ws, "p1"), vec!["b"]);
    match layout_of(&ws, "p2") {
        LayoutNode::Tabs { children, .. } => {
            assert_eq!(children.len(), 3);
            assert!(children[0].same_as(&terminal_node("a")));
        }
        other => panic!("expected the requested tab group to gain a tab, got {other:?}"),
    }
}
