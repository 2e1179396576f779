use taarof_app::pane::{
    nearest_pane, new_pane_work_origin, render_pane_work_origin, work_origin_from, AdjacentPane,
    PaneLeaf, PaneLocationState, PaneNavigationDirection, PaneNode, PaneProcessState, SplitChild,
    SplitDirection, TmuxBacking,
};
use taarof_app::probe::ProbeSnapshot;
use taarof_app::tmux::{SavedTmuxIdentity, TmuxPaneInfo, TmuxTarget};

#[derive(Clone, Copy)]
struct PaneRect {
    pane_id: u32,
    left: f64,
    top: f64,
    right: f64,
    bottom: f64,
}

fn rect(pane_id: u32, left: f64, top: f64, right: f64, bottom: f64) -> PaneRect {
    PaneRect { pane_id, left, top, right, bottom }
}

fn gap(a_start: f64, a_end: f64, b_start: f64, b_end: f64) -> f64 {
    if a_end.min(b_end) - a_start.max(b_start) > 0.0 {
        0.0
    } else if a_end <= b_start {
        b_start - a_end
    } else {
        a_start - b_end
    }
}

/// Measures the panes that lie in the direction; distances are never negative, so their
/// bits order as they do.
fn find_adjacent_rect(
    rects: &[PaneRect],
    current_id: u32,
    direction: PaneNavigationDirection,
) -> Option<u32> {
    let current = *rects.iter().find(|rect| rect.pane_id == current_id)?;
    let eps = 0.000_001;
    let mut candidates = Vec::new();
    for rect in rects.iter().filter(|rect| rect.pane_id != current_id) {
        let (lies_there, primary) = match direction {
            PaneNavigationDirection::Left => {
                (rect.right <= current.left + eps, current.left - rect.right)
            }
            PaneNavigationDirection::Right => {
                (rect.left >= current.right - eps, rect.left - current.right)
            }
            PaneNavigationDirection::Up => {
                (rect.bottom <= current.top + eps, current.top - rect.bottom)
            }
            PaneNavigationDirection::Down => {
                (rect.top >= current.bottom - eps, rect.top - current.bottom)
            }
        };
        let (across, centers) = match direction {
            PaneNavigationDirection::Left | PaneNavigationDirection::Right => (
                gap(current.top, current.bottom, rect.top, rect.bottom),
                (current.top + current.bottom) * 0.5 - (rect.top + rect.bottom) * 0.5,
            ),
            PaneNavigationDirection::Up | PaneNavigationDirection::Down => (
                gap(current.left, current.right, rect.left, rect.right),
                (current.left + current.right) * 0.5 - (rect.left + rect.right) * 0.5,
            ),
        };
        if lies_there {
            candidates.push(AdjacentPane {
                pane_id: rect.pane_id,
                primary_gap: primary.max(0.0).to_bits(),
                perpendicular_gap: across.to_bits(),
                perpendicular_distance: centers.abs().to_bits(),
            });
        }
    }
    nearest_pane(&candidates)
}

#[test]
fn test_find_adjacent_pane_single_pane() {
    let rects = vec![rect(1, 0.0, 0.0, 1.0, 1.0)];
    for direction in [
        PaneNavigationDirection::Left,
        PaneNavigationDirection::Right,
        PaneNavigationDirection::Up,
        PaneNavigationDirection::Down,
    ] {
        assert_eq!(find_adjacent_rect(&rects, 1, direction), None);
    }
}

#[test]
fn first_leaf_is_total_for_non_terminal_trees() {
    assert!(PaneNode::Empty.first_leaf().is_none());
    assert!(PaneNode::Stub { pane_id: 7 }.first_leaf().is_none());
    assert!(PaneNode::Empty.root_widget().is_none());
    assert!(PaneNode::Stub { pane_id: 7 }.root_widget().is_none());
}

#[test]
fn test_find_adjacent_rect_uses_spatial_neighbors_in_grid() {
    let rects = vec![
        rect(1, 0.0, 0.0, 0.5, 0.5),
        rect(2, 0.5, 0.0, 1.0, 0.5),
        rect(3, 0.0, 0.5, 0.5, 1.0),
        rect(4, 0.5, 0.5, 1.0, 1.0),
    ];

    assert_eq!(find_adjacent_rect(&rects, 1, PaneNavigationDirection::Right), Some(2));
    assert_eq!(find_adjacent_rect(&rects, 1, PaneNavigationDirection::Down), Some(3));
    assert_eq!(find_adjacent_rect(&rects, 3, PaneNavigationDirection::Up), Some(1));
    assert_eq!(find_adjacent_rect(&rects, 4, PaneNavigationDirection::Left), Some(3));
}

#[test]
fn test_find_adjacent_rect_does_not_wrap_or_use_dfs_order() {
    let rects = vec![
        rect(1, 0.0, 0.0, 0.5, 0.5),
        rect(2, 0.5, 0.0, 1.0, 0.5),
        rect(3, 0.0, 0.5, 0.5, 1.0),
        rect(4, 0.5, 0.5, 1.0, 1.0),
    ];

    assert_eq!(find_adjacent_rect(&rects, 3, PaneNavigationDirection::Left), None);
    assert_eq!(find_adjacent_rect(&rects, 2, PaneNavigationDirection::Up), None);
    assert_eq!(find_adjacent_rect(&rects, 3, PaneNavigationDirection::Right), Some(4));
    assert_eq!(find_adjacent_rect(&rects, 2, PaneNavigationDirection::Down), Some(4));
}

fn leaf(pane_id: u32) -> PaneLeaf {
    PaneLeaf {
        pane_id,
        work_origin: format!("pane-{pane_id}"),
        container: 100 + pane_id as u64,
        terminal: 200 + pane_id as u64,
        shell_pid: if pane_id % 2 == 0 { Some(pane_id as i32) } else { None },
        was_busy: false,
        launch_command: None,
        last_output_ms: None,
        tmux_backing: None,
        location_state: PaneLocationState::default(),
        process_state: PaneProcessState::default(),
        command_marks: Vec::new(),
    }
}

fn split(widget: u64, first: PaneNode, second: PaneNode) -> PaneNode {
    PaneNode::Split {
        direction: SplitDirection::Vertical,
        first: Box::new(first),
        second: Box::new(second),
        widget,
    }
}

fn sample_tree() -> PaneNode {
    split(
        1,
        split(2, PaneNode::Stub { pane_id: 9 }, PaneNode::Leaf(leaf(4))),
        split(3, PaneNode::Leaf(leaf(5)), PaneNode::Leaf(leaf(6))),
    )
}

#[test]
fn trees_are_read_from_left_to_right() {
    let tree = sample_tree();
    let ids: Vec<u32> = tree.leaves().iter().map(|leaf| leaf.pane_id).collect();
    assert_eq!(ids, vec![4, 5, 6]);
    assert_eq!(tree.collect_pids(), vec![4, 6]);
    assert_eq!(tree.leaf_count(), 4);
    assert_eq!(tree.first_leaf().map(|leaf| leaf.pane_id), Some(4));
    assert!(tree.is_split());
    assert_eq!(tree.root_widget(), Some(1));
    assert!(tree.contains_pane(9));
    assert!(!tree.contains_pane(7));
    assert!(tree.leaf(9).is_none());
    assert_eq!(tree.leaf(5).map(|leaf| leaf.terminal), Some(205));
}

#[test]
fn focused_terminal_falls_back_to_the_first_live_pane() {
    let tree = sample_tree();
    assert_eq!(tree.focused_terminal(6), Some(206));
    assert_eq!(tree.focused_terminal(42), Some(204));
    assert_eq!(tree.focused_terminal(9), None);
    assert_eq!(PaneNode::Leaf(leaf(3)).focused_terminal(8), Some(203));
    assert_eq!(PaneNode::Empty.focused_terminal(8), None);
}

#[test]
fn split_paths_lead_from_the_root_to_the_parent() {
    let tree = sample_tree();
    let path: Vec<(u64, SplitChild)> = tree
        .split_path_to(6)
        .unwrap()
        .iter()
        .map(|entry| (entry.widget, entry.target_child))
        .collect();
    assert_eq!(path, vec![(1, SplitChild::Second), (3, SplitChild::Second)]);
    assert_eq!(tree.split_path_to(9).unwrap().len(), 2);
    assert!(tree.split_path_to(7).is_none());
    assert_eq!(PaneNode::Stub { pane_id: 1 }.split_path_to(1), Some(Vec::new()));
}

#[test]
fn busy_transitions_are_noted_for_every_pane() {
    let mut tree = sample_tree();
    tree.leaf_mut(4).unwrap().process_state.has_child_process = true;
    let remote = tree.leaf_mut(5).unwrap();
    remote.process_state.remote_shell = true;
    remote.last_output_ms = Some(10_000);
    assert!(tree.any_busy(12_999));
    assert!(tree.any_remote_shell());
    assert!(tree.pane_is_remote_shell(5));
    assert!(!tree.pane_is_remote_shell(4));
    assert!(!tree.update_busy_transitions(12_999));
    assert!(tree.leaf(4).unwrap().was_busy);
    assert!(tree.leaf(5).unwrap().was_busy);
    assert!(!tree.leaf(6).unwrap().was_busy);
    // Three seconds without output make a remote pane idle.
    assert!(tree.update_busy_transitions(13_000));
    assert!(!tree.leaf(5).unwrap().was_busy);
    assert!(!tree.update_busy_transitions(13_001));
}

#[test]
fn leaves_can_be_changed_in_place() {
    let mut tree = sample_tree();
    for leaf in tree.leaves_mut() {
        leaf.shell_pid = Some(leaf.pane_id as i32 * 10);
    }
    assert_eq!(tree.collect_pids(), vec![40, 50, 60]);
    assert!(tree.leaf_mut(9).is_none());
}

#[test]
fn command_marks_ignore_repeats_and_keep_the_last_thousand() {
    let mut pane = leaf(1);
    for row in 0..1000 {
        pane.push_command_mark(row);
        pane.push_command_mark(row);
    }
    assert_eq!(pane.command_marks.len(), 1000);
    pane.push_command_mark(5000);
    assert_eq!(pane.command_marks.len(), 1000);
    assert_eq!(pane.command_marks[0], 1);
    assert_eq!(pane.command_marks[999], 5000);
}

#[test]
fn directories_are_saved_with_their_host() {
    let mut pane = leaf(1);
    assert_eq!(pane.local_cwd(), None);
    assert_eq!(pane.saved_cwd(), None);
    pane.update_location_cache(Some(" /srv/app ".to_string()), None);
    assert_eq!(pane.local_cwd().as_deref(), Some(" /srv/app "));
    assert_eq!(pane.saved_cwd().as_deref(), Some("/srv/app"));
    assert!(pane.location_state.updated_at_unix_ms.is_some());
    pane.update_location_cache_at(None, Some("box".to_string()), 17);
    assert_eq!(pane.location_state.cwd, None);
    assert_eq!(pane.location_state.cwd_host.as_deref(), Some("box"));
    assert_eq!(pane.location_state.updated_at_unix_ms, Some(17));
    pane.update_location_cache(Some("/srv/app".to_string()), Some("box".to_string()));
    assert_eq!(pane.local_cwd(), None);
    assert_eq!(pane.saved_cwd().as_deref(), Some("file://box/srv/app"));
    pane.update_location_cache(Some("  ".to_string()), None);
    assert_eq!(pane.local_cwd(), None);
    assert_eq!(pane.saved_cwd(), None);
}

#[test]
fn probe_results_forget_the_ssh_arguments() {
    let mut pane = leaf(1);
    pane.update_process_state(PaneProcessState {
        has_child_process: false,
        remote_shell: true,
        ssh_command: Some(vec!["ssh".to_string(), "box".to_string()]),
        updated_at_unix_ms: None,
    });
    assert_eq!(pane.ssh_command().unwrap()[1], "box");
    pane.update_probe_cache(true, false);
    assert_eq!(pane.ssh_command(), None);
    assert!(pane.process_state.has_child_process);
    assert!(pane.process_state.updated_at_unix_ms.is_some());
    pane.update_probe_cache_at(false, true, 42);
    assert!(!pane.process_state.has_child_process);
    assert!(pane.process_state.remote_shell);
    assert_eq!(pane.process_state.updated_at_unix_ms, Some(42));
}

#[test]
fn work_origins_show_their_bytes() {
    let mut bytes = [0u8; 16];
    bytes[0] = 0xab;
    bytes[15] = 0x0f;
    assert_eq!(
        render_pane_work_origin(&bytes),
        "pane-ab00000000000000000000000000000f"
    );
    let now: u128 = 0x0123_4567_89ab_cdef;
    let expected = (now ^ (u128::from(77u32) << 64) ^ u128::from(3u64)).to_le_bytes();
    assert_eq!(
        work_origin_from(None, now, 77, 3),
        render_pane_work_origin(&expected)
    );
    let a = new_pane_work_origin(1, 2, 3);
    let b = new_pane_work_origin(1, 2, 3);
    assert_eq!(a.len(), 37);
    assert_ne!(a, b);
}

fn backing(name: &str, generation: Option<&str>) -> TmuxBacking {
    TmuxBacking {
        session_name: name.to_string(),
        target: TmuxTarget::Local,
        expected_generation: generation.map(|id| SavedTmuxIdentity {
            session_id: id.to_string(),
            session_created: 1,
            continuity_id: "c".to_string(),
        }),
        pane_info: ProbeSnapshot::default(),
    }
}

#[test]
fn expected_generations_win_over_probed_ones() {
    let mut a = backing("s", None);
    assert_eq!(a.authoritative_generation(), None);
    a.pane_info.record_success(TmuxPaneInfo {
        current_command: "bash".to_string(),
        cwd: "/".to_string(),
        pid: 1,
        width: 80,
        height: 24,
        session_id: "$2".to_string(),
        session_created: 1,
        continuity_id: Some("c".to_string()),
    });
    assert_eq!(a.authoritative_generation().unwrap().session_id, "$2");
    assert!(a.same_execution_target(&backing("s", Some("$2"))));
    assert!(!a.same_execution_target(&backing("s", Some("$3"))));
    assert!(!a.same_execution_target(&backing("t", Some("$2"))));
    a.expected_generation = backing("s", Some("$9")).expected_generation;
    assert_eq!(a.authoritative_generation().unwrap().session_id, "$9");
}
