use taarof_app::pane::PaneProcessState;
use taarof_app::performance::{
    runtime_probe, session_json_fixture, session_restore, session_state_checksum, snapshot_checksum,
    synthetic_probe_fixture, AgentStatus, RuntimeProbeSnapshot, SemanticChecksum,
};

fn agent(name: &str, session: &str) -> AgentStatus {
    AgentStatus {
        agent_name: Some(name.into()),
        session_id: Some(session.into()),
        running: true,
    }
}

fn fixture_snapshot() -> RuntimeProbeSnapshot {
    let fixture = synthetic_probe_fixture("even-agent", "odd-agent");
    RuntimeProbeSnapshot {
        tab_pids: fixture.tab_pids.clone(),
        pane_pids: fixture
            .pane_pids
            .iter()
            .map(|(tab, pane, pid)| ((*tab, *pane), *pid))
            .collect(),
        pane_agents: vec![
            ((1, 1), agent("odd-agent", "session-1")),
            ((2, 1), agent("even-agent", "session-2")),
        ],
        tab_agents: vec![(1, agent("odd-agent", "session-1"))],
        tab_ports: vec![(1, vec![3000, 3001]), (2, vec![4000])],
        pane_process_states: vec![(
            (1, 1),
            PaneProcessState {
                has_child_process: true,
                remote_shell: false,
                ssh_command: Some(vec!["ssh".into(), "alpha".into()]),
                updated_at_unix_ms: None,
            },
        )],
    }
}

#[test]
fn snapshot_checksum_covers_agent_identity_session_ports_and_pane_mapping() {
    let snapshot = fixture_snapshot();
    let expected = snapshot_checksum(&snapshot);

    let mut changed = fixture_snapshot();
    changed.pane_agents[0].1.agent_name = Some("different-agent".to_string());
    assert_ne!(snapshot_checksum(&changed), expected);

    let mut changed = fixture_snapshot();
    changed.pane_agents[0].1.session_id = Some("different-session".to_string());
    assert_ne!(snapshot_checksum(&changed), expected);

    let mut changed = fixture_snapshot();
    changed.tab_ports[0].1[0] += 1;
    assert_ne!(snapshot_checksum(&changed), expected);

    let mut changed = fixture_snapshot();
    let (_, status) = changed.pane_agents.remove(0);
    changed.pane_agents.push(((1, 99), status));
    assert_ne!(snapshot_checksum(&changed), expected);
}

#[test]
fn session_checksum_covers_normalized_content_not_only_topology() {
    let json = session_json_fixture();
    let mut state: serde_json::Value =
        serde_json::from_str(&json).expect("valid performance fixture");
    let encode = |state: &serde_json::Value| state.to_string().into_bytes();
    let expected = session_state_checksum(&encode(&state));

    state["workspaces"][0]["work_origin"] = "workspace-different".into();
    assert_ne!(session_state_checksum(&encode(&state)), expected);
}

#[test]
fn the_session_fixture_holds_eight_workspaces_of_sixteen_tabs() {
    let json = session_json_fixture();
    let state: serde_json::Value = serde_json::from_str(&json).expect("JSON");
    assert_eq!(state.to_string(), json);
    assert_eq!(state["version"], 2);
    assert_eq!(state["active_workspace_index"], 3);
    assert_eq!(state["window_width"], 1600);
    assert_eq!(state["window_height"], 1000);
    let workspaces = state["workspaces"].as_array().expect("a list");
    assert_eq!(workspaces.len(), 8);
    for (i, workspace) in workspaces.iter().enumerate() {
        assert_eq!(workspace["id"], i + 1);
        assert_eq!(workspace["name"], format!("workspace-{i}"));
        assert_eq!(workspace["work_origin"], format!("workspace-perf-{i}"));
        assert_eq!(workspace["active_tab_index"], i % 16);
        let tabs = workspace["tabs"].as_array().expect("a list");
        assert_eq!(tabs.len(), 16);
        for (t, tab) in tabs.iter().enumerate() {
            assert_eq!(tab["name"], format!("tab-{t}"));
            assert_eq!(tab["work_origin"], format!("tab-perf-{i}-{t}"));
            assert_eq!(tab["cwd"], format!("/workspace/{i}/tab-{t}"));
            let panes = &tab["panes"];
            assert_eq!(panes["type"], "split");
            assert_eq!(panes["direction"], "horizontal");
            assert_eq!(panes["ratio"], 0.5);
            assert_eq!(panes["first"]["direction"], "vertical");
            assert_eq!(panes["second"]["type"], "split");
            let last = &panes["second"]["second"];
            assert_eq!(last["type"], "leaf");
            assert_eq!(last["cwd"], format!("/workspace/{i}/tab-{t}/pane-3"));
            assert_eq!(panes["first"]["second"]["work_origin"], format!("pane-perf-{i}-{t}-1"));
        }
    }
}

#[test]
fn the_order_of_findings_does_not_matter() {
    let snapshot = fixture_snapshot();
    let mut turned = fixture_snapshot();
    turned.pane_agents.reverse();
    turned.tab_ports.reverse();
    assert_eq!(snapshot_checksum(&turned), snapshot_checksum(&snapshot));
    turned.tab_pids.reverse();
    assert_ne!(snapshot_checksum(&turned), snapshot_checksum(&snapshot));
}

#[test]
fn checksums_are_fnv_over_marked_fields() {
    let mut checksum = SemanticChecksum::new();
    assert_eq!(checksum.value, 0xcbf2_9ce4_8422_2325);
    checksum.bytes(b"a");
    let mut by_hand: u64 = 0xcbf2_9ce4_8422_2325;
    for byte in [1u8, 0, 0, 0, 0, 0, 0, 0, b'a'] {
        by_hand = (by_hand ^ byte as u64).wrapping_mul(0x0000_0100_0000_01b3);
    }
    assert_eq!(checksum.value, by_hand);
}

#[test]
fn workloads_add_up_their_rounds() {
    let snapshot = fixture_snapshot();
    let one = snapshot_checksum(&snapshot);
    let result = runtime_probe(&vec![fixture_snapshot(), fixture_snapshot()], 7);
    assert_eq!(result.checksum, one.wrapping_add(one));
    assert_eq!(result.source_reads, 7);
    let encoded = vec![b"{}".to_vec(), b"[]".to_vec()];
    let restored = session_restore(&encoded);
    assert_eq!(
        restored.checksum,
        session_state_checksum(b"{}").wrapping_add(session_state_checksum(b"[]"))
    );
    let fixture = synthetic_probe_fixture("even-agent", "odd-agent");
    assert_eq!(fixture.tab_pids.len(), 8);
}
