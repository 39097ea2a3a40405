use sandbox_manager::error::ManagerError;
use sandbox_manager::record::{Backend, Sandbox, SandboxStatus, Timestamp};
use sandbox_manager::state::{ManagerState, Snapshot, FIRST_DISPLAY};

fn record(id: &str, display: Option<u32>, status: SandboxStatus, secs: i64) -> Sandbox {
    Sandbox {
        id: id.to_string(),
        name: format!("name-{}", id),
        backend: Backend::Bubblewrap,
        project_dir: "/tmp/x".to_string(),
        status,
        display_num: display,
        tmux_session: Some(format!("sandbox-{}", id)),
        pid_xvfb: display.map(|d| 1000 + d),
        qemu_qmp_socket: None,
        network: true,
        created_at: Timestamp { secs, nanos: 0 },
    }
}

fn state_with_hint(hint: u32) -> ManagerState {
    ManagerState::load(Some(Snapshot { sandboxes: Vec::new(), next_display: hint }))
}

#[test]
fn default_registry_is_empty_with_first_display() {
    let state = ManagerState::default();
    assert_eq!(state.next_display(), 50);
    assert_eq!(FIRST_DISPLAY, 50);
    assert!(state.values().is_empty());
    assert!(!state.contains("a"));
    assert!(state.get("a").is_none());
}

#[test]
fn insert_then_get_returns_the_record() {
    let mut state = state_with_hint(60);
    assert!(state.insert(record("a", Some(50), SandboxStatus::Running, 1)).is_ok());
    let found = state.get("a").expect("present");
    assert_eq!(found.id, "a");
    assert_eq!(found.name, "name-a");
    assert_eq!(found.display_num, Some(50));
    assert_eq!(found.status, SandboxStatus::Running);
    assert!(state.contains("a"));
    assert!(!state.contains("b"));
    assert!(!state.contains("A"));
    assert!(!state.contains(""));
    assert_eq!(state.next_display(), 60);
}

#[test]
fn insert_refuses_a_known_id() {
    let mut state = state_with_hint(60);
    assert!(state.insert(record("a", Some(50), SandboxStatus::Running, 1)).is_ok());
    let again = state.insert(record("a", Some(51), SandboxStatus::Running, 2));
    assert!(matches!(again, Err(ManagerError::Conflict)));
    assert_eq!(state.values().len(), 1);
    assert_eq!(state.get("a").unwrap().display_num, Some(50));
}

#[test]
fn insert_refuses_a_display_at_or_above_the_hint() {
    let mut state = state_with_hint(60);
    let at_hint = state.insert(record("a", Some(60), SandboxStatus::Running, 1));
    assert!(matches!(at_hint, Err(ManagerError::Conflict)));
    let stopped_above = state.insert(record("b", Some(61), SandboxStatus::Stopped, 1));
    assert!(matches!(stopped_above, Err(ManagerError::Conflict)));
    assert!(state.values().is_empty());
    assert!(state.insert(record("c", Some(59), SandboxStatus::Running, 1)).is_ok());
}

#[test]
fn insert_refuses_a_display_held_by_a_running_record() {
    let mut state = state_with_hint(60);
    assert!(state.insert(record("a", Some(50), SandboxStatus::Running, 1)).is_ok());
    let clash = state.insert(record("b", Some(50), SandboxStatus::Running, 2));
    assert!(matches!(clash, Err(ManagerError::Conflict)));
    assert!(!state.contains("b"));
}

#[test]
fn insert_accepts_a_display_whose_holder_has_stopped() {
    let mut state = state_with_hint(60);
    assert!(state.insert(record("a", Some(50), SandboxStatus::Running, 1)).is_ok());
    assert!(state.mark_stopped("a").is_some());
    assert!(state.insert(record("b", Some(50), SandboxStatus::Running, 2)).is_ok());
    assert!(state.contains("b"));
}

#[test]
fn insert_accepts_records_without_display() {
    let mut state = ManagerState::default();
    assert!(state.insert(record("a", None, SandboxStatus::Running, 1)).is_ok());
    assert!(state.insert(record("b", None, SandboxStatus::Running, 1)).is_ok());
    assert_eq!(state.values().len(), 2);
}

#[test]
fn claim_display_moves_the_hint_past_the_number() {
    let mut state = ManagerState::default();
    assert!(matches!(state.claim_display(Ok(53)), Ok(53)));
    assert_eq!(state.next_display(), 54);
    assert!(matches!(state.claim_display(Ok(54)), Ok(54)));
    assert_eq!(state.next_display(), 55);
}

#[test]
fn claim_display_refuses_what_no_search_can_have_found() {
    let mut state = ManagerState::default();
    assert!(matches!(state.claim_display(Ok(49)), Err(ManagerError::ResourceExhausted)));
    assert!(matches!(state.claim_display(Ok(u32::MAX)), Err(ManagerError::ResourceExhausted)));
    assert!(matches!(
        state.claim_display(Err(ManagerError::ResourceExhausted)),
        Err(ManagerError::ResourceExhausted)
    ));
    assert_eq!(state.next_display(), 50);
}

#[test]
fn reserve_display_fails_at_the_top_of_the_range() {
    let mut state = state_with_hint(u32::MAX);
    assert!(matches!(state.reserve_display(), Err(ManagerError::ResourceExhausted)));
    assert_eq!(state.next_display(), u32::MAX);
}

#[test]
fn reserve_display_never_hands_out_a_number_twice() {
    let mut state = state_with_hint(3_000_000_000);
    let first = state.reserve_display().expect("free display");
    let second = state.reserve_display().expect("free display");
    assert!(first >= 3_000_000_000);
    assert!(second > first);
    assert_eq!(state.next_display(), second + 1);
}

#[test]
fn no_two_running_records_share_a_display() {
    let mut state = state_with_hint(100);
    for (i, id) in ["a", "b", "c", "d"].iter().enumerate() {
        let _ = state.insert(record(id, Some(50 + (i as u32) % 2), SandboxStatus::Running, 1));
    }
    let running: Vec<u32> = state
        .values()
        .iter()
        .filter(|sb| sb.status == SandboxStatus::Running)
        .filter_map(|sb| sb.display_num)
        .collect();
    assert_eq!(running.len(), 2);
    assert_ne!(running[0], running[1]);
}

#[test]
fn mark_stopped_changes_only_the_status() {
    let mut state = state_with_hint(60);
    assert!(state.insert(record("a", Some(50), SandboxStatus::Running, 1)).is_ok());
    assert!(state.insert(record("b", Some(51), SandboxStatus::Running, 2)).is_ok());
    let before = state.mark_stopped("a").expect("present");
    assert_eq!(before.status, SandboxStatus::Running);
    let after = state.get("a").unwrap();
    assert_eq!(after.status, SandboxStatus::Stopped);
    assert_eq!(after.display_num, Some(50));
    assert_eq!(after.pid_xvfb, Some(1050));
    assert_eq!(after.name, "name-a");
    assert_eq!(state.get("b").unwrap().status, SandboxStatus::Running);
    assert!(state.mark_stopped("zz").is_none());
}

#[test]
fn remove_takes_the_record_out() {
    let mut state = state_with_hint(60);
    assert!(state.insert(record("a", Some(50), SandboxStatus::Running, 1)).is_ok());
    assert!(state.insert(record("b", Some(51), SandboxStatus::Running, 2)).is_ok());
    let gone = state.remove("a").expect("present");
    assert_eq!(gone.id, "a");
    assert!(!state.contains("a"));
    assert!(state.contains("b"));
    assert!(state.remove("a").is_none());
    assert_eq!(state.next_display(), 60);
}

#[test]
fn reconcile_marks_running_records_with_gone_sessions_dead() {
    let mut state = state_with_hint(60);
    assert!(state.insert(record("a", Some(50), SandboxStatus::Running, 1)).is_ok());
    assert!(state.insert(record("b", Some(51), SandboxStatus::Running, 2)).is_ok());
    assert!(state.insert(record("c", Some(52), SandboxStatus::Stopped, 3)).is_ok());
    state.reconcile_pids(&vec!["sandbox-a".to_string(), "sandbox-c".to_string()]);
    assert_eq!(state.get("a").unwrap().status, SandboxStatus::Dead);
    assert_eq!(state.get("b").unwrap().status, SandboxStatus::Running);
    assert_eq!(state.get("c").unwrap().status, SandboxStatus::Stopped);
    assert_eq!(state.values().len(), 3);
}

#[test]
fn reconcile_never_revives_or_changes_stopped_and_dead_records() {
    let mut state = state_with_hint(60);
    assert!(state.insert(record("a", Some(50), SandboxStatus::Dead, 1)).is_ok());
    assert!(state.insert(record("b", Some(51), SandboxStatus::Stopped, 2)).is_ok());
    state.reconcile_pids(&Vec::new());
    assert_eq!(state.get("a").unwrap().status, SandboxStatus::Dead);
    assert_eq!(state.get("b").unwrap().status, SandboxStatus::Stopped);
    state.reconcile_pids(&vec!["sandbox-a".to_string(), "sandbox-b".to_string()]);
    assert_eq!(state.get("a").unwrap().status, SandboxStatus::Dead);
    assert_eq!(state.get("b").unwrap().status, SandboxStatus::Stopped);
}

#[test]
fn reconcile_leaves_a_running_record_without_session_alone() {
    let mut state = ManagerState::default();
    let mut sb = record("a", None, SandboxStatus::Running, 1);
    sb.tmux_session = None;
    assert!(state.insert(sb).is_ok());
    state.reconcile_pids(&vec!["sandbox-a".to_string()]);
    assert_eq!(state.get("a").unwrap().status, SandboxStatus::Running);
}

#[test]
fn running_sessions_lists_the_sessions_to_look_at() {
    let mut state = state_with_hint(60);
    assert!(state.insert(record("a", Some(50), SandboxStatus::Running, 1)).is_ok());
    assert!(state.insert(record("b", Some(51), SandboxStatus::Stopped, 2)).is_ok());
    assert!(state.insert(record("c", Some(52), SandboxStatus::Running, 3)).is_ok());
    let mut sessions = state.running_sessions();
    sessions.sort();
    assert_eq!(sessions, vec!["sandbox-a".to_string(), "sandbox-c".to_string()]);
}

#[test]
fn list_puts_the_most_recent_first() {
    let mut state = state_with_hint(60);
    assert!(state.insert(record("old", Some(50), SandboxStatus::Running, 10)).is_ok());
    assert!(state.insert(record("new", Some(51), SandboxStatus::Running, 30)).is_ok());
    assert!(state.insert(record("mid", Some(52), SandboxStatus::Stopped, 20)).is_ok());
    let mut sub = record("sub", Some(53), SandboxStatus::Running, 20);
    sub.created_at = Timestamp { secs: 20, nanos: 5 };
    assert!(state.insert(sub).is_ok());
    let ids: Vec<String> = state.list().iter().map(|sb| sb.id.clone()).collect();
    assert_eq!(ids, vec!["new", "sub", "mid", "old"]);
}

#[test]
fn list_of_an_empty_registry_is_empty() {
    assert!(ManagerState::default().list().is_empty());
}

#[test]
fn snapshot_round_trip_keeps_ids_statuses_and_backends() {
    let mut state = state_with_hint(70);
    assert!(state.insert(record("a", Some(50), SandboxStatus::Running, 1)).is_ok());
    let mut vm = record("b", None, SandboxStatus::Running, 2);
    vm.backend = Backend::Vm;
    vm.qemu_qmp_socket = Some("/run/manager/qmp-b.sock".to_string());
    assert!(state.insert(vm).is_ok());
    assert!(state.insert(record("c", Some(51), SandboxStatus::Running, 3)).is_ok());
    assert!(state.mark_stopped("c").is_some());
    assert!(state.remove("a").is_some());

    let snapshot = state.save();
    assert_eq!(snapshot.next_display, 70);
    assert_eq!(snapshot.sandboxes.len(), 2);
    let reloaded = ManagerState::load(Some(snapshot));
    assert_eq!(reloaded.next_display(), 70);
    assert_eq!(reloaded.values().len(), 2);
    for sb in state.values() {
        let twin = reloaded.get(&sb.id).expect("same ids");
        assert_eq!(twin.status, sb.status);
        assert_eq!(twin.backend, sb.backend);
        assert_eq!(twin.display_num, sb.display_num);
        assert_eq!(twin.qemu_qmp_socket, sb.qemu_qmp_socket);
        assert_eq!(twin.created_at, sb.created_at);
    }
    assert!(!reloaded.contains("a"));
}

#[test]
fn load_without_snapshot_starts_empty() {
    let state = ManagerState::load(None);
    assert_eq!(state.next_display(), 50);
    assert!(state.values().is_empty());
}

#[test]
fn load_of_an_invalid_snapshot_starts_empty() {
    let twice = Snapshot {
        sandboxes: vec![
            record("a", Some(50), SandboxStatus::Running, 1),
            record("a", Some(51), SandboxStatus::Running, 2),
        ],
        next_display: 60,
    };
    let state = ManagerState::load(Some(twice));
    assert_eq!(state.next_display(), 50);
    assert!(state.values().is_empty());

    let shared = Snapshot {
        sandboxes: vec![
            record("a", Some(50), SandboxStatus::Running, 1),
            record("b", Some(50), SandboxStatus::Running, 2),
        ],
        next_display: 60,
    };
    assert!(ManagerState::load(Some(shared)).values().is_empty());

    let above = Snapshot {
        sandboxes: vec![record("a", Some(60), SandboxStatus::Stopped, 1)],
        next_display: 60,
    };
    let state = ManagerState::load(Some(above));
    assert_eq!(state.next_display(), 50);
    assert!(state.values().is_empty());
}

#[test]
fn load_accepts_a_display_shared_with_a_stopped_record() {
    let shared = Snapshot {
        sandboxes: vec![
            record("a", Some(50), SandboxStatus::Stopped, 1),
            record("b", Some(50), SandboxStatus::Running, 2),
        ],
        next_display: 51,
    };
    let state = ManagerState::load(Some(shared));
    assert_eq!(state.next_display(), 51);
    assert_eq!(state.values().len(), 2);
}
