use sandbox_manager::display::{
    allocate_display, display_lock_path, display_name, first_free_display, is_display_in_use,
};
use sandbox_manager::error::ManagerError;
use sandbox_manager::record::{default_true, Backend, Sandbox, SandboxStatus, Timestamp};
use sandbox_manager::screenshot::{capture_source, capture_targets, CaptureSource, ScreenshotCache};
use sandbox_manager::state::{ManagerState, Snapshot};
use sandbox_manager::text::{char_prefix, contains_text, format_decimal, join, push_decimal};

fn record(id: &str, backend: Backend, display: Option<u32>, socket: Option<&str>, status: SandboxStatus) -> Sandbox {
    Sandbox {
        id: id.to_string(),
        name: id.to_string(),
        backend,
        project_dir: "/tmp/x".to_string(),
        status,
        display_num: display,
        tmux_session: Some(format!("sandbox-{}", id)),
        pid_xvfb: None,
        qemu_qmp_socket: socket.map(|s| s.to_string()),
        network: true,
        created_at: Timestamp { secs: 1, nanos: 0 },
    }
}

#[test]
fn decimal_numerals() {
    assert_eq!(format_decimal(0), "0");
    assert_eq!(format_decimal(7), "7");
    assert_eq!(format_decimal(10), "10");
    assert_eq!(format_decimal(50), "50");
    assert_eq!(format_decimal(1234567890), "1234567890");
    assert_eq!(format_decimal(4294967295), "4294967295");
    assert_eq!(format_decimal(u64::MAX), "18446744073709551615");
    let mut out = "n=".to_string();
    push_decimal(&mut out, 305);
    assert_eq!(out, "n=305");
}

#[test]
fn text_helpers() {
    assert_eq!(join("ab", "cd"), "abcd");
    assert_eq!(join("", ""), "");
    assert_eq!(char_prefix("0123456789", 8), "01234567");
    assert_eq!(char_prefix("abc", 8), "abc");
    assert_eq!(char_prefix("", 8), "");
    assert_eq!(char_prefix("\u{e9}\u{e9}\u{e9}", 2), "\u{e9}\u{e9}");
    let list = vec!["a".to_string(), "bc".to_string()];
    assert!(contains_text(&list, "bc"));
    assert!(!contains_text(&list, "b"));
    assert!(!contains_text(&list, "abc"));
    assert!(!contains_text(&Vec::new(), ""));
}

#[test]
fn display_lock_path_and_name() {
    assert_eq!(display_lock_path(50), "/tmp/.X50-lock");
    assert_eq!(display_lock_path(0), "/tmp/.X0-lock");
    assert_eq!(display_lock_path(u32::MAX), "/tmp/.X4294967295-lock");
    assert_eq!(display_name(50), ":50");
    assert_eq!(display_name(7), ":7");
}

#[test]
fn allocate_display_finds_a_number_at_or_above_the_start() {
    let found = allocate_display(3_200_000_000).expect("a free display");
    assert!(found >= 3_200_000_000);
    assert!(found < u32::MAX);
    assert!(!is_display_in_use(found));
}

#[test]
fn first_free_display_is_the_smallest_free_number() {
    let taken = vec![50u32, 51, 52, 54];
    assert!(matches!(first_free_display(50, |n| taken.contains(&n)), Ok(53)));
    assert!(matches!(first_free_display(53, |n| taken.contains(&n)), Ok(53)));
    assert!(matches!(first_free_display(54, |n| taken.contains(&n)), Ok(55)));
    assert!(matches!(first_free_display(0, |n| taken.contains(&n)), Ok(0)));
    assert!(matches!(first_free_display(7, |_| false), Ok(7)));
}

#[test]
fn first_free_display_fails_when_all_are_taken() {
    let start = u32::MAX - 3;
    assert!(matches!(first_free_display(start, |_| true), Err(ManagerError::ResourceExhausted)));
    assert!(matches!(
        first_free_display(u32::MAX, |_| false),
        Err(ManagerError::ResourceExhausted)
    ));
    assert!(matches!(first_free_display(start, |n| n < u32::MAX - 1), Ok(n) if n == u32::MAX - 1));
}

#[test]
fn allocate_display_fails_at_the_top_of_the_range() {
    assert!(matches!(allocate_display(u32::MAX), Err(ManagerError::ResourceExhausted)));
}

#[test]
fn backend_and_status_labels() {
    assert_eq!(Backend::Bubblewrap.label(), "bubblewrap");
    assert_eq!(Backend::Container.label(), "container");
    assert_eq!(Backend::Vm.label(), "vm");
    assert_eq!(SandboxStatus::Running.label(), "running");
    assert_eq!(SandboxStatus::Stopped.label(), "stopped");
    assert_eq!(SandboxStatus::Dead.label(), "dead");
    assert!(Backend::Bubblewrap.requires_display());
    assert!(Backend::Container.requires_display());
    assert!(!Backend::Vm.requires_display());
    assert!(default_true());
}

#[test]
fn short_id_and_running() {
    let sb = record("3f2a9c1e-0b7d-4e5f", Backend::Vm, None, None, SandboxStatus::Running);
    assert_eq!(sb.short_id(), "3f2a9c1e");
    assert!(sb.is_running());
    let short = record("abc", Backend::Vm, None, None, SandboxStatus::Dead);
    assert_eq!(short.short_id(), "abc");
    assert!(!short.is_running());
    assert!(!sb.with_status(SandboxStatus::Stopped).is_running());
    assert_eq!(sb.clone().id, sb.id);
}

#[test]
fn timestamps_are_ordered_by_seconds_then_nanoseconds() {
    let a = Timestamp { secs: 5, nanos: 10 };
    let b = Timestamp { secs: 5, nanos: 11 };
    let c = Timestamp { secs: 6, nanos: 0 };
    let d = Timestamp { secs: -1, nanos: 999 };
    assert!(a.is_before(&b));
    assert!(b.is_before(&c));
    assert!(a.is_before(&c));
    assert!(d.is_before(&a));
    assert!(!b.is_before(&a));
    assert!(!a.is_before(&a));
    assert!(!c.is_before(&d));
}

#[test]
fn capture_source_prefers_the_display() {
    let with_display = record("a", Backend::Bubblewrap, Some(50), Some("/s"), SandboxStatus::Running);
    assert!(matches!(capture_source(&with_display), Some(CaptureSource::Display { display_num: 50 })));
    let vm = record("b", Backend::Vm, None, Some("/run/qmp-b.sock"), SandboxStatus::Running);
    match capture_source(&vm) {
        Some(CaptureSource::ControlSocket { path }) => assert_eq!(path, "/run/qmp-b.sock"),
        other => panic!("unexpected source {:?}", other),
    }
    let bare = record("c", Backend::Vm, None, None, SandboxStatus::Running);
    assert!(capture_source(&bare).is_none());
}

#[test]
fn capture_targets_are_the_running_sandboxes_with_a_source() {
    let mut state = ManagerState::load(Some(Snapshot { sandboxes: Vec::new(), next_display: 60 }));
    assert!(state.insert(record("a", Backend::Bubblewrap, Some(50), None, SandboxStatus::Running)).is_ok());
    assert!(state.insert(record("b", Backend::Vm, None, Some("/run/qmp-b.sock"), SandboxStatus::Running)).is_ok());
    assert!(state.insert(record("c", Backend::Bubblewrap, Some(51), None, SandboxStatus::Stopped)).is_ok());
    assert!(state.insert(record("d", Backend::Vm, None, None, SandboxStatus::Running)).is_ok());
    assert!(state.insert(record("e", Backend::Container, Some(52), None, SandboxStatus::Dead)).is_ok());
    let mut targets: Vec<(String, String)> = capture_targets(&state)
        .into_iter()
        .map(|t| {
            let source = match t.source {
                CaptureSource::Display { display_num } => format!("display {}", display_num),
                CaptureSource::ControlSocket { path } => format!("socket {}", path),
            };
            (t.id, source)
        })
        .collect();
    targets.sort();
    assert_eq!(
        targets,
        vec![
            ("a".to_string(), "display 50".to_string()),
            ("b".to_string(), "socket /run/qmp-b.sock".to_string()),
        ]
    );
    assert!(capture_targets(&ManagerState::default()).is_empty());
}

#[test]
fn screenshot_cache_keeps_the_last_image() {
    let mut cache = ScreenshotCache::new();
    assert!(!cache.contains_key("a"));
    assert!(cache.get("a").is_none());
    cache.insert("a".to_string(), vec![1, 2, 3]);
    cache.store("b".to_string(), Some(vec![9]));
    assert_eq!(cache.get("a"), Some(&vec![1, 2, 3]));
    assert_eq!(cache.get("b"), Some(&vec![9]));
    cache.store("a".to_string(), Some(vec![4]));
    assert_eq!(cache.get("a"), Some(&vec![4]));
    cache.store("a".to_string(), None);
    assert_eq!(cache.get("a"), Some(&vec![4]));
    cache.store("c".to_string(), None);
    assert!(!cache.contains_key("c"));
    cache.remove("a");
    assert!(!cache.contains_key("a"));
    assert!(cache.contains_key("b"));
    cache.remove("a");
    assert!(cache.get("a").is_none());
}
