use dirwatch::event::{Error, Event, Op};
use dirwatch::registry::{Action, Command, Registry};

fn record(next: u32, action: u32, name: &str) -> Vec<u8> {
    let units: Vec<u16> = name.encode_utf16().collect();
    let mut buffer = Vec::new();
    buffer.extend_from_slice(&next.to_le_bytes());
    buffer.extend_from_slice(&action.to_le_bytes());
    buffer.extend_from_slice(&(2 * units.len() as u32).to_le_bytes());
    for unit in units {
        buffer.extend_from_slice(&unit.to_le_bytes());
    }
    buffer
}

fn watching(root: &str, handle: u64) -> Registry {
    let mut registry = Registry::new();
    assert_eq!(
        registry.on_action(Action::Watch(root.to_string())),
        vec![Command::Open(root.to_string())]
    );
    assert_eq!(
        registry.on_opened(root.to_string(), Some(handle)),
        vec![Command::Read { handle, request: 0 }]
    );
    registry
}

#[test]
fn new_registry_is_empty_and_running() {
    let registry = Registry::new();
    assert_eq!(registry.watch_count(), 0);
    assert!(!registry.is_stopped());
    assert!(registry.can_issue());
}

#[test]
fn watch_opens_then_reads() {
    let registry = watching("D", 7);
    assert_eq!(registry.watch_count(), 1);
    assert_eq!(registry.handle_of(&"D".to_string()), Some(7));
    assert_eq!(registry.handle_of(&"E".to_string()), None);
}

#[test]
fn completion_issues_next_read_before_events() {
    let mut registry = watching("D", 7);
    let commands = registry.on_completion(0, 0, &record(0, 1, "a.txt"));
    assert_eq!(
        commands,
        vec![
            Command::Read { handle: 7, request: 1 },
            Command::Emit(Event { path: Some("D/a.txt".to_string()), op: Ok(Op::create()) }),
        ]
    );
    assert_eq!(registry.on_completion(0, 0, &record(0, 1, "a.txt")), vec![]);
    let again = registry.on_completion(1, 0, &record(0, 3, "a.txt"));
    assert_eq!(
        again,
        vec![
            Command::Read { handle: 7, request: 2 },
            Command::Emit(Event { path: Some("D/a.txt".to_string()), op: Ok(Op::write()) }),
        ]
    );
}

#[test]
fn rename_is_observed_as_two_events_in_order() {
    let mut registry = watching("D", 7);
    let mut buffer = record(24, 4, "a.txt");
    while buffer.len() < 24 {
        buffer.push(0);
    }
    buffer.extend_from_slice(&record(0, 5, "b.txt"));
    let commands = registry.on_completion(0, 0, &buffer);
    assert_eq!(
        commands,
        vec![
            Command::Read { handle: 7, request: 1 },
            Command::Emit(Event { path: Some("D/a.txt".to_string()), op: Ok(Op::rename()) }),
            Command::Emit(Event { path: Some("D/b.txt".to_string()), op: Ok(Op::rename()) }),
        ]
    );
}

#[test]
fn unwatch_releases_and_silences() {
    let mut registry = watching("D", 7);
    assert_eq!(registry.on_action(Action::Unwatch("D".to_string())), vec![Command::Release(7)]);
    assert_eq!(registry.watch_count(), 0);
    assert_eq!(registry.on_completion(0, 995, &[0u8; 32]), vec![]);
    assert_eq!(registry.on_completion(0, 0, &record(0, 3, "a.txt")), vec![]);
    assert_eq!(registry.watch_count(), 0);
}

#[test]
fn unwatch_of_unknown_root_does_nothing() {
    let mut registry = watching("D", 7);
    assert_eq!(registry.on_action(Action::Unwatch("E".to_string())), vec![]);
    assert_eq!(registry.watch_count(), 1);
}

#[test]
fn failed_open_reports_path_not_found_once() {
    let mut registry = Registry::new();
    assert_eq!(
        registry.on_action(Action::Watch("missing".to_string())),
        vec![Command::Open("missing".to_string())]
    );
    let commands = registry.on_opened("missing".to_string(), None);
    assert_eq!(
        commands,
        vec![Command::Emit(Event { path: None, op: Err(Error::PathNotFound) })]
    );
    assert_eq!(registry.watch_count(), 0);
    assert_eq!(registry.handle_of(&"missing".to_string()), None);
}

#[test]
fn cancelled_read_empties_its_slot() {
    let mut registry = watching("D", 7);
    assert_eq!(registry.on_completion(0, 995, &record(0, 1, "a.txt")), vec![]);
    assert_eq!(registry.watch_count(), 1);
    assert_eq!(registry.on_completion(0, 0, &record(0, 1, "a.txt")), vec![]);
}

#[test]
fn watching_a_root_again_replaces_its_handle() {
    let mut registry = watching("D", 7);
    let commands = registry.on_opened("D".to_string(), Some(9));
    assert_eq!(commands, vec![Command::Release(7), Command::Read { handle: 9, request: 1 }]);
    assert_eq!(registry.watch_count(), 1);
    assert_eq!(registry.handle_of(&"D".to_string()), Some(9));
    assert_eq!(registry.on_completion(0, 0, &record(0, 1, "a.txt")), vec![]);
}

#[test]
fn stop_releases_every_handle_once() {
    let mut registry = watching("D", 7);
    registry.on_opened("E".to_string(), Some(8));
    assert_eq!(
        registry.on_action(Action::Stop),
        vec![Command::Release(7), Command::Release(8)]
    );
    assert!(registry.is_stopped());
    assert_eq!(registry.watch_count(), 0);
    assert_eq!(registry.on_action(Action::Stop), vec![]);
    assert_eq!(registry.on_action(Action::Watch("F".to_string())), vec![]);
    assert_eq!(registry.on_action(Action::Unwatch("D".to_string())), vec![]);
    assert_eq!(registry.on_completion(0, 0, &record(0, 1, "a.txt")), vec![]);
}

#[test]
fn handle_opened_after_stop_is_given_back() {
    let mut registry = Registry::new();
    registry.on_action(Action::Stop);
    assert_eq!(registry.on_opened("D".to_string(), Some(3)), vec![Command::Release(3)]);
    assert_eq!(registry.on_opened("D".to_string(), None), vec![]);
    assert_eq!(registry.watch_count(), 0);
}

#[test]
fn each_watch_reads_under_its_own_id() {
    let mut registry = watching("D", 7);
    assert_eq!(
        registry.on_opened("E".to_string(), Some(8)),
        vec![Command::Read { handle: 8, request: 1 }]
    );
    let commands = registry.on_completion(1, 0, &record(0, 2, "x"));
    assert_eq!(
        commands,
        vec![
            Command::Read { handle: 8, request: 2 },
            Command::Emit(Event { path: Some("E/x".to_string()), op: Ok(Op::remove()) }),
        ]
    );
    let commands = registry.on_completion(0, 0, &record(0, 2, "y"));
    assert_eq!(
        commands,
        vec![
            Command::Read { handle: 7, request: 3 },
            Command::Emit(Event { path: Some("D/y".to_string()), op: Ok(Op::remove()) }),
        ]
    );
}
