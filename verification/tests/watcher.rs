use dirwatch::event::Error;
use dirwatch::registry::Action;
use dirwatch::watcher::{send_outcome, unwatch_action, watch_action, ReadDirectoryChangesWatcher};
use std::sync::mpsc::channel;

#[test]
fn watch_and_unwatch_queue_actions_in_order() {
    let (tx, rx) = channel();
    let mut watcher = ReadDirectoryChangesWatcher::new(tx).unwrap();
    assert_eq!(watcher.watch("D"), Ok(()));
    assert_eq!(watcher.unwatch("D"), Ok(()));
    assert_eq!(rx.try_recv(), Ok(Action::Watch("D".to_string())));
    assert_eq!(rx.try_recv(), Ok(Action::Unwatch("D".to_string())));
    assert!(rx.try_recv().is_err());
}

#[test]
fn dropping_the_watcher_queues_stop_once() {
    let (tx, rx) = channel();
    let watcher = ReadDirectoryChangesWatcher::new(tx).unwrap();
    drop(watcher);
    assert_eq!(rx.try_recv(), Ok(Action::Stop));
    assert!(rx.try_recv().is_err());
}

#[test]
fn closed_channel_gives_generic_error() {
    let (tx, rx) = channel();
    let mut watcher = ReadDirectoryChangesWatcher::new(tx).unwrap();
    drop(rx);
    let expected = Err(Error::Generic("Error sending to internal channel".to_string()));
    assert_eq!(watcher.watch("D"), expected);
    assert_eq!(watcher.unwatch("D"), expected);
}

#[test]
fn send_outcome_tells_of_delivery() {
    assert_eq!(send_outcome(true), Ok(()));
    assert_eq!(
        send_outcome(false),
        Err(Error::Generic("Error sending to internal channel".to_string()))
    );
}

#[test]
fn actions_carry_the_path() {
    assert_eq!(watch_action("D/sub"), Action::Watch("D/sub".to_string()));
    assert_eq!(unwatch_action("D/sub"), Action::Unwatch("D/sub".to_string()));
}
