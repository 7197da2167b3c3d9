use dirwatch::event::{Error, Event};
use dirwatch::processor::{
    check_chain, provides_all, Capability, Descriptor, Instruction, Lifecycle, Processor, Stage,
};
use multiqueue::{broadcast_fut_queue, BroadcastFutReceiver, BroadcastFutSender};
use std::sync::Arc;

const X: Capability = Capability { tag: 1 };
const Y: Capability = Capability { tag: 2 };
const Z: Capability = Capability { tag: 3 };

fn stage(needs: Vec<Capability>, provides: Vec<Capability>) -> Descriptor {
    Descriptor { needs, provides }
}

#[derive(Debug)]
struct Counting {
    spawned: bool,
    finished: bool,
    watched: usize,
}

impl Processor for Counting {
    fn needs_capabilities() -> Vec<Capability> {
        vec![X]
    }

    fn provides_capabilities() -> Vec<Capability> {
        vec![Y]
    }

    fn new(
        _events_in: BroadcastFutReceiver<Event>,
        _events_out: BroadcastFutSender<Event>,
        _instruct: BroadcastFutSender<Instruction>,
    ) -> Result<Box<Self>, Error> {
        Ok(Box::new(Counting { spawned: false, finished: false, watched: 0 }))
    }

    fn spawn(&mut self) {
        self.spawned = true;
    }

    fn update_watches(&mut self, paths: Arc<Vec<String>>) -> Result<(), Error> {
        self.watched = paths.len();
        Ok(())
    }

    fn finish(&mut self) {
        self.finished = true;
    }
}

#[test]
fn stage_without_its_capability_upstream_is_rejected() {
    let chain = vec![stage(vec![X], vec![])];
    assert_eq!(check_chain(&vec![], &chain), Err(0));
    assert_eq!(check_chain(&vec![Y, Z], &chain), Err(0));
}

#[test]
fn stage_with_its_capability_upstream_is_accepted() {
    let chain = vec![stage(vec![X], vec![])];
    assert_eq!(check_chain(&vec![X], &chain), Ok(()));
    let chain = vec![stage(vec![], vec![X]), stage(vec![X], vec![Y]), stage(vec![X, Y], vec![])];
    assert_eq!(check_chain(&vec![], &chain), Ok(()));
}

#[test]
fn capability_provided_downstream_does_not_count() {
    let chain = vec![stage(vec![], vec![Y]), stage(vec![X], vec![]), stage(vec![], vec![X])];
    assert_eq!(check_chain(&vec![], &chain), Err(1));
}

#[test]
fn first_unfit_stage_is_named() {
    let chain = vec![stage(vec![], vec![]), stage(vec![Z], vec![]), stage(vec![X], vec![])];
    assert_eq!(check_chain(&vec![Y], &chain), Err(1));
}

#[test]
fn empty_chain_is_accepted() {
    assert_eq!(check_chain(&vec![], &vec![]), Ok(()));
}

#[test]
fn provides_all_checks_every_need() {
    assert!(provides_all(&vec![X, Y], &vec![Y, X, Y]));
    assert!(provides_all(&vec![], &vec![]));
    assert!(!provides_all(&vec![X, Y], &vec![X, Z]));
    assert!(!provides_all(&vec![], &vec![X]));
}

#[test]
fn descriptor_is_known_without_an_instance() {
    let descriptor = stage(Counting::needs_capabilities(), Counting::provides_capabilities());
    assert_eq!(descriptor.needs, vec![X]);
    assert_eq!(descriptor.provides, vec![Y]);
    assert_eq!(check_chain(&vec![], &vec![descriptor]), Err(0));
}

fn counting() -> Lifecycle<Counting> {
    let (events_out, events_in) = broadcast_fut_queue::<Event>(4);
    let (instruct, _instructions) = broadcast_fut_queue::<Instruction>(4);
    Lifecycle::new(Counting::new(events_in, events_out, instruct).unwrap())
}

#[test]
fn stage_goes_through_its_life() {
    let mut life = counting();
    assert_eq!(life.stage(), Stage::Constructed);
    assert!(life.spawn());
    assert_eq!(life.stage(), Stage::Spawned);
    assert_eq!(
        life.update_watches(Arc::new(vec!["D".to_string(), "E".to_string()])),
        Some(Ok(()))
    );
    assert_eq!(life.stage(), Stage::Spawned);
    assert!(life.finish());
    assert_eq!(life.stage(), Stage::Finished);
}

#[test]
fn operations_out_of_turn_are_not_handed_on() {
    let mut life = counting();
    assert_eq!(life.update_watches(Arc::new(vec![])), None);
    assert!(!life.finish());
    assert_eq!(life.stage(), Stage::Constructed);
    assert!(life.spawn());
    assert!(!life.spawn());
    assert!(life.finish());
    assert!(!life.finish());
    assert!(!life.spawn());
    assert_eq!(life.update_watches(Arc::new(vec![])), None);
    assert_eq!(life.stage(), Stage::Finished);
}

#[test]
fn instruction_clone_keeps_the_paths() {
    let add = Instruction::AddWatch(vec!["D".to_string(), "E".to_string()]);
    assert_eq!(add.clone(), add);
    let remove = Instruction::RemoveWatch(vec!["D".to_string()]);
    assert_eq!(remove.clone(), remove);
    assert_ne!(Instruction::AddWatch(vec!["D".to_string()]), remove);
}
