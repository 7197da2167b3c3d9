//! The contract of a pipeline stage, and the check that a chain of stages
//! can be composed.
//!
//! A stage takes events from a broadcast stream, sends events on to another,
//! and may send instructions that change what is watched. What it needs from
//! the stages in front of it and what it provides to those behind it is known
//! without an instance, so that a chain is checked before anything runs.

use vstd::prelude::*;
use multiqueue::{BroadcastFutReceiver, BroadcastFutSender};
use std::sync::Arc;
use crate::event::{Error, Event};

verus! {

/// The receiving half of a broadcast queue of `multiqueue`.
#[verifier::external_type_specification]
#[verifier::external_body]
#[verifier::reject_recursive_types(T)]
pub struct ExBroadcastFutReceiver<T: Clone>(BroadcastFutReceiver<T>);

/// The sending half of a broadcast queue of `multiqueue`.
#[verifier::external_type_specification]
#[verifier::external_body]
#[verifier::reject_recursive_types(T)]
pub struct ExBroadcastFutSender<T: Clone>(BroadcastFutSender<T>);

/// A tag for a feature that a stage needs or provides.
#[derive(Clone, Copy, Debug, PartialEq, Eq, Structural, Hash)]
pub struct Capability {
    pub tag: u32,
}

/// A request of a stage to the layer that drives the watcher.
#[derive(Debug, PartialEq, Eq, Hash)]
pub enum Instruction {
    AddWatch(Vec<String>),
    RemoveWatch(Vec<String>),
}

pub enum InstructionModel {
    AddWatch(Seq<Seq<char>>),
    RemoveWatch(Seq<Seq<char>>),
}

/// The texts of a list of paths, in order.
pub open spec fn path_texts(paths: Seq<String>) -> Seq<Seq<char>> {
    Seq::new(paths.len(), |i: int| paths[i]@)
}

impl View for Instruction {
    type V = InstructionModel;

    open spec fn view(&self) -> InstructionModel {
        match self {
            Instruction::AddWatch(paths) => InstructionModel::AddWatch(path_texts(paths@)),
            Instruction::RemoveWatch(paths) => InstructionModel::RemoveWatch(path_texts(paths@)),
        }
    }
}

fn copy_paths(paths: &Vec<String>) -> (copy: Vec<String>)
    ensures
        copy@ == paths@,
{
    let mut copy: Vec<String> = Vec::new();
    let mut i: usize = 0;
    while i < paths.len()
        invariant
            i <= paths@.len(),
            copy@ == paths@.subrange(0, i as int),
        decreases paths@.len() - i,
    {
        copy.push(paths[i].clone());
        assert(copy@ =~= paths@.subrange(0, i + 1));
        i = i + 1;
    }
    assert(copy@ =~= paths@);
    copy
}

impl Clone for Instruction {
    fn clone(&self) -> (copy: Instruction)
        ensures
            copy@ == self@,
    {
        match self {
            Instruction::AddWatch(paths) => Instruction::AddWatch(copy_paths(paths)),
            Instruction::RemoveWatch(paths) => Instruction::RemoveWatch(copy_paths(paths)),
        }
    }
}

/// Where a stage is in its life.
#[derive(Clone, Copy, Debug, PartialEq, Eq, Structural, Hash)]
pub enum Stage {
    Constructed,
    Spawned,
    Finished,
}

/// A pipeline stage, as its author writes it. How a stage behaves is its
/// own matter; [`Lifecycle`] sees to it that its operations are called in
/// order.
pub trait Processor: Sized + std::fmt::Debug {
    /// The capabilities that every stage of this type needs.
    fn needs_capabilities() -> Vec<Capability>;

    /// The capabilities that every stage of this type provides.
    fn provides_capabilities() -> Vec<Capability>;

    fn new(
        events_in: BroadcastFutReceiver<Event>,
        events_out: BroadcastFutSender<Event>,
        instruct: BroadcastFutSender<Instruction>,
    ) -> Result<Box<Self>, Error>;

    /// Begins processing, without blocking the caller.
    fn spawn(&mut self);

    /// Tells the stage which paths are watched now.
    fn update_watches(&mut self, paths: Arc<Vec<String>>) -> Result<(), Error>;

    /// Asks the stage to end. After it returns the stage sends nothing more.
    fn finish(&mut self);
}

/// The stage that follows `stage` when the operation is `spawn`.
pub open spec fn after_spawn(stage: Stage) -> Stage {
    if stage == Stage::Constructed {
        Stage::Spawned
    } else {
        stage
    }
}

/// The stage that follows `stage` when the operation is `finish`.
pub open spec fn after_finish(stage: Stage) -> Stage {
    if stage == Stage::Spawned {
        Stage::Finished
    } else {
        stage
    }
}

/// A stage together with its place in life. A stage is constructed, then
/// spawned, then finished, and is told of the watched paths only while it
/// runs; an operation that is out of turn is not handed on to the stage.
pub struct Lifecycle<P: Processor> {
    stage: Stage,
    processor: Box<P>,
}

impl<P: Processor> Lifecycle<P> {
    /// Where the stage is in its life.
    pub closed spec fn spec_stage(&self) -> Stage {
        self.stage
    }

    /// Takes a stage that was just made.
    pub fn new(processor: Box<P>) -> (made: Lifecycle<P>)
        ensures
            made.spec_stage() == Stage::Constructed,
    {
        Lifecycle { stage: Stage::Constructed, processor }
    }

    pub fn stage(&self) -> (stage: Stage)
        ensures
            stage == self.spec_stage(),
    {
        self.stage
    }

    /// Spawns a stage that was constructed and not spawned yet; tells whether
    /// it did.
    pub fn spawn(&mut self) -> (spawned: bool)
        ensures
            spawned == (old(self).spec_stage() == Stage::Constructed),
            final(self).spec_stage() == after_spawn(old(self).spec_stage()),
    {
        if self.stage == Stage::Constructed {
            self.processor.spawn();
            self.stage = Stage::Spawned;
            true
        } else {
            false
        }
    }

    /// Hands the watched paths to a running stage and returns its answer;
    /// `None` for a stage that does not run.
    pub fn update_watches(&mut self, paths: Arc<Vec<String>>) -> (told: Option<Result<(), Error>>)
        ensures
            told is Some <==> old(self).spec_stage() == Stage::Spawned,
            final(self).spec_stage() == old(self).spec_stage(),
    {
        if self.stage == Stage::Spawned {
            Some(self.processor.update_watches(paths))
        } else {
            None
        }
    }

    /// Finishes a running stage; tells whether it did. A finished stage is
    /// never called again.
    pub fn finish(&mut self) -> (finished: bool)
        ensures
            finished == (old(self).spec_stage() == Stage::Spawned),
            final(self).spec_stage() == after_finish(old(self).spec_stage()),
    {
        if self.stage == Stage::Spawned {
            self.processor.finish();
            self.stage = Stage::Finished;
            true
        } else {
            false
        }
    }
}

/// What a type of stage needs and provides.
pub struct Descriptor {
    pub needs: Vec<Capability>,
    pub provides: Vec<Capability>,
}

/// Whether every needed capability is among the provided ones.
pub open spec fn covers(provided: Seq<Capability>, needed: Seq<Capability>) -> bool {
    forall|i: int| 0 <= i < needed.len() ==> provided.contains(#[trigger] needed[i])
}

/// What is provided in front of stage `k` of a chain: what the source
/// provides, and what each stage before `k` provides.
pub open spec fn provided_before(source: Seq<Capability>, chain: Seq<Descriptor>, k: int) -> Seq<
    Capability,
>
    decreases k,
{
    if k <= 0 {
        source
    } else {
        provided_before(source, chain, k - 1) + chain[k - 1].provides@
    }
}

/// Whether stage `k` of the chain finds in front of it all that it needs.
pub open spec fn stage_fits(source: Seq<Capability>, chain: Seq<Descriptor>, k: int) -> bool {
    covers(provided_before(source, chain, k), chain[k].needs@)
}

fn has_capability(provided: &Vec<Capability>, wanted: Capability) -> (found: bool)
    ensures
        found == provided@.contains(wanted),
{
    let mut i: usize = 0;
    while i < provided.len()
        invariant
            i <= provided@.len(),
            forall|j: int| 0 <= j < i ==> provided@[j] != wanted,
        decreases provided@.len() - i,
    {
        if provided[i] == wanted {
            return true;
        }
        i = i + 1;
    }
    false
}

/// Tells whether every needed capability is among the provided ones.
pub fn provides_all(provided: &Vec<Capability>, needed: &Vec<Capability>) -> (all: bool)
    ensures
        all == covers(provided@, needed@),
{
    let mut i: usize = 0;
    while i < needed.len()
        invariant
            i <= needed@.len(),
            forall|j: int| 0 <= j < i ==> provided@.contains(#[trigger] needed@[j]),
        decreases needed@.len() - i,
    {
        if !has_capability(provided, needed[i]) {
            return false;
        }
        i = i + 1;
    }
    true
}

/// Checks a chain of stages behind a source, before any stage is made. The
/// chain is rejected with the place of the first stage that needs a
/// capability which neither the source nor a stage in front of it provides.
pub fn check_chain(source: &Vec<Capability>, chain: &Vec<Descriptor>) -> (verdict: Result<
    (),
    usize,
>)
    ensures
        verdict is Ok <==> forall|k: int| 0 <= k < chain@.len() ==> stage_fits(
            source@,
            chain@,
            k,
        ),
        verdict is Err ==> {
            let at = verdict.unwrap_err();
            &&& at < chain@.len()
            &&& !stage_fits(source@, chain@, at as int)
            &&& forall|k: int| 0 <= k < at ==> stage_fits(source@, chain@, k)
        },
{
    let mut available: Vec<Capability> = Vec::new();
    let mut j: usize = 0;
    while j < source.len()
        invariant
            j <= source@.len(),
            available@ == source@.subrange(0, j as int),
        decreases source@.len() - j,
    {
        available.push(source[j]);
        assert(available@ =~= source@.subrange(0, j + 1));
        j = j + 1;
    }
    assert(available@ =~= source@);
    let mut k: usize = 0;
    while k < chain.len()
        invariant
            k <= chain@.len(),
            available@ == provided_before(source@, chain@, k as int),
            forall|i: int| 0 <= i < k ==> stage_fits(source@, chain@, i),
        decreases chain@.len() - k,
    {
        if !provides_all(&available, &chain[k].needs) {
            assert(!stage_fits(source@, chain@, k as int));
            return Err(k);
        }
        let given = &chain[k].provides;
        let ghost before = available@;
        let mut i: usize = 0;
        while i < given.len()
            invariant
                i <= given@.len(),
                available@ == before + given@.subrange(0, i as int),
            decreases given@.len() - i,
        {
            available.push(given[i]);
            assert(available@ =~= before + given@.subrange(0, i + 1));
            i = i + 1;
        }
        assert(given@.subrange(0, given@.len() as int) =~= given@);
        k = k + 1;
    }
    Ok(())
}

} // verus!
