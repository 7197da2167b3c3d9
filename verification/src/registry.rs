//! The registry of watched roots.
//!
//! The registry owns the table from root to native handle and, for each
//! watch, the slot of its one pending read, keyed by a request id that is
//! never used twice. It decides; it performs nothing. Each of its operations
//! takes what happened (an action from the queue, the outcome of opening a
//! root, the completion of a read) and returns the commands that the caller
//! is to carry out, in order.

use vstd::prelude::*;
use crate::event::{Error, ErrorModel, Event, EventModel, event_models};
use crate::translator::{decode, decoded};

verus! {

/// The completion code with which the platform reports a cancelled read.
pub const OPERATION_ABORTED: u32 = 995;

/// The longest that the caller's loop waits for completions, in
/// milliseconds, before it drains the action queue again.
pub const WAIT_MILLIS: u32 = 500;

/// A request queued to the registry.
#[derive(Debug, PartialEq, Eq, Hash)]
pub enum Action {
    Watch(String),
    Unwatch(String),
    Stop,
}

pub enum ActionModel {
    Watch(Seq<char>),
    Unwatch(Seq<char>),
    Stop,
}

impl View for Action {
    type V = ActionModel;

    open spec fn view(&self) -> ActionModel {
        match self {
            Action::Watch(root) => ActionModel::Watch(root@),
            Action::Unwatch(root) => ActionModel::Unwatch(root@),
            Action::Stop => ActionModel::Stop,
        }
    }
}

/// What the registry asks its caller to do.
#[derive(Debug, PartialEq, Eq, Hash)]
pub enum Command {
    /// Open a native handle for this root and report the outcome.
    Open(String),
    /// Issue one asynchronous read on the handle, tagged with the request id.
    Read { handle: u64, request: u64 },
    /// Cancel what is in flight on the handle and close it.
    Release(u64),
    /// Send the event to the sink.
    Emit(Event),
}

pub enum CommandModel {
    Open(Seq<char>),
    Read { handle: u64, request: u64 },
    Release(u64),
    Emit(EventModel),
}

impl View for Command {
    type V = CommandModel;

    open spec fn view(&self) -> CommandModel {
        match self {
            Command::Open(root) => CommandModel::Open(root@),
            Command::Read { handle, request } => CommandModel::Read {
                handle: *handle,
                request: *request,
            },
            Command::Release(handle) => CommandModel::Release(*handle),
            Command::Emit(event) => CommandModel::Emit(event@),
        }
    }
}

/// The views of a vector of commands, in order.
pub open spec fn command_models(commands: Seq<Command>) -> Seq<CommandModel> {
    Seq::new(commands.len(), |i: int| commands[i]@)
}

/// One watched root: its handle, and the id of its pending read, if one is
/// outstanding.
pub struct Watch {
    pub root: String,
    pub handle: u64,
    pub pending: Option<u64>,
}

pub struct WatchModel {
    pub root: Seq<char>,
    pub handle: u64,
    pub pending: Option<u64>,
}

impl View for Watch {
    type V = WatchModel;

    open spec fn view(&self) -> WatchModel {
        WatchModel { root: self.root@, handle: self.handle, pending: self.pending }
    }
}

pub open spec fn watch_models(watches: Seq<Watch>) -> Seq<WatchModel> {
    Seq::new(watches.len(), |i: int| watches[i]@)
}

/// The mathematical value of a [`Registry`].
pub struct RegistryModel {
    pub watches: Seq<WatchModel>,
    pub next_request: u64,
    pub stopped: bool,
}

/// Whether some watch has this root.
pub open spec fn watches_root(watches: Seq<WatchModel>, root: Seq<char>) -> bool {
    exists|i: int| 0 <= i < watches.len() && (#[trigger] watches[i]).root == root
}

/// The place of the watch with this root, where there is one.
pub open spec fn position_of_root(watches: Seq<WatchModel>, root: Seq<char>) -> int {
    choose|i: int| 0 <= i < watches.len() && (#[trigger] watches[i]).root == root
}

/// Whether the read with this id is pending on some watch.
pub open spec fn has_pending(watches: Seq<WatchModel>, request: u64) -> bool {
    exists|i: int| 0 <= i < watches.len() && (#[trigger] watches[i]).pending == Some(request)
}

/// The place of the watch on which the read with this id is pending.
pub open spec fn position_of_pending(watches: Seq<WatchModel>, request: u64) -> int {
    choose|i: int| 0 <= i < watches.len() && (#[trigger] watches[i]).pending == Some(request)
}

/// The invariant of the registry: no root is watched twice, no request id is
/// pending on two watches, every pending id was handed out before, and a
/// stopped registry holds no watch.
pub open spec fn valid(m: RegistryModel) -> bool {
    &&& forall|i: int, j: int|
        0 <= i < m.watches.len() && 0 <= j < m.watches.len() && (#[trigger] m.watches[i]).root == (
        #[trigger] m.watches[j]).root ==> i == j
    &&& forall|i: int, j: int|
        0 <= i < m.watches.len() && 0 <= j < m.watches.len() && (
        #[trigger] m.watches[i]).pending is Some && m.watches[i].pending == (
        #[trigger] m.watches[j]).pending ==> i == j
    &&& forall|i: int|
        0 <= i < m.watches.len() && (#[trigger] m.watches[i]).pending is Some
            ==> m.watches[i].pending.unwrap() < m.next_request
    &&& m.stopped ==> m.watches.len() == 0
}

/// One release for each watch, in the order of the table.
pub open spec fn releases(watches: Seq<WatchModel>) -> Seq<CommandModel> {
    Seq::new(watches.len(), |i: int| CommandModel::Release(watches[i].handle))
}

/// One emission for each event, in order.
pub open spec fn emissions(events: Seq<EventModel>) -> Seq<CommandModel> {
    Seq::new(events.len(), |i: int| CommandModel::Emit(events[i]))
}

/// The event that reports a root that could not be opened.
pub open spec fn path_not_found() -> EventModel {
    EventModel { path: None, op: Err(ErrorModel::PathNotFound) }
}

/// The registry after an action. A stopped registry stays as it is. `Watch`
/// changes nothing by itself: the watch is entered when the root was opened.
/// `Unwatch` takes the watch out, if there is one. `Stop` empties the table
/// and is final.
pub open spec fn after_action(m: RegistryModel, action: ActionModel) -> RegistryModel {
    if m.stopped {
        m
    } else {
        match action {
            ActionModel::Watch(_) => m,
            ActionModel::Unwatch(root) => if watches_root(m.watches, root) {
                RegistryModel {
                    watches: m.watches.remove(position_of_root(m.watches, root)),
                    ..m
                }
            } else {
                m
            },
            ActionModel::Stop => RegistryModel { watches: Seq::empty(), stopped: true, ..m },
        }
    }
}

/// The commands that an action gives rise to.
pub open spec fn action_commands(m: RegistryModel, action: ActionModel) -> Seq<CommandModel> {
    if m.stopped {
        Seq::empty()
    } else {
        match action {
            ActionModel::Watch(root) => seq![CommandModel::Open(root)],
            ActionModel::Unwatch(root) => if watches_root(m.watches, root) {
                seq![CommandModel::Release(m.watches[position_of_root(m.watches, root)].handle)]
            } else {
                Seq::empty()
            },
            ActionModel::Stop => releases(m.watches),
        }
    }
}

/// The table without the watch on `root`, if there was one.
pub open spec fn without_root(watches: Seq<WatchModel>, root: Seq<char>) -> Seq<WatchModel> {
    if watches_root(watches, root) {
        watches.remove(position_of_root(watches, root))
    } else {
        watches
    }
}

/// The registry after a root was opened, or could not be. A handle that comes
/// to a running registry becomes the watch on that root, in place of an
/// earlier one, with a fresh request id for its first read.
pub open spec fn after_opened(m: RegistryModel, root: Seq<char>, handle: Option<u64>)
    -> RegistryModel {
    if m.stopped || handle is None {
        m
    } else {
        RegistryModel {
            watches: without_root(m.watches, root).push(
                WatchModel { root, handle: handle.unwrap(), pending: Some(m.next_request) },
            ),
            next_request: (m.next_request + 1) as u64,
            stopped: false,
        }
    }
}

/// The commands that the outcome of opening a root gives rise to: the report
/// of a failure; or the release of the handle that the root had before, if
/// any, and the first read on the new one. A stopped registry gives a handle
/// straight back and reports nothing.
pub open spec fn opened_commands(m: RegistryModel, root: Seq<char>, handle: Option<u64>) -> Seq<
    CommandModel,
> {
    if m.stopped {
        match handle {
            Some(h) => seq![CommandModel::Release(h)],
            None => Seq::empty(),
        }
    } else {
        match handle {
            None => seq![CommandModel::Emit(path_not_found())],
            Some(h) => {
                let read = CommandModel::Read { handle: h, request: m.next_request };
                if watches_root(m.watches, root) {
                    seq![
                        CommandModel::Release(
                            m.watches[position_of_root(m.watches, root)].handle,
                        ),
                        read,
                    ]
                } else {
                    seq![read]
                }
            },
        }
    }
}

/// The registry after the read with id `request` completed with `code`. A
/// completion whose id is pending on no watch changes nothing. A cancelled
/// read empties its slot. Any other completion puts a fresh id in the slot.
pub open spec fn after_completion(m: RegistryModel, request: u64, code: u32) -> RegistryModel {
    if !has_pending(m.watches, request) {
        m
    } else {
        let at = position_of_pending(m.watches, request);
        let watch = m.watches[at];
        if code == OPERATION_ABORTED {
            RegistryModel {
                watches: m.watches.update(at, WatchModel { pending: None, ..watch }),
                ..m
            }
        } else {
            RegistryModel {
                watches: m.watches.update(
                    at,
                    WatchModel { pending: Some(m.next_request), ..watch },
                ),
                next_request: (m.next_request + 1) as u64,
                ..m
            }
        }
    }
}

/// The commands that a completion gives rise to: none for an id that is
/// pending on no watch and none for a cancelled read; else the next read on
/// the same handle first, then the events of the buffer in order.
pub open spec fn completion_commands(
    m: RegistryModel,
    request: u64,
    code: u32,
    buffer: Seq<u8>,
) -> Seq<CommandModel> {
    if !has_pending(m.watches, request) || code == OPERATION_ABORTED {
        Seq::empty()
    } else {
        let watch = m.watches[position_of_pending(m.watches, request)];
        seq![CommandModel::Read { handle: watch.handle, request: m.next_request }] + emissions(
            decoded(buffer, watch.root),
        )
    }
}

/// An action leaves a valid registry valid.
pub proof fn law_action_keeps_valid(m: RegistryModel, action: ActionModel)
    requires
        valid(m),
    ensures
        valid(after_action(m, action)),
{
    let after = after_action(m, action);
    if !m.stopped {
        if let ActionModel::Unwatch(root) = action {
            if watches_root(m.watches, root) {
                let p = position_of_root(m.watches, root);
                assert forall|i: int| 0 <= i < after.watches.len() implies (
                #[trigger] after.watches[i]) == m.watches[if i < p {
                    i
                } else {
                    i + 1
                }] by {}
            }
        }
    }
}

/// The outcome of opening a root leaves a valid registry valid, as long as a
/// request id is left to hand out.
pub proof fn law_opened_keeps_valid(m: RegistryModel, root: Seq<char>, handle: Option<u64>)
    requires
        valid(m),
        m.next_request < u64::MAX,
    ensures
        valid(after_opened(m, root, handle)),
        handle is Some && !m.stopped ==> watches_root(after_opened(m, root, handle).watches, root),
{
    let after = after_opened(m, root, handle);
    if !m.stopped && handle is Some {
        let kept = without_root(m.watches, root);
        let last = kept.len() as int;
        assert(after.watches[last].root == root);
        if watches_root(m.watches, root) {
            let p = position_of_root(m.watches, root);
            assert forall|i: int| 0 <= i < kept.len() implies (#[trigger] kept[i])
                == m.watches[if i < p {
                i
            } else {
                i + 1
            }] by {}
            assert forall|i: int| 0 <= i < kept.len() implies (#[trigger] after.watches[i])
                == m.watches[if i < p {
                i
            } else {
                i + 1
            }] by {
                assert(after.watches[i] == kept[i]);
            }
        } else {
            assert forall|i: int| 0 <= i < kept.len() implies (#[trigger] after.watches[i])
                == m.watches[i] by {}
        }
    }
}

/// A completion leaves a valid registry valid, as long as a request id is
/// left to hand out.
pub proof fn law_completion_keeps_valid(m: RegistryModel, request: u64, code: u32)
    requires
        valid(m),
        m.next_request < u64::MAX,
    ensures
        valid(after_completion(m, request, code)),
{
    let after = after_completion(m, request, code);
    if has_pending(m.watches, request) {
        let at = position_of_pending(m.watches, request);
        assert forall|i: int| 0 <= i < after.watches.len() && i != at implies (
        #[trigger] after.watches[i]) == m.watches[i] by {}
        assert(after.watches[at].root == m.watches[at].root);
    }
}

/// Once `Stop` was applied the registry is final: it holds no watch, and no
/// further action, a second `Stop` among them, changes it or gives rise to a
/// command. No handle is released twice.
pub proof fn law_stop_is_final(m: RegistryModel, action: ActionModel)
    requires
        valid(m),
    ensures
        after_action(m, ActionModel::Stop).stopped,
        after_action(m, ActionModel::Stop).watches.len() == 0,
        valid(after_action(m, ActionModel::Stop)),
        after_action(after_action(m, ActionModel::Stop), action) == after_action(
            m,
            ActionModel::Stop,
        ),
        action_commands(after_action(m, ActionModel::Stop), action) == Seq::<
            CommandModel,
        >::empty(),
{
}

/// After `Unwatch` no watch is left on that root. A completion of the read
/// that was pending on it, cancelled or not, finds no slot: it changes
/// nothing and gives rise to no command, so none of its events is sent. A
/// completion that still finds its slot belongs to a watch on another root.
pub proof fn law_unwatch_silences(
    m: RegistryModel,
    root: Seq<char>,
    request: u64,
    code: u32,
    buffer: Seq<u8>,
)
    requires
        valid(m),
    ensures
        ({
            let after = after_action(m, ActionModel::Unwatch(root));
            &&& !m.stopped ==> !watches_root(after.watches, root)
            &&& has_pending(after.watches, request) ==> after.watches[position_of_pending(
                after.watches,
                request,
            )].root != root
            &&& (exists|i: int|
                0 <= i < m.watches.len() && (#[trigger] m.watches[i]).root == root
                    && m.watches[i].pending == Some(request)) ==> {
                &&& completion_commands(after, request, code, buffer) == Seq::<
                    CommandModel,
                >::empty()
                &&& after_completion(after, request, code) == after
            }
        }),
{
    let after = after_action(m, ActionModel::Unwatch(root));
    if !m.stopped && watches_root(m.watches, root) {
        let p = position_of_root(m.watches, root);
        assert forall|i: int| 0 <= i < after.watches.len() implies (#[trigger] after.watches[i])
            == m.watches[if i < p {
            i
        } else {
            i + 1
        }] by {}
        if has_pending(after.watches, request) {
            let q = position_of_pending(after.watches, request);
            assert(after.watches[q].root != root);
        }
    } else if !m.stopped {
        if has_pending(after.watches, request) {
            let q = position_of_pending(after.watches, request);
            assert(after.watches[q].root != root);
        }
    }
}

/// A watch has at most one read outstanding. A completion gives rise to at
/// most one read, as its first command, only where the completed read was
/// pending on a watch and was not cancelled; that read goes to the handle of
/// that watch under an id that was pending nowhere, and afterwards the
/// completed id is pending nowhere.
pub proof fn law_one_read_per_watch(m: RegistryModel, request: u64, code: u32, buffer: Seq<u8>)
    requires
        valid(m),
        m.next_request < u64::MAX,
    ensures
        !has_pending(m.watches, m.next_request),
        !has_pending(after_completion(m, request, code).watches, request),
        forall|k: int|
            0 <= k < completion_commands(m, request, code, buffer).len() && (
            #[trigger] completion_commands(m, request, code, buffer)[k]) is Read ==> {
                &&& k == 0
                &&& has_pending(m.watches, request)
                &&& code != OPERATION_ABORTED
                &&& completion_commands(m, request, code, buffer)[k] == (CommandModel::Read {
                    handle: m.watches[position_of_pending(m.watches, request)].handle,
                    request: m.next_request,
                })
            },
{
    let after = after_completion(m, request, code);
    if has_pending(m.watches, request) {
        let at = position_of_pending(m.watches, request);
        assert forall|i: int| 0 <= i < after.watches.len() && i != at implies (
        #[trigger] after.watches[i]) == m.watches[i] by {}
        if has_pending(after.watches, request) {
            let q = position_of_pending(after.watches, request);
            assert(after.watches[q].pending == Some(request));
            if q != at {
                assert(m.watches[q].pending == Some(request));
            }
        }
    }
}

/// The table of watched roots with the slots of their pending reads.
pub struct Registry {
    watches: Vec<Watch>,
    next_request: u64,
    stopped: bool,
}

impl View for Registry {
    type V = RegistryModel;

    closed spec fn view(&self) -> RegistryModel {
        RegistryModel {
            watches: watch_models(self.watches@),
            next_request: self.next_request,
            stopped: self.stopped,
        }
    }
}

impl Registry {
    /// Whether the registry's invariant holds.
    pub open spec fn inv(&self) -> bool {
        valid(self@)
    }

    /// A running registry that watches nothing.
    pub fn new() -> (registry: Registry)
        ensures
            registry.inv(),
            registry@ == (RegistryModel {
                watches: Seq::empty(),
                next_request: 0,
                stopped: false,
            }),
    {
        let registry = Registry { watches: Vec::new(), next_request: 0, stopped: false };
        assert(registry@.watches =~= Seq::empty());
        registry
    }

    /// Whether `Stop` was applied. The caller's loop ends then; else it waits
    /// for completions and drains the queue again.
    pub fn is_stopped(&self) -> (stopped: bool)
        ensures
            stopped == self@.stopped,
    {
        self.stopped
    }

    /// The number of watched roots.
    pub fn watch_count(&self) -> (count: usize)
        ensures
            count == self@.watches.len(),
    {
        self.watches.len()
    }

    /// Whether a request id is left to hand out to the next read.
    pub fn can_issue(&self) -> (left: bool)
        ensures
            left == (self@.next_request < u64::MAX),
    {
        self.next_request < u64::MAX
    }

    /// The handle under which `root` is watched, if it is.
    pub fn handle_of(&self, root: &String) -> (handle: Option<u64>)
        requires
            self.inv(),
        ensures
            handle is Some <==> watches_root(self@.watches, root@),
            handle is Some ==> handle.unwrap() == self@.watches[position_of_root(
                self@.watches,
                root@,
            )].handle,
    {
        match self.find_root(root) {
            Some(i) => Some(self.watches[i].handle),
            None => None,
        }
    }

    fn find_root(&self, root: &String) -> (found: Option<usize>)
        requires
            self.inv(),
        ensures
            found is Some <==> watches_root(self@.watches, root@),
            found is Some ==> found.unwrap() == position_of_root(self@.watches, root@)
                && found.unwrap() < self.watches@.len(),
    {
        let mut i: usize = 0;
        while i < self.watches.len()
            invariant
                self.inv(),
                i <= self.watches@.len(),
                forall|j: int| 0 <= j < i ==> (#[trigger] self@.watches[j]).root != root@,
            decreases self.watches@.len() - i,
        {
            if self.watches[i].root == *root {
                proof {
                    let p = position_of_root(self@.watches, root@);
                    assert(self@.watches[i as int].root == root@);
                    assert(self@.watches[p].root == root@);
                }
                return Some(i);
            }
            i = i + 1;
        }
        None
    }

    fn find_pending(&self, request: u64) -> (found: Option<usize>)
        requires
            self.inv(),
        ensures
            found is Some <==> has_pending(self@.watches, request),
            found is Some ==> found.unwrap() == position_of_pending(self@.watches, request)
                && found.unwrap() < self.watches@.len(),
    {
        let mut i: usize = 0;
        while i < self.watches.len()
            invariant
                self.inv(),
                i <= self.watches@.len(),
                forall|j: int|
                    0 <= j < i ==> (#[trigger] self@.watches[j]).pending != Some(request),
            decreases self.watches@.len() - i,
        {
            let hit = match self.watches[i].pending {
                Some(id) => id == request,
                None => false,
            };
            if hit {
                proof {
                    let p = position_of_pending(self@.watches, request);
                    assert(self@.watches[i as int].pending == Some(request));
                    assert(self@.watches[p].pending == Some(request));
                }
                return Some(i);
            }
            i = i + 1;
        }
        None
    }

    /// Takes the watch at `at` out of the table.
    fn take(&mut self, at: usize) -> (watch: Watch)
        requires
            at < old(self)@.watches.len(),
        ensures
            watch@ == old(self)@.watches[at as int],
            final(self)@ == (RegistryModel {
                watches: old(self)@.watches.remove(at as int),
                ..old(self)@
            }),
    {
        let watch = self.watches.remove(at);
        assert(self@.watches =~= old(self)@.watches.remove(at as int));
        watch
    }

    /// Applies one action from the queue and returns what is to be done for
    /// it: to open the root for `Watch`; to release the handle for `Unwatch`
    /// of a watched root; to release every handle for `Stop`. After `Stop`
    /// every action is without effect.
    pub fn on_action(&mut self, action: Action) -> (commands: Vec<Command>)
        requires
            old(self).inv(),
        ensures
            final(self).inv(),
            final(self)@ == after_action(old(self)@, action@),
            command_models(commands@) == action_commands(old(self)@, action@),
    {
        proof {
            law_action_keeps_valid(self@, action@);
        }
        let mut commands: Vec<Command> = Vec::new();
        if self.stopped {
            assert(command_models(commands@) =~= Seq::empty());
            return commands;
        }
        match action {
            Action::Watch(root) => {
                commands.push(Command::Open(root));
                assert(command_models(commands@) =~= seq![CommandModel::Open(root@)]);
            },
            Action::Unwatch(root) => {
                match self.find_root(&root) {
                    Some(at) => {
                        let watch = self.take(at);
                        commands.push(Command::Release(watch.handle));
                        assert(command_models(commands@) =~= seq![
                            CommandModel::Release(watch.handle),
                        ]);
                    },
                    None => {
                        assert(command_models(commands@) =~= Seq::empty());
                    },
                }
            },
            Action::Stop => {
                let mut i: usize = 0;
                while i < self.watches.len()
                    invariant
                        i <= self.watches@.len(),
                        *self == *old(self),
                        commands@.len() == i,
                        forall|j: int|
                            0 <= j < i ==> (#[trigger] commands@[j])@ == CommandModel::Release(
                                self@.watches[j].handle,
                            ),
                    decreases self.watches@.len() - i,
                {
                    commands.push(Command::Release(self.watches[i].handle));
                    i = i + 1;
                }
                assert(command_models(commands@) =~= releases(old(self)@.watches));
                self.watches = Vec::new();
                self.stopped = true;
                assert(self@.watches =~= Seq::empty());
            },
        }
        commands
    }

    /// Takes the outcome of opening `root`: the handle, or `None` where the
    /// root could not be opened. A failure is reported as one event without a
    /// path and enters no watch. A handle becomes the watch on `root`: the
    /// handle that the root had before, if any, is released, and the first
    /// read on the new one is issued.
    pub fn on_opened(&mut self, root: String, handle: Option<u64>) -> (commands: Vec<Command>)
        requires
            old(self).inv(),
            old(self)@.next_request < u64::MAX,
        ensures
            final(self).inv(),
            final(self)@ == after_opened(old(self)@, root@, handle),
            command_models(commands@) == opened_commands(old(self)@, root@, handle),
    {
        proof {
            law_opened_keeps_valid(self@, root@, handle);
        }
        let mut commands: Vec<Command> = Vec::new();
        match handle {
            None => {
                if !self.stopped {
                    commands.push(
                        Command::Emit(Event { path: None, op: Err(Error::PathNotFound) }),
                    );
                    assert(command_models(commands@) =~= seq![
                        CommandModel::Emit(path_not_found()),
                    ]);
                } else {
                    assert(command_models(commands@) =~= Seq::empty());
                }
            },
            Some(h) => {
                if self.stopped {
                    commands.push(Command::Release(h));
                    assert(command_models(commands@) =~= seq![CommandModel::Release(h)]);
                } else {
                    let request = self.next_request;
                    match self.find_root(&root) {
                        Some(at) => {
                            let earlier = self.take(at);
                            commands.push(Command::Release(earlier.handle));
                            commands.push(Command::Read { handle: h, request });
                            assert(command_models(commands@) =~= seq![
                                CommandModel::Release(earlier.handle),
                                CommandModel::Read { handle: h, request },
                            ]);
                        },
                        None => {
                            commands.push(Command::Read { handle: h, request });
                            assert(command_models(commands@) =~= seq![
                                CommandModel::Read { handle: h, request },
                            ]);
                        },
                    }
                    let ghost kept = self@.watches;
                    self.watches.push(Watch { root, handle: h, pending: Some(request) });
                    self.next_request = request + 1;
                    assert(self@.watches =~= kept.push(
                        WatchModel { root: root@, handle: h, pending: Some(request) },
                    ));
                }
            },
        }
        commands
    }

    /// Takes the completion of the read with id `request`: its code and the
    /// buffer it filled. A completion whose id is pending on no watch (the
    /// watch was removed meanwhile) and one that reports a cancellation give
    /// rise to nothing. For any other the next read on the same handle is
    /// issued first, and then the events of the buffer are sent, in order.
    pub fn on_completion(&mut self, request: u64, code: u32, buffer: &[u8]) -> (commands: Vec<
        Command,
    >)
        requires
            old(self).inv(),
            old(self)@.next_request < u64::MAX,
        ensures
            final(self).inv(),
            final(self)@ == after_completion(old(self)@, request, code),
            command_models(commands@) == completion_commands(
                old(self)@,
                request,
                code,
                buffer@,
            ),
    {
        proof {
            law_completion_keeps_valid(self@, request, code);
        }
        let mut commands: Vec<Command> = Vec::new();
        match self.find_pending(request) {
            None => {
                assert(command_models(commands@) =~= Seq::empty());
            },
            Some(at) => {
                let mut watch = self.take(at);
                if code == OPERATION_ABORTED {
                    watch.pending = None;
                    assert(command_models(commands@) =~= Seq::empty());
                } else {
                    let next = self.next_request;
                    watch.pending = Some(next);
                    self.next_request = next + 1;
                    commands.push(Command::Read { handle: watch.handle, request: next });
                    let events = decode(buffer, watch.root.as_str());
                    let ghost wanted = decoded(buffer@, watch.root@);
                    let mut i: usize = 0;
                    while i < events.len()
                        invariant
                            i <= events@.len(),
                            event_models(events@) == wanted,
                            commands@.len() == i + 1,
                            commands@[0]@ == (CommandModel::Read {
                                handle: watch.handle,
                                request: next,
                            }),
                            forall|j: int|
                                1 <= j <= i ==> (#[trigger] commands@[j])@
                                    == CommandModel::Emit(wanted[j - 1]),
                        decreases events@.len() - i,
                    {
                        assert(event_models(events@)[i as int] == events@[i as int]@);
                        commands.push(Command::Emit(events[i].clone()));
                        i = i + 1;
                    }
                    assert(events@.len() == wanted.len()) by {
                        assert(event_models(events@).len() == events@.len());
                    }
                    assert(command_models(commands@) =~= seq![
                        CommandModel::Read { handle: watch.handle, request: next },
                    ] + emissions(wanted));
                }
                let ghost rest = self@.watches;
                let ghost entry = watch@;
                assert(rest.len() == self.watches@.len());
                self.watches.insert(at, watch);
                assert(self@.watches =~= rest.insert(at as int, entry));
                assert(rest.insert(at as int, entry) =~= old(self)@.watches.update(
                    at as int,
                    entry,
                ));
            },
        }
        commands
    }
}

} // verus!
