//! The values that travel on the event stream.

use vstd::prelude::*;

verus! {

/// A set over the four kinds of change. The empty set stands for a change
/// that the platform reported with a code this library does not know.
#[derive(Clone, Copy, Debug, PartialEq, Eq, Structural, Hash)]
pub struct Op {
    pub create: bool,
    pub write: bool,
    pub remove: bool,
    pub rename: bool,
}

impl Op {
    /// The union of two sets, flag by flag.
    pub open spec fn spec_union(self, other: Op) -> Op {
        Op {
            create: self.create || other.create,
            write: self.write || other.write,
            remove: self.remove || other.remove,
            rename: self.rename || other.rename,
        }
    }

    /// Whether every flag of `other` is also set in `self`.
    pub open spec fn spec_contains(self, other: Op) -> bool {
        &&& other.create ==> self.create
        &&& other.write ==> self.write
        &&& other.remove ==> self.remove
        &&& other.rename ==> self.rename
    }

    pub open spec fn spec_empty() -> Op {
        Op { create: false, write: false, remove: false, rename: false }
    }

    pub fn empty() -> (op: Op)
        ensures
            op == Op::spec_empty(),
    {
        Op { create: false, write: false, remove: false, rename: false }
    }

    pub fn create() -> (op: Op)
        ensures
            op == (Op { create: true, ..Op::spec_empty() }),
    {
        Op { create: true, write: false, remove: false, rename: false }
    }

    pub fn write() -> (op: Op)
        ensures
            op == (Op { write: true, ..Op::spec_empty() }),
    {
        Op { create: false, write: true, remove: false, rename: false }
    }

    pub fn remove() -> (op: Op)
        ensures
            op == (Op { remove: true, ..Op::spec_empty() }),
    {
        Op { create: false, write: false, remove: true, rename: false }
    }

    pub fn rename() -> (op: Op)
        ensures
            op == (Op { rename: true, ..Op::spec_empty() }),
    {
        Op { create: false, write: false, remove: false, rename: true }
    }

    pub fn is_empty(&self) -> (none: bool)
        ensures
            none == (*self == Op::spec_empty()),
    {
        !self.create && !self.write && !self.remove && !self.rename
    }

    pub fn union(&self, other: Op) -> (both: Op)
        ensures
            both == self.spec_union(other),
    {
        Op {
            create: self.create || other.create,
            write: self.write || other.write,
            remove: self.remove || other.remove,
            rename: self.rename || other.rename,
        }
    }

    pub fn contains(&self, other: Op) -> (all: bool)
        ensures
            all == self.spec_contains(other),
    {
        (!other.create || self.create) && (!other.write || self.write) && (!other.remove
            || self.remove) && (!other.rename || self.rename)
    }
}

/// What can go wrong behind the event stream.
#[derive(Debug, PartialEq, Eq, Hash)]
pub enum Error {
    /// The root of a watch could not be opened.
    PathNotFound,
    /// A failure inside the library, with its message.
    Generic(String),
}

/// The mathematical value of an [`Error`].
pub enum ErrorModel {
    PathNotFound,
    Generic(Seq<char>),
}

impl View for Error {
    type V = ErrorModel;

    open spec fn view(&self) -> ErrorModel {
        match self {
            Error::PathNotFound => ErrorModel::PathNotFound,
            Error::Generic(message) => ErrorModel::Generic(message@),
        }
    }
}

impl Clone for Error {
    fn clone(&self) -> (copy: Error)
        ensures
            copy@ == self@,
    {
        match self {
            Error::PathNotFound => Error::PathNotFound,
            Error::Generic(message) => Error::Generic(message.clone()),
        }
    }
}

/// One change, or one failure of the backend. The path is absent only for a
/// failure that belongs to no change record.
#[derive(Debug, PartialEq, Eq, Hash)]
pub struct Event {
    pub path: Option<String>,
    pub op: Result<Op, Error>,
}

/// The mathematical value of an [`Event`].
pub struct EventModel {
    pub path: Option<Seq<char>>,
    pub op: Result<Op, ErrorModel>,
}

impl View for Event {
    type V = EventModel;

    open spec fn view(&self) -> EventModel {
        EventModel {
            path: match self.path {
                Some(p) => Some(p@),
                None => None,
            },
            op: match self.op {
                Ok(flags) => Ok(flags),
                Err(e) => Err(e@),
            },
        }
    }
}

impl Clone for Event {
    fn clone(&self) -> (copy: Event)
        ensures
            copy@ == self@,
    {
        Event {
            path: match &self.path {
                Some(p) => Some(p.clone()),
                None => None,
            },
            op: match &self.op {
                Ok(flags) => Ok(*flags),
                Err(e) => Err(e.clone()),
            },
        }
    }
}

/// The views of a vector of events, in order.
pub open spec fn event_models(events: Seq<Event>) -> Seq<EventModel> {
    Seq::new(events.len(), |i: int| events[i]@)
}

} // verus!
