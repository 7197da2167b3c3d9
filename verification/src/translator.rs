//! Decoding of the buffer that a completed directory read hands back.
//!
//! The buffer holds a chain of records. Each record starts with three
//! little-endian 32-bit words (the distance to the next record, or zero in the
//! last one; the action code; the length of the name in bytes) and goes on
//! with the name, in UTF-16 code units, low byte first.

use vstd::prelude::*;
use crate::event::{Event, EventModel, Op, event_models};
use crate::text::{utf16_text, joined_path, decode_utf16, join_path};

verus! {

/// The number of bytes in front of a record's name.
pub const HEADER_LEN: usize = 12;

/// The size of the buffer that each read is issued with.
pub const BUFFER_LEN: u32 = 16384;

pub const ACTION_ADDED: u32 = 1;

pub const ACTION_REMOVED: u32 = 2;

pub const ACTION_MODIFIED: u32 = 3;

pub const ACTION_RENAMED_OLD_NAME: u32 = 4;

pub const ACTION_RENAMED_NEW_NAME: u32 = 5;

/// One change record: its action code and its name in UTF-16 code units.
pub struct Record {
    pub action: u32,
    pub name: Seq<u16>,
}

/// The little-endian 32-bit word at `at`.
pub open spec fn le_u32(buf: Seq<u8>, at: int) -> int {
    buf[at] + 256 * buf[at + 1] + 65536 * buf[at + 2] + 16777216 * buf[at + 3]
}

/// The little-endian 16-bit word at `at`.
pub open spec fn le_u16(buf: Seq<u8>, at: int) -> int {
    buf[at] + 256 * buf[at + 1]
}

/// The distance from the record at `at` to the next one; zero in the last.
pub open spec fn next_offset(buf: Seq<u8>, at: int) -> int {
    le_u32(buf, at)
}

/// The number of whole code units in the name of the record at `at`.
pub open spec fn name_units(buf: Seq<u8>, at: int) -> int {
    le_u32(buf, at + 8) / 2
}

/// Whether a whole record, header and name, lies inside the buffer at `at`.
pub open spec fn record_fits(buf: Seq<u8>, at: int) -> bool {
    &&& 0 <= at
    &&& at + 12 <= buf.len()
    &&& at + 12 + 2 * name_units(buf, at) <= buf.len()
}

/// The record that lies at `at`.
pub open spec fn record_at(buf: Seq<u8>, at: int) -> Record {
    Record {
        action: le_u32(buf, at + 4) as u32,
        name: Seq::new(
            name_units(buf, at) as nat,
            |i: int| le_u16(buf, at + 12 + 2 * i) as u16,
        ),
    }
}

/// The records of the chain that starts at `at`. The chain ends with the
/// record whose distance word is zero, or in front of the first record that
/// does not fit in the buffer: a distance word that leads past the end of the
/// buffer ends the chain as a zero does.
pub open spec fn records_from(buf: Seq<u8>, at: int) -> Seq<Record>
    decreases buf.len() - at,
{
    if !record_fits(buf, at) {
        Seq::empty()
    } else if next_offset(buf, at) <= 0 || at + next_offset(buf, at) > buf.len() {
        seq![record_at(buf, at)]
    } else {
        seq![record_at(buf, at)] + records_from(buf, at + next_offset(buf, at))
    }
}

/// The kind of change that an action code stands for; the empty set for a
/// code that is not known.
pub open spec fn op_of(action: u32) -> Op {
    Op {
        create: action == ACTION_ADDED,
        remove: action == ACTION_REMOVED,
        write: action == ACTION_MODIFIED,
        rename: action == ACTION_RENAMED_OLD_NAME || action == ACTION_RENAMED_NEW_NAME,
    }
}

/// The event that a record under `root` becomes.
pub open spec fn event_of(root: Seq<char>, record: Record) -> EventModel {
    EventModel {
        path: Some(joined_path(root, utf16_text(record.name))),
        op: Ok(op_of(record.action)),
    }
}

/// The events that a buffer decodes to, under `root`.
pub open spec fn decoded(buf: Seq<u8>, root: Seq<char>) -> Seq<EventModel> {
    let records = records_from(buf, 0);
    Seq::new(records.len(), |i: int| event_of(root, records[i]))
}

/// Whether `offsets` are the places of the records of a chain that starts at
/// the front of the buffer, in which every record fits, every distance word
/// but the last leads forward to the next place, and the last is zero.
pub open spec fn well_formed_chain(buf: Seq<u8>, offsets: Seq<int>) -> bool {
    &&& offsets.len() > 0
    &&& offsets[0] == 0
    &&& forall|i: int| 0 <= i < offsets.len() ==> record_fits(buf, #[trigger] offsets[i])
    &&& forall|i: int|
        0 <= i < offsets.len() - 1 ==> next_offset(buf, #[trigger] offsets[i]) > 0 && offsets[i
            + 1] == offsets[i] + next_offset(buf, offsets[i])
    &&& next_offset(buf, offsets[offsets.len() - 1]) == 0
}

proof fn lemma_chain_from(buf: Seq<u8>, offsets: Seq<int>, k: int)
    requires
        well_formed_chain(buf, offsets),
        0 <= k < offsets.len(),
    ensures
        records_from(buf, offsets[k]).len() == offsets.len() - k,
        forall|j: int|
            0 <= j < offsets.len() - k ==> #[trigger] records_from(buf, offsets[k])[j]
                == record_at(buf, offsets[k + j]),
    decreases offsets.len() - k,
{
    let at = offsets[k];
    assert(record_fits(buf, at));
    if k == offsets.len() - 1 {
        assert(next_offset(buf, at) == 0);
    } else {
        assert(next_offset(buf, at) > 0);
        assert(offsets[k + 1] == at + next_offset(buf, at));
        lemma_chain_from(buf, offsets, k + 1);
        let rest = records_from(buf, offsets[k + 1]);
        assert(records_from(buf, at) == seq![record_at(buf, at)] + rest);
        assert forall|j: int| 0 <= j < offsets.len() - k implies #[trigger] records_from(
            buf,
            at,
        )[j] == record_at(buf, offsets[k + j]) by {
            if j > 0 {
                assert(records_from(buf, at)[j] == rest[j - 1]);
                assert(k + 1 + (j - 1) == k + j);
            }
        }
    }
}

/// A buffer that holds a well-formed chain of records decodes to as many
/// events as the chain has records, in the order of the chain, and the record
/// whose distance word is zero is the last to be decoded.
pub proof fn law_chain_decodes_in_order(buf: Seq<u8>, root: Seq<char>, offsets: Seq<int>)
    requires
        well_formed_chain(buf, offsets),
    ensures
        decoded(buf, root).len() == offsets.len(),
        forall|i: int|
            0 <= i < offsets.len() ==> #[trigger] decoded(buf, root)[i] == event_of(
                root,
                record_at(buf, offsets[i]),
            ),
{
    lemma_chain_from(buf, offsets, 0);
    assert forall|i: int| 0 <= i < offsets.len() implies #[trigger] decoded(buf, root)[i]
        == event_of(root, record_at(buf, offsets[i])) by {
        assert(records_from(buf, offsets[0])[i] == record_at(buf, offsets[0 + i]));
    }
}

fn read_u32(buf: &[u8], at: usize) -> (word: u32)
    requires
        at + 4 <= buf@.len(),
    ensures
        word == le_u32(buf@, at as int),
{
    let b0: u32 = buf[at] as u32;
    let b1: u32 = buf[at + 1] as u32;
    let b2: u32 = buf[at + 2] as u32;
    let b3: u32 = buf[at + 3] as u32;
    b0 + 256 * b1 + 65536 * b2 + 16777216 * b3
}

fn read_u16(buf: &[u8], at: usize) -> (word: u16)
    requires
        at + 2 <= buf@.len(),
    ensures
        word == le_u16(buf@, at as int),
{
    let b0: u16 = buf[at] as u16;
    let b1: u16 = buf[at + 1] as u16;
    b0 + 256 * b1
}

/// Tells whether a whole record lies at `at`, and with how many code units
/// in its name.
fn fitting_units(buf: &[u8], at: usize) -> (units: Option<usize>)
    ensures
        units is Some <==> record_fits(buf@, at as int),
        units is Some ==> units.unwrap() == name_units(buf@, at as int),
{
    if at > buf.len() || buf.len() - at < HEADER_LEN {
        return None;
    }
    let units: usize = (read_u32(buf, at + 8) / 2) as usize;
    let room: usize = buf.len() - at - HEADER_LEN;
    if units > room / 2 {
        None
    } else {
        Some(units)
    }
}

fn read_name(buf: &[u8], at: usize, units: usize) -> (name: Vec<u16>)
    requires
        record_fits(buf@, at as int),
        units == name_units(buf@, at as int),
    ensures
        name@ == record_at(buf@, at as int).name,
{
    let mut name: Vec<u16> = Vec::new();
    let total: usize = buf.len();
    let mut i: usize = 0;
    while i < units
        invariant
            i <= units,
            total == buf@.len(),
            at + 12 + 2 * units <= buf@.len(),
            name@.len() == i,
            forall|j: int| 0 <= j < i ==> name@[j] == le_u16(buf@, at + 12 + 2 * j) as u16,
        decreases units - i,
    {
        let unit = read_u16(buf, at + HEADER_LEN + 2 * i);
        name.push(unit);
        i = i + 1;
    }
    assert(name@ =~= record_at(buf@, at as int).name);
    name
}

/// The set of flags for an action code.
pub fn op_for(action: u32) -> (op: Op)
    ensures
        op == op_of(action),
{
    Op {
        create: action == ACTION_ADDED,
        remove: action == ACTION_REMOVED,
        write: action == ACTION_MODIFIED,
        rename: action == ACTION_RENAMED_OLD_NAME || action == ACTION_RENAMED_NEW_NAME,
    }
}

/// The event for a change with this action code at this path.
pub fn change_event(path: String, action: u32) -> (event: Event)
    ensures
        event@ == (EventModel { path: Some(path@), op: Ok(op_of(action)) }),
{
    Event { path: Some(path), op: Ok(op_for(action)) }
}

/// Decodes the buffer of one completed read into events, in the order of the
/// records. Each record gives one event: its path is the root joined with the
/// record's name, its flags are those of the record's action code. Decoding
/// ends after the record whose distance word is zero, or where the next record
/// would not fit in the buffer.
pub fn decode(buffer: &[u8], root: &str) -> (events: Vec<Event>)
    ensures
        event_models(events@) == decoded(buffer@, root@),
{
    let mut events: Vec<Event> = Vec::new();
    let total: usize = buffer.len();
    let mut at: usize = 0;
    let mut more = true;
    let ghost mut done: Seq<Record> = Seq::empty();
    while more
        invariant
            total == buffer@.len(),
            more ==> at <= total,
            records_from(buffer@, 0) == done + (if more {
                records_from(buffer@, at as int)
            } else {
                Seq::empty()
            }),
            events@.len() == done.len(),
            forall|i: int| 0 <= i < done.len() ==> events@[i]@ == event_of(root@, done[i]),
        decreases
                (if more {
                    buffer@.len() - at + 1
                } else {
                    0
                }),
    {
        match fitting_units(buffer, at) {
            None => {
                more = false;
            },
            Some(units) => {
                let action = read_u32(buffer, at + 4);
                let name = read_name(buffer, at, units);
                let text = decode_utf16(&name);
                let path = join_path(root, text.as_str());
                events.push(change_event(path, action));
                let next = read_u32(buffer, at);
                proof {
                    let ghost record = record_at(buffer@, at as int);
                    assert(done + (seq![record] + records_from(buffer@, at + next)) =~= done.push(
                        record,
                    ) + records_from(buffer@, at + next));
                    assert(done + seq![record] =~= done.push(record));
                    done = done.push(record);
                }
                if next == 0 || next as usize > total - at {
                    more = false;
                } else {
                    at = at + next as usize;
                }
            },
        }
    }
    assert(done + Seq::<Record>::empty() =~= done);
    assert(event_models(events@) =~= decoded(buffer@, root@));
    events
}

} // verus!
