//! The operation as clients see it, and how it is read from the fields of
//! its record in the store.

use vstd::prelude::*;
use vstd::utf8::*;
use crate::decimal::{parse_i64, parsed_i64};
use crate::store::{field_value, fields_view, Field};
use crate::text::{bytes_text, copy_bytes, read_text, same_bytes, same_text};

verus! {

/// A point in time: whole seconds since the Unix epoch and the nanoseconds
/// beyond them.
#[derive(Clone, Copy, Debug, PartialEq, Eq, Structural)]
pub struct Timestamp {
    pub seconds: i64,
    pub nanos: i32,
}

/// The quotient of `a` by `b`, rounded towards zero.
pub open spec fn quotient_towards_zero(a: int, b: int) -> int
    recommends
        b > 0,
{
    if a >= 0 {
        a / b
    } else {
        -((-a) / b)
    }
}

/// A count of nanoseconds since the epoch, split by integer division by
/// 10^9: the quotient, rounded towards zero, is the seconds, and the
/// remainder, which has the sign of the count, is the nanoseconds.
pub open spec fn timestamp_of(nanos: i64) -> Timestamp {
    let seconds = quotient_towards_zero(nanos as int, 1_000_000_000);
    Timestamp { seconds: seconds as i64, nanos: (nanos - seconds * 1_000_000_000) as i32 }
}

impl Timestamp {
    /// Splits a count of nanoseconds since the epoch into seconds and
    /// nanoseconds.
    pub fn from_nanos(nanos: i64) -> (ts: Timestamp)
        ensures
            ts == timestamp_of(nanos),
            ts.seconds * 1_000_000_000 + ts.nanos == nanos,
            -1_000_000_000 < ts.nanos < 1_000_000_000,
    {
        let seconds: i64 = nanos / 1_000_000_000;
        let rest: i64 = nanos % 1_000_000_000;
        Timestamp { seconds, nanos: rest as i32 }
    }
}

/// The part of an operation that describes its task.
#[derive(Debug)]
pub struct Metadata {
    pub task_type: String,
    pub task: String,
    pub user_id: String,
    pub queue: String,
    pub status: String,
}

/// The metadata of an operation as plain values.
pub struct MetadataView {
    pub task_type: Seq<char>,
    pub task: Seq<char>,
    pub user_id: Seq<char>,
    pub queue: Seq<char>,
    pub status: Seq<char>,
}

impl View for Metadata {
    type V = MetadataView;

    open spec fn view(&self) -> MetadataView {
        MetadataView {
            task_type: self.task_type@,
            task: self.task@,
            user_id: self.user_id@,
            queue: self.queue@,
            status: self.status@,
        }
    }
}

/// A long-running operation as clients see it.
#[derive(Debug)]
pub struct Operation {
    pub operation_id: String,
    pub metadata: Metadata,
    pub done: bool,
    /// The encoded status of the failure, where the operation failed.
    pub error: Option<Vec<u8>>,
    /// The encoded result, where the operation succeeded.
    pub response: Option<Vec<u8>>,
    pub creation_ts: Option<Timestamp>,
    pub start_ts: Option<Timestamp>,
    pub end_ts: Option<Timestamp>,
}

/// An operation as plain values.
pub struct OperationView {
    pub operation_id: Seq<char>,
    pub metadata: MetadataView,
    pub done: bool,
    pub error: Option<Seq<u8>>,
    pub response: Option<Seq<u8>>,
    pub creation_ts: Option<Timestamp>,
    pub start_ts: Option<Timestamp>,
    pub end_ts: Option<Timestamp>,
}

/// The bytes of an optional byte string.
pub open spec fn bytes_of(value: Option<Vec<u8>>) -> Option<Seq<u8>> {
    match value {
        Some(bytes) => Some(bytes@),
        None => None,
    }
}

impl View for Operation {
    type V = OperationView;

    open spec fn view(&self) -> OperationView {
        OperationView {
            operation_id: self.operation_id@,
            metadata: self.metadata@,
            done: self.done,
            error: bytes_of(self.error),
            response: bytes_of(self.response),
            creation_ts: self.creation_ts,
            start_ts: self.start_ts,
            end_ts: self.end_ts,
        }
    }
}

/// The handle of the operation `id` before anything is known of it: not
/// done, every text empty, no result, no error and no time.
pub open spec fn pending_operation(id: Seq<char>) -> OperationView {
    OperationView {
        operation_id: id,
        metadata: MetadataView {
            task_type: Seq::empty(),
            task: Seq::empty(),
            user_id: Seq::empty(),
            queue: Seq::empty(),
            status: Seq::empty(),
        },
        done: false,
        error: None,
        response: None,
        creation_ts: None,
        start_ts: None,
        end_ts: None,
    }
}

/// The text of the field `name`: the empty text where the field is
/// missing.
pub open spec fn text_of(fields: Seq<(Seq<char>, Seq<u8>)>, name: Seq<char>) -> Seq<char> {
    match field_value(fields, name) {
        Some(bytes) => read_text(bytes),
        None => Seq::empty(),
    }
}

/// The time in the field `name`: absent where the field is missing or
/// does not hold an `i64` in decimal.
pub open spec fn time_of(fields: Seq<(Seq<char>, Seq<u8>)>, name: Seq<char>) -> Option<
    Timestamp,
> {
    match field_value(fields, name) {
        Some(bytes) => match parsed_i64(bytes) {
            Some(nanos) => Some(timestamp_of(nanos)),
            None => None,
        },
        None => None,
    }
}

/// The operation that the fields of a record describe. A missing text is
/// empty, a missing or unreadable time is absent, and the operation is done
/// only where `done` holds exactly `true`.
pub open spec fn operation_of(fields: Seq<(Seq<char>, Seq<u8>)>) -> OperationView {
    OperationView {
        operation_id: text_of(fields, "operation_id"@),
        metadata: MetadataView {
            task_type: text_of(fields, "task_type"@),
            task: text_of(fields, "task"@),
            user_id: text_of(fields, "user_id"@),
            queue: text_of(fields, "queue"@),
            status: text_of(fields, "status"@),
        },
        done: field_value(fields, "done"@) == Some(encode_utf8("true"@)),
        error: field_value(fields, "error"@),
        response: field_value(fields, "result"@),
        creation_ts: time_of(fields, "publish_ts"@),
        start_ts: time_of(fields, "dequeue_ts"@),
        end_ts: time_of(fields, "end_ts"@),
    }
}

/// The value of the field `name`, if the fields hold one.
pub fn find_field<'a>(fields: &'a Vec<Field>, name: &str) -> (value: Option<&'a Vec<u8>>)
    ensures
        match value {
            Some(bytes) => field_value(fields_view(fields@), name@) == Some(bytes@),
            None => field_value(fields_view(fields@), name@) is None,
        },
{
    let mut i: usize = fields.len();
    assert(fields_view(fields@).take(i as int) =~= fields_view(fields@));
    while i > 0
        invariant
            i <= fields.len(),
            field_value(fields_view(fields@), name@) == field_value(
                fields_view(fields@).take(i as int),
                name@,
            ),
        decreases i,
    {
        let ghost all = fields_view(fields@);
        let ghost part = all.take(i as int);
        i = i - 1;
        proof {
            assert(part.last() == fields@[i as int]@);
            assert(part.drop_last() =~= all.take(i as int));
        }
        if same_text(fields[i].name.as_str(), name) {
            return Some(&fields[i].value);
        }
    }
    assert(fields_view(fields@).take(0) =~= Seq::empty());
    None
}

/// The text of the field `name`, empty where the field is missing.
pub fn text_field(fields: &Vec<Field>, name: &str) -> (text: String)
    ensures
        text@ == text_of(fields_view(fields@), name@),
{
    match find_field(fields, name) {
        Some(bytes) => bytes_text(bytes.as_slice()),
        None => String::new(),
    }
}

/// The time in the field `name`, where the field is there and readable.
pub fn time_field(fields: &Vec<Field>, name: &str) -> (time: Option<Timestamp>)
    ensures
        time == time_of(fields_view(fields@), name@),
{
    match find_field(fields, name) {
        Some(bytes) => {
            match parse_i64(bytes.as_slice()) {
                Some(nanos) => Some(Timestamp::from_nanos(nanos)),
                None => None,
            }
        },
        None => None,
    }
}

/// The bytes of the field `name`, where the field is there.
pub fn bytes_field(fields: &Vec<Field>, name: &str) -> (value: Option<Vec<u8>>)
    ensures
        bytes_of(value) == field_value(fields_view(fields@), name@),
{
    match find_field(fields, name) {
        Some(bytes) => Some(copy_bytes(bytes)),
        None => None,
    }
}

impl Operation {
    /// The handle of an operation that was just accepted: its id and
    /// nothing else, not done. The rest is learned by reading the record.
    pub fn pending(operation_id: String) -> (operation: Operation)
        ensures
            operation@ == pending_operation(operation_id@),
    {
        Operation {
            operation_id,
            metadata: Metadata {
                task_type: String::new(),
                task: String::new(),
                user_id: String::new(),
                queue: String::new(),
                status: String::new(),
            },
            done: false,
            error: None,
            response: None,
            creation_ts: None,
            start_ts: None,
            end_ts: None,
        }
    }

    /// The operation that the fields of a record describe.
    pub fn from_fields(fields: &Vec<Field>) -> (operation: Operation)
        ensures
            operation@ == operation_of(fields_view(fields@)),
    {
        let done = match find_field(fields, "done") {
            Some(bytes) => same_bytes(bytes.as_slice(), "true".as_bytes()),
            None => false,
        };
        Operation {
            operation_id: text_field(fields, "operation_id"),
            metadata: Metadata {
                task_type: text_field(fields, "task_type"),
                task: text_field(fields, "task"),
                user_id: text_field(fields, "user_id"),
                queue: text_field(fields, "queue"),
                status: text_field(fields, "status"),
            },
            done,
            error: bytes_field(fields, "error"),
            response: bytes_field(fields, "result"),
            creation_ts: time_field(fields, "publish_ts"),
            start_ts: time_field(fields, "dequeue_ts"),
            end_ts: time_field(fields, "end_ts"),
        }
    }
}

} // verus!
