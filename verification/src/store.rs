//! The store as the queue sees it: named lists of texts and named hashes
//! from field names to bytes, and the commands that the queue sends.

use vstd::prelude::*;
use crate::text::join;

verus! {

/// One field of a hash: its name and its value.
#[derive(Debug)]
pub struct Field {
    pub name: String,
    pub value: Vec<u8>,
}

impl View for Field {
    type V = (Seq<char>, Seq<u8>);

    open spec fn view(&self) -> (Seq<char>, Seq<u8>) {
        (self.name@, self.value@)
    }
}

/// The fields of a list, each as name and value.
pub open spec fn fields_view(fields: Seq<Field>) -> Seq<(Seq<char>, Seq<u8>)> {
    fields.map_values(|f: Field| f@)
}

/// The value that a list of fields gives to `name`: that of the last field
/// of that name, if there is one.
pub open spec fn field_value(fields: Seq<(Seq<char>, Seq<u8>)>, name: Seq<char>) -> Option<
    Seq<u8>,
>
    decreases fields.len(),
{
    if fields.len() == 0 {
        None
    } else if fields.last().0 == name {
        Some(fields.last().1)
    } else {
        field_value(fields.drop_last(), name)
    }
}

/// A command to the store.
#[derive(Debug)]
pub enum Command {
    /// Puts `value` at the head of the list `key` (`LPUSH`).
    PushHead { key: String, value: String },
    /// Moves the tail of the list `source` to the head of the list
    /// `destination` and answers with it; answers with nothing where
    /// `source` is empty (`LMOVE .. RIGHT LEFT`).
    MoveTailToHead { source: String, destination: String },
    /// Takes the occurrence of `value` nearest the tail out of the list
    /// `key` (`LREM key -1 value`).
    RemoveLast { key: String, value: String },
    /// Sets fields of the hash `key`, in order (`HSET`).
    SetFields { key: String, fields: Vec<Field> },
    /// Answers with the value of one field of the hash `key` (`HGET`).
    GetField { key: String, field: String },
    /// Answers with all fields of the hash `key` (`HGETALL`).
    GetAllFields { key: String },
}

/// A command as plain values.
pub enum CommandView {
    PushHead { key: Seq<char>, value: Seq<char> },
    MoveTailToHead { source: Seq<char>, destination: Seq<char> },
    RemoveLast { key: Seq<char>, value: Seq<char> },
    SetFields { key: Seq<char>, fields: Seq<(Seq<char>, Seq<u8>)> },
    GetField { key: Seq<char>, field: Seq<char> },
    GetAllFields { key: Seq<char> },
}

impl View for Command {
    type V = CommandView;

    open spec fn view(&self) -> CommandView {
        match self {
            Command::PushHead { key, value } => CommandView::PushHead { key: key@, value: value@ },
            Command::MoveTailToHead { source, destination } => CommandView::MoveTailToHead {
                source: source@,
                destination: destination@,
            },
            Command::RemoveLast { key, value } => CommandView::RemoveLast {
                key: key@,
                value: value@,
            },
            Command::SetFields { key, fields } => CommandView::SetFields {
                key: key@,
                fields: fields_view(fields@),
            },
            Command::GetField { key, field } => CommandView::GetField { key: key@, field: field@ },
            Command::GetAllFields { key } => CommandView::GetAllFields { key: key@ },
        }
    }
}

/// The commands of a list, each as plain values.
pub open spec fn commands_view(commands: Seq<Command>) -> Seq<CommandView> {
    commands.map_values(|c: Command| c@)
}

/// The key of the list of ids that wait in the queue `name`.
pub open spec fn queue_key(name: Seq<char>) -> Seq<char> {
    "queue:"@ + name
}

/// The key of the list of ids that were handed out from the queue `name`
/// and not yet acknowledged.
pub open spec fn ack_key(name: Seq<char>) -> Seq<char> {
    "queue:ack:"@ + name
}

/// The key of the hash that holds the record of the operation `id`.
pub open spec fn operation_key(id: Seq<char>) -> Seq<char> {
    "operation:"@ + id
}

/// The key of the waiting list of the queue `name`.
pub fn make_queue_key(name: &str) -> (key: String)
    ensures
        key@ == queue_key(name@),
{
    join("queue:", name)
}

/// The key of the in-flight list of the queue `name`.
pub fn make_ack_key(name: &str) -> (key: String)
    ensures
        key@ == ack_key(name@),
{
    join("queue:ack:", name)
}

/// The key of the record of the operation `id`.
pub fn make_operation_key(id: &str) -> (key: String)
    ensures
        key@ == operation_key(id@),
{
    join("operation:", id)
}

} // verus!
