//! The queue: what each of its operations sends to the store, and what the
//! store's answers mean.
//!
//! An operation is carried out in steps. Each step is a function that takes
//! what the store answered last and gives the commands to send next, or the
//! outcome. A list of commands is to be run as one transaction.

use vstd::prelude::*;
use vstd::utf8::*;
use crate::clock::clock_nanos;
use crate::codec::{Decoder, Encoder};
use crate::context::Context;
use crate::decimal::{decimal_text, format_i64};
use crate::ident::{fresh_id, is_uuid_text};
use crate::operation::text_of;
use crate::operation::{find_field, text_field};
use crate::store::{ack_key, commands_view, fields_view, operation_key, queue_key};
use crate::store::{make_ack_key, make_operation_key, make_queue_key};
use crate::store::{Command, CommandView, Field};
use crate::text::{bytes_text, join, read_text, same_text, text_bytes};

verus! {

/// Why a queue operation failed.
#[derive(Debug)]
pub enum RedisQueueError {
    /// The store refused a command, or could not be reached.
    Redis(String),
    /// A task could not be encoded or decoded.
    CodecError(String),
    /// The task that was pulled is of another type than the consumer's:
    /// the type expected, then the type found.
    InvalidTaskType(String, String),
    /// Something that should hold does not.
    Internal(String),
    /// The store has no record of what was asked for.
    NotFound(String),
    /// Any other failure.
    Unknown(String),
}

/// A task that was pulled from the queue, with the id to acknowledge it by.
#[derive(Debug)]
pub struct RedisMessage<T> {
    pub ack_id: String,
    pub data: T,
}

impl<T> RedisMessage<T> {
    /// The id to acknowledge the message by: that of its operation.
    pub fn ack_id(&self) -> (id: &str)
        ensures
            id@ == self.ack_id@,
    {
        self.ack_id.as_str()
    }

    /// The task.
    pub fn data(&self) -> (data: &T)
        ensures
            *data == self.data,
    {
        &self.data
    }
}

/// A queue of tasks of one type, by its name in the store.
#[derive(Debug)]
pub struct RedisQueue {
    queue: String,
    task_type: String,
}

/// A field whose value is the UTF-8 form of a text.
pub open spec fn text_entry(name: Seq<char>, text: Seq<char>) -> (Seq<char>, Seq<u8>) {
    (name, encode_utf8(text))
}

/// A field whose value is a time, in decimal.
pub open spec fn time_entry(name: Seq<char>, nanos: i64) -> (Seq<char>, Seq<u8>) {
    (name, decimal_text(nanos as int))
}

/// What `offer` sends: the id goes to the head of the waiting list, and the
/// record of the operation is written, with the status `New`.
pub open spec fn offer_commands(
    queue: Seq<char>,
    task_type: Seq<char>,
    id: Seq<char>,
    publish_ts: i64,
    task: Seq<char>,
    user_id: Seq<char>,
) -> Seq<CommandView> {
    seq![
        CommandView::PushHead { key: queue_key(queue), value: id },
        CommandView::SetFields {
            key: operation_key(id),
            fields: seq![
                text_entry("status"@, "New"@),
                text_entry("operation_id"@, id),
                text_entry("queue"@, queue),
                time_entry("publish_ts"@, publish_ts),
                text_entry("task"@, task),
                text_entry("user_id"@, user_id),
                text_entry("task_type"@, task_type),
            ],
        },
    ]
}

/// The command that hands one id over: from the tail of the waiting list of
/// `queue` to the head of its in-flight list.
pub open spec fn hand_over_command(queue: Seq<char>) -> CommandView {
    CommandView::MoveTailToHead { source: queue_key(queue), destination: ack_key(queue) }
}

/// What `pull` sends once an id was handed over: it notes who took the task
/// and when, and asks for the record.
pub open spec fn claim_commands(
    id: Seq<char>,
    system_id: Seq<char>,
    user_id: Seq<char>,
    dequeue_ts: i64,
) -> Seq<CommandView> {
    seq![
        CommandView::SetFields {
            key: operation_key(id),
            fields: seq![
                text_entry("dequeue_system_id"@, system_id),
                time_entry("dequeue_ts"@, dequeue_ts),
                text_entry("dequeue_user_id"@, user_id),
            ],
        },
        CommandView::GetAllFields { key: operation_key(id) },
    ]
}

/// The command by which `ack` asks for the queue of an operation.
pub open spec fn queue_lookup_command(ack_id: Seq<char>) -> CommandView {
    CommandView::GetField { key: operation_key(ack_id), field: "queue"@ }
}

/// What `ack` sends once it knows the queue: it notes who acknowledged and
/// when, and takes one occurrence of the id out of the in-flight list of
/// that queue.
pub open spec fn ack_commands(
    ack_id: Seq<char>,
    queue: Seq<char>,
    system_id: Seq<char>,
    user_id: Seq<char>,
    ack_ts: i64,
) -> Seq<CommandView> {
    seq![
        CommandView::SetFields {
            key: operation_key(ack_id),
            fields: seq![
                text_entry("ack_system_id"@, system_id),
                time_entry("ack_ts"@, ack_ts),
                text_entry("ack_user_id"@, user_id),
            ],
        },
        CommandView::RemoveLast { key: ack_key(queue), value: ack_id },
    ]
}

/// The field in which an outcome is kept: `result` for the encoded result
/// of a success, `error` for the encoded status of a failure.
pub open spec fn outcome_entry(outcome: Result<Seq<u8>, Seq<u8>>) -> (Seq<char>, Seq<u8>) {
    match outcome {
        Ok(result) => ("result"@, result),
        Err(status) => ("error"@, status),
    }
}

/// What `complete` sends: the record is marked done and `Terminated`, with
/// the time, and the outcome is written to it.
pub open spec fn complete_commands(
    id: Seq<char>,
    outcome: Result<Seq<u8>, Seq<u8>>,
    end_ts: i64,
) -> Seq<CommandView> {
    seq![
        CommandView::SetFields {
            key: operation_key(id),
            fields: seq![
                text_entry("done"@, "true"@),
                text_entry("status"@, "Terminated"@),
                time_entry("end_ts"@, end_ts),
            ],
        },
        CommandView::SetFields { key: operation_key(id), fields: seq![outcome_entry(outcome)] },
    ]
}

/// The command by which `read` asks for the record of an operation.
pub open spec fn read_command(id: Seq<char>) -> CommandView {
    CommandView::GetAllFields { key: operation_key(id) }
}

/// An outcome as plain values.
pub open spec fn outcome_view(outcome: Result<Vec<u8>, Vec<u8>>) -> Result<Seq<u8>, Seq<u8>> {
    match outcome {
        Ok(result) => Ok(result@),
        Err(status) => Err(status@),
    }
}

/// A field that holds the UTF-8 form of `text`.
pub fn text_entry_of(name: &str, text: &str) -> (field: Field)
    ensures
        field@ == text_entry(name@, text@),
{
    Field { name: String::from_str(name), value: text_bytes(text) }
}

/// A field that holds the time `nanos`, in decimal.
pub fn time_entry_of(name: &str, nanos: i64) -> (field: Field)
    ensures
        field@ == time_entry(name@, nanos),
{
    Field { name: String::from_str(name), value: format_i64(nanos) }
}

/// The bytes of the task in a record: none where the record has no task.
pub open spec fn task_of(record: Seq<(Seq<char>, Seq<u8>)>) -> Seq<u8> {
    match crate::store::field_value(record, "task"@) {
        Some(bytes) => bytes,
        None => Seq::empty(),
    }
}

/// Whether `error` says that a task of the type `found` was pulled where
/// `expected` was asked for.
pub open spec fn is_invalid_task_type(
    error: RedisQueueError,
    expected: Seq<char>,
    found: Seq<char>,
) -> bool {
    error matches RedisQueueError::InvalidTaskType(e, f) && e@ == expected && f@ == found
}

/// Whether `error` says that the task of a record could not be decoded.
pub open spec fn is_decode_failure(error: RedisQueueError) -> bool {
    error matches RedisQueueError::Internal(message) && message@ == "Failed to decode task"@
}

/// Whether `error` says that the record of `ack_id` names no queue.
pub open spec fn is_missing_queue(error: RedisQueueError, ack_id: Seq<char>) -> bool {
    error matches RedisQueueError::NotFound(message) && message@
        == "Missing operation queue info for ack_id = "@ + ack_id
}

/// What `offer` decided: the id of the new operation, and the commands
/// that enqueue it.
#[derive(Debug)]
pub struct Offer {
    pub id: String,
    pub commands: Vec<Command>,
}

/// What `pull` decided once an id was handed over: the id, and the
/// commands that claim its record.
#[derive(Debug)]
pub struct Claim {
    pub id: String,
    pub commands: Vec<Command>,
}

/// Whether `error` says that the clock shows a time that cannot be
/// written down.
pub open spec fn is_clock_error(error: RedisQueueError) -> bool {
    error matches RedisQueueError::Internal(message) && message@ == "Clock out of range"@
}

/// The time that the clock gave, or the failure of an operation that
/// needs the time when the clock gave none.
pub fn time_or_error(reading: Option<i64>) -> (result: Result<i64, RedisQueueError>)
    ensures
        match reading {
            Some(nanos) => result == Ok::<i64, RedisQueueError>(nanos),
            None => result matches Err(error) && is_clock_error(error),
        },
{
    match reading {
        Some(nanos) => Ok(nanos),
        None => Err(RedisQueueError::Internal(String::from_str("Clock out of range"))),
    }
}

impl RedisQueue {
    /// The name of the queue.
    pub closed spec fn spec_name(&self) -> Seq<char> {
        self.queue@
    }

    /// The name of the type of the tasks in the queue.
    pub closed spec fn spec_task_type(&self) -> Seq<char> {
        self.task_type@
    }

    /// The queue `queue` of tasks of the type `task_type`.
    pub fn new(queue: String, task_type: String) -> (q: RedisQueue)
        ensures
            q.spec_name() == queue@,
            q.spec_task_type() == task_type@,
    {
        RedisQueue { queue, task_type }
    }

    /// The name of the queue.
    pub fn name(&self) -> (name: &str)
        ensures
            name@ == self.spec_name(),
    {
        self.queue.as_str()
    }

    /// The name of the type of the tasks in the queue.
    pub fn task_type(&self) -> (name: &str)
        ensures
            name@ == self.spec_task_type(),
    {
        self.task_type.as_str()
    }

    /// The commands that enqueue `task` as the operation `id`, published at
    /// `publish_ts`.
    pub fn offer_at(&self, id: &str, publish_ts: i64, task: &str, ctx: &Context) -> (commands:
        Vec<Command>)
        ensures
            commands_view(commands@) == offer_commands(
                self.spec_name(),
                self.spec_task_type(),
                id@,
                publish_ts,
                task@,
                ctx.spec_user_id(),
            ),
    {
        let mut fields: Vec<Field> = Vec::new();
        fields.push(text_entry_of("status", "New"));
        fields.push(text_entry_of("operation_id", id));
        fields.push(text_entry_of("queue", self.queue.as_str()));
        fields.push(time_entry_of("publish_ts", publish_ts));
        fields.push(text_entry_of("task", task));
        fields.push(text_entry_of("user_id", ctx.user_id()));
        fields.push(text_entry_of("task_type", self.task_type.as_str()));
        let mut commands: Vec<Command> = Vec::new();
        commands.push(
            Command::PushHead { key: make_queue_key(self.queue.as_str()), value: String::from_str(id) },
        );
        commands.push(Command::SetFields { key: make_operation_key(id), fields });
        proof {
            let expected = offer_commands(
                self.spec_name(),
                self.spec_task_type(),
                id@,
                publish_ts,
                task@,
                ctx.spec_user_id(),
            );
            assert(commands@[1]@->SetFields_fields =~= expected[1]->SetFields_fields);
            assert(commands_view(commands@) =~= expected);
        }
        commands
    }

    /// Enqueues a task: draws a fresh id, reads the clock, and gives the id
    /// with the commands that put it at the head of the waiting list and
    /// write its record. `task` is the encoded task; it is kept as text.
    ///
    /// Fails only where the clock gives no time.
    pub fn offer(&self, task: &[u8], ctx: &Context) -> (result: Result<Offer, RedisQueueError>)
        ensures
            match result {
                Ok(offer) => {
                    &&& is_uuid_text(offer.id@)
                    &&& exists|publish_ts: i64|
                        commands_view(offer.commands@) == #[trigger] offer_commands(
                            self.spec_name(),
                            self.spec_task_type(),
                            offer.id@,
                            publish_ts,
                            read_text(task@),
                            ctx.spec_user_id(),
                        )
                },
                Err(error) => is_clock_error(error),
            },
    {
        let id = fresh_id();
        let text = bytes_text(task);
        assert(text@ == read_text(task@));
        match time_or_error(clock_nanos()) {
            Ok(publish_ts) => {
                let commands = self.offer_at(id.as_str(), publish_ts, text.as_str(), ctx);
                Ok(Offer { id, commands })
            },
            Err(error) => Err(error),
        }
    }

    /// The first command of `pull`: it hands one id over, from the tail of
    /// the waiting list to the head of the in-flight list.
    pub fn pull(&self) -> (command: Command)
        ensures
            command@ == hand_over_command(self.spec_name()),
    {
        Command::MoveTailToHead {
            source: make_queue_key(self.queue.as_str()),
            destination: make_ack_key(self.queue.as_str()),
        }
    }
}

impl RedisQueue {
    /// The commands that claim the record of `id` for the caller, at the
    /// time `dequeue_ts`, and ask for it.
    pub fn pull_claim_at(id: &str, dequeue_ts: i64, ctx: &Context) -> (commands: Vec<Command>)
        ensures
            commands_view(commands@) == claim_commands(
                id@,
                ctx.spec_system_id(),
                ctx.spec_user_id(),
                dequeue_ts,
            ),
    {
        let mut fields: Vec<Field> = Vec::new();
        fields.push(text_entry_of("dequeue_system_id", ctx.system_id()));
        fields.push(time_entry_of("dequeue_ts", dequeue_ts));
        fields.push(text_entry_of("dequeue_user_id", ctx.user_id()));
        let mut commands: Vec<Command> = Vec::new();
        commands.push(Command::SetFields { key: make_operation_key(id), fields });
        commands.push(Command::GetAllFields { key: make_operation_key(id) });
        proof {
            let expected = claim_commands(
                id@,
                ctx.spec_system_id(),
                ctx.spec_user_id(),
                dequeue_ts,
            );
            assert(commands@[0]@->SetFields_fields =~= expected[0]->SetFields_fields);
            assert(commands_view(commands@) =~= expected);
        }
        commands
    }

    /// The second step of `pull`, on the store's answer to the first.
    /// Where no id was handed over, the queue is empty and there is
    /// nothing more to send. Where one was, reads the clock and gives the
    /// commands that claim its record and ask for it.
    ///
    /// Fails only where the clock gives no time.
    pub fn pull_claim(moved: Option<String>, ctx: &Context) -> (result: Result<
        Option<Claim>,
        RedisQueueError,
    >)
        ensures
            match result {
                Ok(None) => moved is None,
                Ok(Some(claim)) => {
                    &&& moved == Some(claim.id)
                    &&& exists|dequeue_ts: i64|
                        commands_view(claim.commands@) == #[trigger] claim_commands(
                            claim.id@,
                            ctx.spec_system_id(),
                            ctx.spec_user_id(),
                            dequeue_ts,
                        )
                },
                Err(error) => moved is Some && is_clock_error(error),
            },
    {
        match moved {
            None => Ok(None),
            Some(id) => match time_or_error(clock_nanos()) {
                Ok(dequeue_ts) => {
                    let commands = Self::pull_claim_at(id.as_str(), dequeue_ts, ctx);
                    Ok(Some(Claim { id, commands }))
                },
                Err(error) => Err(error),
            },
        }
    }

    /// The third step of `pull`, on the record that the store answered
    /// with. Where the record is of a task of this queue's type, gives the
    /// bytes of the task, to be decoded. Where it is of another type,
    /// fails, and sends nothing: the id stays in the in-flight list.
    pub fn pull_receive(&self, record: &Vec<Field>) -> (result: Result<Vec<u8>, RedisQueueError>)
        ensures
            match result {
                Ok(task) => {
                    &&& text_of(fields_view(record@), "task_type"@) == self.spec_task_type()
                    &&& task@ == task_of(fields_view(record@))
                },
                Err(error) => {
                    &&& text_of(fields_view(record@), "task_type"@) != self.spec_task_type()
                    &&& is_invalid_task_type(
                        error,
                        self.spec_task_type(),
                        text_of(fields_view(record@), "task_type"@),
                    )
                },
            },
    {
        let found = text_field(record, "task_type");
        if !same_text(found.as_str(), self.task_type.as_str()) {
            return Err(RedisQueueError::InvalidTaskType(self.task_type.clone(), found));
        }
        match find_field(record, "task") {
            Some(bytes) => Ok(bytes.clone()),
            None => Ok(Vec::new()),
        }
    }

    /// The last step of `pull`, on what the decoder made of the task: the
    /// message, where it made a task of it; a failure where it made none
    /// or failed itself.
    pub fn pull_deliver<T>(ack_id: String, decoded: Result<Option<T>, String>) -> (result: Result<
        RedisMessage<T>,
        RedisQueueError,
    >)
        ensures
            match decoded {
                Ok(Some(task)) => result matches Ok(message) && message.ack_id == ack_id
                    && message.data == task,
                Ok(None) => result matches Err(error) && is_decode_failure(error),
                Err(reason) => result matches Err(RedisQueueError::CodecError(r)) && r == reason,
            },
    {
        match decoded {
            Ok(Some(task)) => Ok(RedisMessage { ack_id, data: task }),
            Ok(None) => Err(RedisQueueError::Internal(String::from_str("Failed to decode task"))),
            Err(reason) => Err(RedisQueueError::CodecError(reason)),
        }
    }

    /// The first command of `ack`: it asks the record of `ack_id` for its
    /// queue.
    pub fn ack(ack_id: &str) -> (command: Command)
        ensures
            command@ == queue_lookup_command(ack_id@),
    {
        Command::GetField { key: make_operation_key(ack_id), field: String::from_str("queue") }
    }

    /// The commands that acknowledge `ack_id`, of the queue `queue`, at the
    /// time `ack_ts`.
    pub fn ack_release_at(ack_id: &str, queue: &str, ack_ts: i64, ctx: &Context) -> (commands:
        Vec<Command>)
        ensures
            commands_view(commands@) == ack_commands(
                ack_id@,
                queue@,
                ctx.spec_system_id(),
                ctx.spec_user_id(),
                ack_ts,
            ),
    {
        let mut fields: Vec<Field> = Vec::new();
        fields.push(text_entry_of("ack_system_id", ctx.system_id()));
        fields.push(time_entry_of("ack_ts", ack_ts));
        fields.push(text_entry_of("ack_user_id", ctx.user_id()));
        let mut commands: Vec<Command> = Vec::new();
        commands.push(Command::SetFields { key: make_operation_key(ack_id), fields });
        commands.push(
            Command::RemoveLast { key: make_ack_key(queue), value: String::from_str(ack_id) },
        );
        proof {
            let expected = ack_commands(
                ack_id@,
                queue@,
                ctx.spec_system_id(),
                ctx.spec_user_id(),
                ack_ts,
            );
            assert(commands@[0]@->SetFields_fields =~= expected[0]->SetFields_fields);
            assert(commands_view(commands@) =~= expected);
        }
        commands
    }

    /// The second step of `ack`, on the store's answer to the first. Where
    /// the record names no queue, the id is unknown. Where it names one,
    /// reads the clock and gives the commands that note the
    /// acknowledgement and take the id out of the in-flight list of that
    /// queue. The operation is not marked done: that is for `complete`.
    ///
    /// Fails also where the clock gives no time.
    pub fn ack_release(ack_id: &str, queue: Option<String>, ctx: &Context) -> (result: Result<
        Vec<Command>,
        RedisQueueError,
    >)
        ensures
            match result {
                Ok(commands) => queue matches Some(name) && exists|ack_ts: i64|
                    commands_view(commands@) == #[trigger] ack_commands(
                        ack_id@,
                        name@,
                        ctx.spec_system_id(),
                        ctx.spec_user_id(),
                        ack_ts,
                    ),
                Err(error) => if queue is None {
                    is_missing_queue(error, ack_id@)
                } else {
                    is_clock_error(error)
                },
            },
    {
        match queue {
            None => Err(
                RedisQueueError::NotFound(join("Missing operation queue info for ack_id = ", ack_id)),
            ),
            Some(name) => match time_or_error(clock_nanos()) {
                Ok(ack_ts) => Ok(Self::ack_release_at(ack_id, name.as_str(), ack_ts, ctx)),
                Err(error) => Err(error),
            },
        }
    }

    /// The commands that complete the operation `id` with `outcome`, at the
    /// time `end_ts`.
    pub fn complete_at(id: &str, outcome: Result<Vec<u8>, Vec<u8>>, end_ts: i64) -> (commands: Vec<
        Command,
    >)
        ensures
            commands_view(commands@) == complete_commands(id@, outcome_view(outcome), end_ts),
    {
        let mut fields: Vec<Field> = Vec::new();
        fields.push(text_entry_of("done", "true"));
        fields.push(text_entry_of("status", "Terminated"));
        fields.push(time_entry_of("end_ts", end_ts));
        let entry = match outcome {
            Ok(result) => Field { name: String::from_str("result"), value: result },
            Err(status) => Field { name: String::from_str("error"), value: status },
        };
        let mut last: Vec<Field> = Vec::new();
        last.push(entry);
        let mut commands: Vec<Command> = Vec::new();
        commands.push(Command::SetFields { key: make_operation_key(id), fields });
        commands.push(Command::SetFields { key: make_operation_key(id), fields: last });
        proof {
            let expected = complete_commands(id@, outcome_view(outcome), end_ts);
            assert(commands@[0]@->SetFields_fields =~= expected[0]->SetFields_fields);
            assert(commands@[1]@->SetFields_fields =~= expected[1]->SetFields_fields);
            assert(commands_view(commands@) =~= expected);
        }
        commands
    }

    /// Completes the operation `id`: reads the clock and gives the commands
    /// that mark its record done and write the outcome to it, the encoded
    /// result of a success or the encoded status of a failure.
    ///
    /// Fails only where the clock gives no time.
    pub fn complete(id: &str, outcome: Result<Vec<u8>, Vec<u8>>, _ctx: &Context) -> (result:
        Result<Vec<Command>, RedisQueueError>)
        ensures
            match result {
                Ok(commands) => exists|end_ts: i64|
                    commands_view(commands@) == #[trigger] complete_commands(
                        id@,
                        outcome_view(outcome),
                        end_ts,
                    ),
                Err(error) => is_clock_error(error),
            },
    {
        match time_or_error(clock_nanos()) {
            Ok(end_ts) => Ok(Self::complete_at(id, outcome, end_ts)),
            Err(error) => Err(error),
        }
    }

    /// The command of `read`: it asks for the record of `id`. What the
    /// store answers is read with [`crate::operation::Operation::from_fields`].
    pub fn read(id: &str) -> (command: Command)
        ensures
            command@ == read_command(id@),
    {
        Command::GetAllFields { key: make_operation_key(id) }
    }
}

impl RedisQueue {
    /// Offers what an encoder made of a task: `encoded` is what the encoder
    /// returned and `buffer` what it wrote. Where the encoder failed, fails
    /// with its reason and gives no commands, so that nothing is sent and
    /// the store stays as it was; no id is drawn then. Where it succeeded,
    /// offers the bytes as [`RedisQueue::offer`] does.
    pub fn offer_encoded(&self, encoded: Result<(), String>, buffer: &[u8], ctx: &Context) -> (result:
        Result<Offer, RedisQueueError>)
        ensures
            match encoded {
                Err(reason) => result matches Err(RedisQueueError::CodecError(r)) && r == reason,
                Ok(()) => match result {
                    Ok(offer) => {
                        &&& is_uuid_text(offer.id@)
                        &&& exists|publish_ts: i64|
                            commands_view(offer.commands@) == #[trigger] offer_commands(
                                self.spec_name(),
                                self.spec_task_type(),
                                offer.id@,
                                publish_ts,
                                read_text(buffer@),
                                ctx.spec_user_id(),
                            )
                    },
                    Err(error) => is_clock_error(error),
                },
            },
    {
        match encoded {
            Err(reason) => Err(RedisQueueError::CodecError(reason)),
            Ok(()) => self.offer(buffer, ctx),
        }
    }

    /// Encodes `item` into an empty buffer and offers what the encoder
    /// wrote, as [`RedisQueue::offer_encoded`] says. Fails where the
    /// encoder does, and then gives no commands.
    pub fn offer_item<E: Encoder>(&self, encoder: &mut E, item: &E::Item, ctx: &Context) -> (result:
        Result<Offer, RedisQueueError>)
        ensures
            match result {
                Ok(offer) => {
                    &&& is_uuid_text(offer.id@)
                    &&& exists|publish_ts: i64, task: Seq<u8>|
                        commands_view(offer.commands@) == #[trigger] offer_commands(
                            self.spec_name(),
                            self.spec_task_type(),
                            offer.id@,
                            publish_ts,
                            read_text(task),
                            ctx.spec_user_id(),
                        )
                },
                Err(error) => is_clock_error(error) || error is CodecError,
            },
    {
        let mut buffer: Vec<u8> = Vec::new();
        let encoded = encoder.encode(item, &mut buffer);
        self.offer_encoded(encoded, buffer.as_slice(), ctx)
    }

    /// The last steps of `pull` in one, on the record that the store
    /// answered with: checks the type of the task, decodes the task and
    /// gives the message. Fails, and gives no task, where the record is of
    /// another type; the decoder is not asked then.
    pub fn pull_decode<D: Decoder>(
        &self,
        ack_id: String,
        record: &Vec<Field>,
        decoder: &mut D,
    ) -> (result: Result<RedisMessage<D::Item>, RedisQueueError>)
        ensures
            text_of(fields_view(record@), "task_type"@) != self.spec_task_type() ==> (
            result matches Err(error) && is_invalid_task_type(
                error,
                self.spec_task_type(),
                text_of(fields_view(record@), "task_type"@),
            )),
            text_of(fields_view(record@), "task_type"@) == self.spec_task_type() ==> (
            match result {
                Ok(message) => message.ack_id == ack_id,
                Err(error) => is_decode_failure(error) || error is CodecError,
            }),
    {
        match self.pull_receive(record) {
            Ok(mut task) => {
                let decoded = decoder.decode(&mut task);
                Self::pull_deliver(ack_id, decoded)
            },
            Err(error) => Err(error),
        }
    }
}

impl RedisQueueError {
    /// What the error says, in words.
    pub open spec fn text(self) -> Seq<char> {
        match self {
            RedisQueueError::Redis(reason) => "Redis command failed: "@ + reason@,
            RedisQueueError::CodecError(_) => "Failed at codec"@,
            RedisQueueError::InvalidTaskType(expected, found) => "Invalid Task Type. Expected "@
                + expected@ + ", Found "@ + found@,
            RedisQueueError::Internal(reason) => "Internal: "@ + reason@,
            RedisQueueError::NotFound(reason) => "NotFound: "@ + reason@,
            RedisQueueError::Unknown(_) => "Unknown"@,
        }
    }

    /// What the error says, in words.
    pub fn to_text(&self) -> (text: String)
        ensures
            text@ == self.text(),
    {
        match self {
            RedisQueueError::Redis(reason) => join("Redis command failed: ", reason.as_str()),
            RedisQueueError::CodecError(_) => String::from_str("Failed at codec"),
            RedisQueueError::InvalidTaskType(expected, found) => {
                let mut text = join("Invalid Task Type. Expected ", expected.as_str());
                text.append(", Found ");
                text.append(found.as_str());
                text
            },
            RedisQueueError::Internal(reason) => join("Internal: ", reason.as_str()),
            RedisQueueError::NotFound(reason) => join("NotFound: ", reason.as_str()),
            RedisQueueError::Unknown(_) => String::from_str("Unknown"),
        }
    }
}

} // verus!
