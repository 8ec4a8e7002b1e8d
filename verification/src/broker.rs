//! The broker: it accepts a task and answers with the handle of the
//! operation that will carry it out.

use vstd::prelude::*;
use crate::codec::Encoder;
use crate::context::Context;
use crate::ident::is_uuid_text;
use crate::operation::{pending_operation, Operation};
use crate::queue::{is_clock_error, offer_commands, Offer, RedisQueue, RedisQueueError};
use crate::store::{commands_view, Command};
use crate::text::{join, read_text};

verus! {

/// Why the broker could not accept a task.
#[derive(Debug)]
pub enum BrokerError {
    /// The queue failed.
    QueueError(RedisQueueError),
}

impl From<RedisQueueError> for BrokerError {
    fn from(error: RedisQueueError) -> (wrapped: BrokerError) {
        BrokerError::QueueError(error)
    }
}

impl vstd::std_specs::convert::FromSpecImpl<RedisQueueError> for BrokerError {
    open spec fn obeys_from_spec() -> bool {
        true
    }

    open spec fn from_spec(error: RedisQueueError) -> BrokerError {
        BrokerError::QueueError(error)
    }
}

impl BrokerError {
    /// What the error says, in words.
    pub open spec fn text(self) -> Seq<char> {
        match self {
            BrokerError::QueueError(error) => "Failed to enqueue the task: "@ + error.text(),
        }
    }

    /// What the error says, in words.
    pub fn to_text(&self) -> (text: String)
        ensures
            text@ == self.text(),
    {
        match self {
            BrokerError::QueueError(error) => {
                let inner = error.to_text();
                join("Failed to enqueue the task: ", inner.as_str())
            },
        }
    }
}

/// A broker over one queue.
#[derive(Debug)]
pub struct RedisBroker {
    queue: RedisQueue,
}

/// What `enqueue` decided: the handle to answer with, and the commands
/// that enqueue the task. The handle is the answer once the store has
/// taken the commands.
#[derive(Debug)]
pub struct Enqueued {
    pub operation: Operation,
    pub commands: Vec<Command>,
}

impl RedisBroker {
    /// The name of the broker's queue.
    pub closed spec fn spec_queue_name(&self) -> Seq<char> {
        self.queue.spec_name()
    }

    /// The name of the type of the tasks that the broker accepts.
    pub closed spec fn spec_task_type(&self) -> Seq<char> {
        self.queue.spec_task_type()
    }

    /// A broker over the queue `queue_name`, for tasks of the type
    /// `task_type`.
    pub fn new(queue_name: &str, task_type: &str) -> (broker: RedisBroker)
        ensures
            broker.spec_queue_name() == queue_name@,
            broker.spec_task_type() == task_type@,
    {
        RedisBroker {
            queue: RedisQueue::new(String::from_str(queue_name), String::from_str(task_type)),
        }
    }

    /// The broker's queue.
    pub fn queue(&self) -> (queue: &RedisQueue)
        ensures
            queue.spec_name() == self.spec_queue_name(),
            queue.spec_task_type() == self.spec_task_type(),
    {
        &self.queue
    }

    /// The handle and the commands of an offer that the queue made, or its
    /// failure, wrapped once.
    pub fn accepted(offered: Result<Offer, RedisQueueError>) -> (result: Result<
        Enqueued,
        BrokerError,
    >)
        ensures
            match offered {
                Ok(offer) => result matches Ok(enqueued) && enqueued.operation@
                    == pending_operation(offer.id@) && enqueued.commands == offer.commands,
                Err(error) => result == Err::<Enqueued, BrokerError>(
                    BrokerError::QueueError(error),
                ),
            },
    {
        match offered {
            Ok(offer) => Ok(
                Enqueued { operation: Operation::pending(offer.id), commands: offer.commands },
            ),
            Err(error) => Err(BrokerError::from(error)),
        }
    }

    /// Accepts `item`: encodes it, offers it to the queue and gives the
    /// commands to send with the handle of the new operation. Fails where
    /// the encoder or the queue does, wrapped once, and then gives no
    /// commands.
    pub fn enqueue_item<E: Encoder>(&self, encoder: &mut E, item: &E::Item, ctx: &Context) -> (result:
        Result<Enqueued, BrokerError>)
        ensures
            match result {
                Ok(enqueued) => {
                    &&& is_uuid_text(enqueued.operation@.operation_id)
                    &&& enqueued.operation@ == pending_operation(enqueued.operation@.operation_id)
                    &&& exists|publish_ts: i64, task: Seq<u8>|
                        commands_view(enqueued.commands@) == #[trigger] offer_commands(
                            self.spec_queue_name(),
                            self.spec_task_type(),
                            enqueued.operation@.operation_id,
                            publish_ts,
                            read_text(task),
                            ctx.spec_user_id(),
                        )
                },
                Err(BrokerError::QueueError(error)) => is_clock_error(error)
                    || error is CodecError,
            },
    {
        let offered = self.queue.offer_item(encoder, item, ctx);
        proof {
            if offered is Ok {
                let offer = offered->Ok_0;
                let (publish_ts, task) = choose|publish_ts: i64, task: Seq<u8>|
                    commands_view(offer.commands@) == #[trigger] offer_commands(
                        self.spec_queue_name(),
                        self.spec_task_type(),
                        offer.id@,
                        publish_ts,
                        read_text(task),
                        ctx.spec_user_id(),
                    );
                assert(commands_view(offer.commands@) == offer_commands(
                    self.spec_queue_name(),
                    self.spec_task_type(),
                    pending_operation(offer.id@).operation_id,
                    publish_ts,
                    read_text(task),
                    ctx.spec_user_id(),
                ));
            }
        }
        Self::accepted(offered)
    }

    /// Accepts the encoded task `task`: offers it to the queue and gives
    /// the commands to send with the handle of the new operation. The
    /// handle holds the id and nothing else, and is not done.
    ///
    /// Fails only where the queue does, wrapped once.
    pub fn enqueue(&self, task: &[u8], ctx: &Context) -> (result: Result<Enqueued, BrokerError>)
        ensures
            match result {
                Ok(enqueued) => {
                    &&& is_uuid_text(enqueued.operation@.operation_id)
                    &&& enqueued.operation@ == pending_operation(enqueued.operation@.operation_id)
                    &&& exists|publish_ts: i64|
                        commands_view(enqueued.commands@) == #[trigger] offer_commands(
                            self.spec_queue_name(),
                            self.spec_task_type(),
                            enqueued.operation@.operation_id,
                            publish_ts,
                            read_text(task@),
                            ctx.spec_user_id(),
                        )
                },
                Err(BrokerError::QueueError(error)) => is_clock_error(error),
            },
    {
        let offered = self.queue.offer(task, ctx);
        proof {
            if offered is Ok {
                let offer = offered->Ok_0;
                let publish_ts = choose|publish_ts: i64|
                    commands_view(offer.commands@) == #[trigger] offer_commands(
                        self.spec_queue_name(),
                        self.spec_task_type(),
                        offer.id@,
                        publish_ts,
                        read_text(task@),
                        ctx.spec_user_id(),
                    );
                assert(commands_view(offer.commands@) == offer_commands(
                    self.spec_queue_name(),
                    self.spec_task_type(),
                    pending_operation(offer.id@).operation_id,
                    publish_ts,
                    read_text(task@),
                    ctx.spec_user_id(),
                ));
            }
        }
        Self::accepted(offered)
    }
}

} // verus!
