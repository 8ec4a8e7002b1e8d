use longrunning::broker::{BrokerError, RedisBroker};
use longrunning::codec::{Decoder, Encoder};
use longrunning::context::Context;
use longrunning::decimal::parse_i64;
use longrunning::memory::{MemoryStore, Reply};
use longrunning::operation::{find_field, Operation};
use longrunning::queue::{RedisMessage, RedisQueue, RedisQueueError};
use longrunning::store::Field;

#[derive(Clone, Debug, PartialEq, Eq)]
struct Task {
    item: i32,
}

struct TaskCodec;

impl Encoder for TaskCodec {
    type Item = Task;

    fn encode(&mut self, item: &Task, buffer: &mut Vec<u8>) -> Result<(), String> {
        let mut object = serde_json::Map::new();
        object.insert("item".to_string(), serde_json::Value::from(item.item));
        let bytes = serde_json::to_vec(&serde_json::Value::Object(object)).map_err(|e| e.to_string())?;
        buffer.extend_from_slice(&bytes);
        Ok(())
    }
}

impl Decoder for TaskCodec {
    type Item = Task;

    fn decode(&mut self, buffer: &mut Vec<u8>) -> Result<Option<Task>, String> {
        if buffer.is_empty() {
            return Ok(None);
        }
        let value: serde_json::Value =
            serde_json::from_slice(buffer.as_slice()).map_err(|e| e.to_string())?;
        match value.get("item").and_then(|v| v.as_i64()) {
            Some(item) => Ok(Some(Task { item: item as i32 })),
            None => Ok(None),
        }
    }
}

fn context() -> Context {
    Context::new("s1".to_string(), "1234".to_string())
}

fn task_queue(name: &str) -> RedisQueue {
    RedisQueue::new(name.to_string(), "demo::Task".to_string())
}

fn offer_task(store: &mut MemoryStore, queue: &RedisQueue, item: i32, ctx: &Context) -> String {
    let offer = queue.offer_item(&mut TaskCodec, &Task { item }, ctx).unwrap();
    store.execute_all(&offer.commands);
    offer.id
}

fn pull_record(store: &mut MemoryStore, queue: &RedisQueue, ctx: &Context) -> Option<(String, Vec<Field>)> {
    let moved = match store.execute(&queue.pull()) {
        Reply::Element(moved) => moved,
        other => panic!("unexpected reply {:?}", other),
    };
    let claim = RedisQueue::pull_claim(moved, ctx).unwrap()?;
    match store.execute_all(&claim.commands) {
        Reply::Hash(record) => Some((claim.id, record)),
        other => panic!("unexpected reply {:?}", other),
    }
}

fn pull_task(
    store: &mut MemoryStore,
    queue: &RedisQueue,
    ctx: &Context,
) -> Result<Option<RedisMessage<Task>>, RedisQueueError> {
    match pull_record(store, queue, ctx) {
        None => Ok(None),
        Some((id, record)) => queue.pull_decode(id, &record, &mut TaskCodec).map(Some),
    }
}

fn ack(store: &mut MemoryStore, ack_id: &str, ctx: &Context) -> Result<(), RedisQueueError> {
    let queue = match store.execute(&RedisQueue::ack(ack_id)) {
        Reply::Value(value) => value.map(|bytes| String::from_utf8(bytes).unwrap()),
        other => panic!("unexpected reply {:?}", other),
    };
    let commands = RedisQueue::ack_release(ack_id, queue, ctx)?;
    store.execute_all(&commands);
    Ok(())
}

fn read(store: &mut MemoryStore, id: &str) -> Operation {
    match store.execute(&RedisQueue::read(id)) {
        Reply::Hash(record) => Operation::from_fields(&record),
        other => panic!("unexpected reply {:?}", other),
    }
}

fn field_text(store: &MemoryStore, id: &str, name: &str) -> Option<String> {
    store
        .get_field(&format!("operation:{}", id), name)
        .map(|bytes| String::from_utf8(bytes).unwrap())
}

#[test]
fn offer_should_add_item_to_queue() {
    let ctx = context();
    let mut store = MemoryStore::new();
    let q = task_queue("q-A");
    let id = offer_task(&mut store, &q, 10, &ctx);
    assert_eq!(vec![id], store.list("queue:q-A"));
}

#[test]
fn offer_should_set_metadata_while_adding_item_to_queue() {
    let ctx = context();
    let before = chrono::Utc::now().timestamp_nanos_opt().unwrap();
    let mut store = MemoryStore::new();
    let q = RedisQueue::new("q-A".to_string(), "longrunning::redis::tests::Task".to_string());
    let id = offer_task(&mut store, &q, 10, &ctx);
    let record = store.get_all(&format!("operation:{}", id));
    assert_eq!(find_field(&record, "status").unwrap(), b"New");
    assert!(parse_i64(find_field(&record, "publish_ts").unwrap()).unwrap() >= before);
    assert_eq!(find_field(&record, "task_type").unwrap(), b"longrunning::redis::tests::Task");
    assert_eq!(find_field(&record, "task").unwrap(), b"{\"item\":10}");
    assert_eq!(find_field(&record, "queue").unwrap(), b"q-A");
    assert_eq!(find_field(&record, "user_id").unwrap(), ctx.user_id().as_bytes());
    assert_eq!(find_field(&record, "operation_id").unwrap(), id.as_bytes());
}

#[test]
fn should_enqueue_task_to_broker() {
    let ctx = context();
    let mut store = MemoryStore::new();
    let broker = RedisBroker::new("q-A", "demo::Task");
    let enqueued = broker.enqueue(b"{\"item\":10}", &ctx).unwrap();
    store.execute_all(&enqueued.commands);
    let operation = enqueued.operation;
    assert_eq!(vec![operation.operation_id.clone()], store.list("queue:q-A"));
    assert!(!operation.done);
    assert!(operation.error.is_none());
    assert!(operation.response.is_none());
    assert!(operation.creation_ts.is_none());
    assert!(operation.start_ts.is_none());
    assert!(operation.end_ts.is_none());
    assert_eq!(operation.metadata.task, "");
    assert_eq!(operation.metadata.status, "");
    let read_back = read(&mut store, &operation.operation_id);
    assert_eq!(read_back.metadata.task.as_bytes(), b"{\"item\":10}");
    assert_eq!(read_back.metadata.status, "New");
    assert!(read_back.creation_ts.is_some());
}

#[test]
fn happy_path() {
    let ctx = context();
    let mut store = MemoryStore::new();
    let q = task_queue("q-A");

    let id = offer_task(&mut store, &q, 10, &ctx);
    assert_eq!(store.list("queue:q-A"), vec![id.clone()]);
    assert_eq!(field_text(&store, &id, "status").unwrap(), "New");
    assert_eq!(field_text(&store, &id, "task").unwrap(), "{\"item\":10}");
    assert_eq!(field_text(&store, &id, "task_type").unwrap(), "demo::Task");
    assert_eq!(field_text(&store, &id, "user_id").unwrap(), "1234");

    let message = pull_task(&mut store, &q, &ctx).unwrap().unwrap();
    assert_eq!(message.ack_id(), id);
    assert_eq!(message.data(), &Task { item: 10 });
    assert!(store.list("queue:q-A").is_empty());
    assert_eq!(store.list("queue:ack:q-A"), vec![id.clone()]);
    assert_eq!(field_text(&store, &id, "dequeue_system_id").unwrap(), "s1");
    assert_eq!(field_text(&store, &id, "dequeue_user_id").unwrap(), "1234");
    let published = parse_i64(field_text(&store, &id, "publish_ts").unwrap().as_bytes()).unwrap();
    let dequeued = parse_i64(field_text(&store, &id, "dequeue_ts").unwrap().as_bytes()).unwrap();
    assert!(dequeued >= published);

    let commands = RedisQueue::complete(&id, Ok(Vec::new()), &ctx).unwrap();
    store.execute_all(&commands);
    assert_eq!(field_text(&store, &id, "done").unwrap(), "true");
    assert_eq!(field_text(&store, &id, "status").unwrap(), "Terminated");
    assert_eq!(store.get_field(&format!("operation:{}", id), "result"), Some(Vec::new()));
    let operation = read(&mut store, &id);
    assert!(operation.done);
    assert_eq!(operation.metadata.status, "Terminated");
    assert_eq!(operation.response, Some(Vec::new()));
    assert_eq!(operation.error, None);
    assert_eq!(operation.operation_id, id);
    assert_eq!(operation.metadata.queue, "q-A");
    assert!(operation.end_ts.is_some());

    ack(&mut store, &id, &ctx).unwrap();
    assert!(store.list("queue:ack:q-A").is_empty());
    assert_eq!(field_text(&store, &id, "ack_system_id").unwrap(), "s1");
    assert_eq!(field_text(&store, &id, "ack_user_id").unwrap(), "1234");
    assert_eq!(field_text(&store, &id, "done").unwrap(), "true");
}

#[test]
fn type_mismatch() {
    let ctx = context();
    let mut store = MemoryStore::new();
    let producer = task_queue("q-A");
    let consumer = RedisQueue::new("q-A".to_string(), "demo::Other".to_string());
    let id = offer_task(&mut store, &producer, 10, &ctx);

    let result = pull_task(&mut store, &consumer, &ctx);
    match result {
        Err(RedisQueueError::InvalidTaskType(expected, found)) => {
            assert_eq!(expected, "demo::Other");
            assert_eq!(found, "demo::Task");
        }
        other => panic!("unexpected result {:?}", other),
    }
    assert_eq!(store.list("queue:ack:q-A"), vec![id.clone()]);
    assert!(store.list("queue:q-A").is_empty());
    assert_eq!(field_text(&store, &id, "status").unwrap(), "New");
    assert_eq!(field_text(&store, &id, "task_type").unwrap(), "demo::Task");
    assert_eq!(field_text(&store, &id, "dequeue_system_id").unwrap(), "s1");
}

#[test]
fn complete_error() {
    let ctx = context();
    let mut store = MemoryStore::new();
    let q = task_queue("q-A");
    let id = offer_task(&mut store, &q, 10, &ctx);
    let message = pull_task(&mut store, &q, &ctx).unwrap().unwrap();
    assert_eq!(message.ack_id, id);

    // code = 5, message = "not found", as a protocol buffer
    let mut status: Vec<u8> = vec![0x08, 0x05, 0x12, 0x09];
    status.extend_from_slice(b"not found");
    let commands = RedisQueue::complete(&id, Err(status.clone()), &ctx).unwrap();
    store.execute_all(&commands);

    let operation = read(&mut store, &id);
    assert!(operation.done);
    assert_eq!(operation.metadata.status, "Terminated");
    assert_eq!(operation.error, Some(status));
    assert_eq!(operation.response, None);
}

#[test]
fn ack_unknown() {
    let ctx = context();
    let mut store = MemoryStore::new();
    match ack(&mut store, "does-not-exist", &ctx) {
        Err(RedisQueueError::NotFound(message)) => {
            assert_eq!(message, "Missing operation queue info for ack_id = does-not-exist");
        }
        other => panic!("unexpected result {:?}", other),
    }
    assert!(store.list("queue:ack:q-A").is_empty());
}

#[test]
fn fifo_single_producer() {
    let ctx = context();
    let mut store = MemoryStore::new();
    let q = task_queue("q-A");
    let i1 = offer_task(&mut store, &q, 1, &ctx);
    let i2 = offer_task(&mut store, &q, 2, &ctx);
    let i3 = offer_task(&mut store, &q, 3, &ctx);
    assert_eq!(store.list("queue:q-A"), vec![i3.clone(), i2.clone(), i1.clone()]);

    let first = pull_task(&mut store, &q, &ctx).unwrap().unwrap();
    let second = pull_task(&mut store, &q, &ctx).unwrap().unwrap();
    let third = pull_task(&mut store, &q, &ctx).unwrap().unwrap();
    assert_eq!((first.ack_id, first.data), (i1.clone(), Task { item: 1 }));
    assert_eq!((second.ack_id, second.data), (i2.clone(), Task { item: 2 }));
    assert_eq!((third.ack_id, third.data), (i3.clone(), Task { item: 3 }));
    assert!(pull_task(&mut store, &q, &ctx).unwrap().is_none());
    assert_eq!(store.list("queue:ack:q-A"), vec![i3, i2, i1]);
}

#[test]
fn pull_on_empty_queue_touches_nothing() {
    let ctx = context();
    let mut store = MemoryStore::new();
    let q = task_queue("q-A");
    let other = task_queue("q-B");
    let id = offer_task(&mut store, &other, 1, &ctx);
    assert!(pull_task(&mut store, &q, &ctx).unwrap().is_none());
    assert!(store.list("queue:ack:q-A").is_empty());
    assert!(store.list("queue:q-A").is_empty());
    assert_eq!(store.list("queue:q-B"), vec![id]);
    assert!(store.list("queue:ack:q-B").is_empty());
}

#[test]
fn read_of_a_missing_id_is_empty_and_not_done() {
    let mut store = MemoryStore::new();
    let operation = read(&mut store, "nobody");
    assert_eq!(operation.operation_id, "");
    assert_eq!(operation.metadata.task_type, "");
    assert_eq!(operation.metadata.task, "");
    assert_eq!(operation.metadata.user_id, "");
    assert_eq!(operation.metadata.queue, "");
    assert_eq!(operation.metadata.status, "");
    assert!(!operation.done);
    assert_eq!(operation.error, None);
    assert_eq!(operation.response, None);
    assert_eq!(operation.creation_ts, None);
    assert_eq!(operation.start_ts, None);
    assert_eq!(operation.end_ts, None);
}

#[test]
fn double_complete_is_complete() {
    let ctx = context();
    let mut store = MemoryStore::new();
    let q = task_queue("q-A");
    let id = offer_task(&mut store, &q, 10, &ctx);
    store.execute_all(&RedisQueue::complete_at(&id, Ok(vec![1, 2, 3]), 77));
    let once = read(&mut store, &id);
    store.execute_all(&RedisQueue::complete_at(&id, Ok(vec![1, 2, 3]), 77));
    let twice = read(&mut store, &id);
    assert_eq!(format!("{:?}", once), format!("{:?}", twice));
    assert!(twice.done);
    assert_eq!(twice.response, Some(vec![1, 2, 3]));
    assert_eq!(twice.error, None);
}

#[test]
fn double_ack_leaves_no_id_in_flight() {
    let ctx = context();
    let mut store = MemoryStore::new();
    let q = task_queue("q-A");
    let id = offer_task(&mut store, &q, 10, &ctx);
    pull_task(&mut store, &q, &ctx).unwrap().unwrap();
    ack(&mut store, &id, &ctx).unwrap();
    let second = ack(&mut store, &id, &ctx);
    assert!(matches!(second, Ok(()) | Err(RedisQueueError::NotFound(_))));
    assert!(store.list("queue:ack:q-A").is_empty());
}

#[test]
fn ack_takes_one_occurrence_and_leaves_the_rest() {
    let ctx = context();
    let mut store = MemoryStore::new();
    let q = task_queue("q-A");
    let a = offer_task(&mut store, &q, 1, &ctx);
    let b = offer_task(&mut store, &q, 2, &ctx);
    pull_task(&mut store, &q, &ctx).unwrap().unwrap();
    pull_task(&mut store, &q, &ctx).unwrap().unwrap();
    assert_eq!(store.list("queue:ack:q-A"), vec![b.clone(), a.clone()]);
    ack(&mut store, &a, &ctx).unwrap();
    assert_eq!(store.list("queue:ack:q-A"), vec![b.clone()]);
    assert_eq!(field_text(&store, &a, "done"), None);
    assert_eq!(field_text(&store, &a, "status").unwrap(), "New");
    assert_eq!(field_text(&store, &b, "ack_ts"), None);
}

#[test]
fn ids_are_fresh_uuids() {
    let ctx = context();
    let q = task_queue("q-A");
    let first = q.offer(b"{}", &ctx).unwrap().id;
    let second = q.offer(b"{}", &ctx).unwrap().id;
    assert_ne!(first, second);
    for id in [first, second] {
        assert_eq!(id.len(), 36);
        for (i, c) in id.chars().enumerate() {
            if i == 8 || i == 13 || i == 18 || i == 23 {
                assert_eq!(c, '-');
            } else {
                assert!(c.is_ascii_digit() || ('a'..='f').contains(&c));
            }
        }
        assert_eq!(id.chars().nth(14), Some('4'));
        assert!(uuid::Uuid::parse_str(&id).is_ok());
    }
}

#[test]
fn undecodable_task_stays_in_flight() {
    let ctx = context();
    let mut store = MemoryStore::new();
    let q = task_queue("q-A");
    let offer = q.offer(b"{\"other\":1}", &ctx).unwrap();
    store.execute_all(&offer.commands);
    match pull_task(&mut store, &q, &ctx) {
        Err(RedisQueueError::Internal(message)) => assert_eq!(message, "Failed to decode task"),
        other => panic!("unexpected result {:?}", other),
    }
    assert_eq!(store.list("queue:ack:q-A"), vec![offer.id.clone()]);

    let broken = q.offer(b"{\"item\":", &ctx).unwrap();
    store.execute_all(&broken.commands);
    match pull_task(&mut store, &q, &ctx) {
        Err(RedisQueueError::CodecError(_)) => {}
        other => panic!("unexpected result {:?}", other),
    }
    assert_eq!(store.list("queue:ack:q-A"), vec![broken.id, offer.id]);
}

struct BrokenEncoder;

impl Encoder for BrokenEncoder {
    type Item = Task;

    fn encode(&mut self, _item: &Task, buffer: &mut Vec<u8>) -> Result<(), String> {
        buffer.extend_from_slice(b"{\"item\":");
        Err("cannot encode".to_string())
    }
}

#[test]
fn a_task_that_cannot_be_encoded_is_not_offered() {
    let ctx = context();
    let q = task_queue("q-A");
    match q.offer_item(&mut BrokenEncoder, &Task { item: 10 }, &ctx) {
        Err(RedisQueueError::CodecError(reason)) => assert_eq!(reason, "cannot encode"),
        other => panic!("unexpected result {:?}", other),
    }
    match q.offer_encoded(Err("no".to_string()), b"half", &ctx) {
        Err(RedisQueueError::CodecError(reason)) => assert_eq!(reason, "no"),
        other => panic!("unexpected result {:?}", other),
    }
    let offer = q.offer_encoded(Ok(()), b"{\"item\":1}", &ctx).unwrap();
    assert_eq!(offer.commands.len(), 2);

    let broker = RedisBroker::new("q-A", "demo::Task");
    match broker.enqueue_item(&mut BrokenEncoder, &Task { item: 10 }, &ctx) {
        Err(BrokerError::QueueError(RedisQueueError::CodecError(reason))) => {
            assert_eq!(reason, "cannot encode")
        }
        other => panic!("unexpected result {:?}", other),
    }
}

#[test]
fn broker_enqueues_an_item_through_its_encoder() {
    let ctx = context();
    let mut store = MemoryStore::new();
    let broker = RedisBroker::new("q-A", "demo::Task");
    let enqueued = broker.enqueue_item(&mut TaskCodec, &Task { item: 10 }, &ctx).unwrap();
    store.execute_all(&enqueued.commands);
    let id = enqueued.operation.operation_id.clone();
    assert!(!enqueued.operation.done);
    assert_eq!(store.list("queue:q-A"), vec![id.clone()]);
    assert_eq!(field_text(&store, &id, "task").unwrap(), "{\"item\":10}");
    assert_eq!(field_text(&store, &id, "task_type").unwrap(), "demo::Task");
    let message = pull_task(&mut store, broker.queue(), &ctx).unwrap().unwrap();
    assert_eq!(message.ack_id, id);
    assert_eq!(message.data, Task { item: 10 });
}
