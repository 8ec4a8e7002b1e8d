use longrunning::broker::BrokerError;
use longrunning::context::Context;
use longrunning::memory::{MemoryStore, Reply};
use longrunning::operation::{find_field, Operation, Timestamp};
use longrunning::timestamp::ProstTimestamp;
use longrunning::queue::{time_or_error, RedisQueue, RedisQueueError};
use longrunning::service::{Error, ShardedClient};
use longrunning::store::{make_ack_key, make_operation_key, make_queue_key, Command, Field};
use longrunning::text::{join, same_bytes, same_text, text_bytes};
use longrunning::waiter::{wait, wait_request, Poll, POLL_INTERVAL_MILLIS};

fn field(name: &str, value: &[u8]) -> Field {
    Field { name: name.to_string(), value: value.to_vec() }
}

fn pairs(fields: &Vec<Field>) -> Vec<(String, Vec<u8>)> {
    fields.iter().map(|f| (f.name.clone(), f.value.clone())).collect()
}

fn entry(name: &str, value: &str) -> (String, Vec<u8>) {
    (name.to_string(), value.as_bytes().to_vec())
}

fn context() -> Context {
    Context::new("s1".to_string(), "1234".to_string())
}

#[test]
fn context_keeps_its_two_ids() {
    let ctx = Context::new("worker-7".to_string(), "alice".to_string());
    assert_eq!(ctx.system_id(), "worker-7");
    assert_eq!(ctx.user_id(), "alice");
    let copy = ctx.clone();
    assert_eq!(copy.system_id(), "worker-7");
    assert_eq!(copy.user_id(), "alice");
}

#[test]
fn keys_have_their_prefixes() {
    assert_eq!(make_queue_key("q-A"), "queue:q-A");
    assert_eq!(make_ack_key("q-A"), "queue:ack:q-A");
    assert_eq!(make_operation_key("abc"), "operation:abc");
    assert_eq!(make_queue_key(""), "queue:");
}

#[test]
fn text_helpers() {
    assert!(same_text("abc", "abc"));
    assert!(!same_text("abc", "abd"));
    assert!(!same_text("abc", "ab"));
    assert!(same_text("", ""));
    assert!(same_text("é", "é"));
    assert!(same_bytes(&[1, 2], &[1, 2]));
    assert!(!same_bytes(&[1, 2], &[1, 3]));
    assert!(!same_bytes(&[], &[0]));
    assert_eq!(join("ab", "cd"), "abcd");
    assert_eq!(text_bytes("é"), vec![0xc3, 0xa9]);
}

#[test]
fn offer_sends_push_and_record() {
    let q = RedisQueue::new("q-A".to_string(), "demo::Task".to_string());
    assert_eq!(q.name(), "q-A");
    assert_eq!(q.task_type(), "demo::Task");
    let commands = q.offer_at("id-1", 1_700_000_000_000_000_001, "{\"item\":10}", &context());
    assert_eq!(commands.len(), 2);
    match &commands[0] {
        Command::PushHead { key, value } => {
            assert_eq!(key, "queue:q-A");
            assert_eq!(value, "id-1");
        }
        other => panic!("unexpected command {:?}", other),
    }
    match &commands[1] {
        Command::SetFields { key, fields } => {
            assert_eq!(key, "operation:id-1");
            assert_eq!(
                pairs(fields),
                vec![
                    entry("status", "New"),
                    entry("operation_id", "id-1"),
                    entry("queue", "q-A"),
                    entry("publish_ts", "1700000000000000001"),
                    entry("task", "{\"item\":10}"),
                    entry("user_id", "1234"),
                    entry("task_type", "demo::Task"),
                ]
            );
        }
        other => panic!("unexpected command {:?}", other),
    }
}

#[test]
fn pull_sends_move_then_claim() {
    let q = RedisQueue::new("q-A".to_string(), "demo::Task".to_string());
    match q.pull() {
        Command::MoveTailToHead { source, destination } => {
            assert_eq!(source, "queue:q-A");
            assert_eq!(destination, "queue:ack:q-A");
        }
        other => panic!("unexpected command {:?}", other),
    }
    let commands = RedisQueue::pull_claim_at("id-1", -5, &context());
    assert_eq!(commands.len(), 2);
    match &commands[0] {
        Command::SetFields { key, fields } => {
            assert_eq!(key, "operation:id-1");
            assert_eq!(
                pairs(fields),
                vec![
                    entry("dequeue_system_id", "s1"),
                    entry("dequeue_ts", "-5"),
                    entry("dequeue_user_id", "1234"),
                ]
            );
        }
        other => panic!("unexpected command {:?}", other),
    }
    match &commands[1] {
        Command::GetAllFields { key } => assert_eq!(key, "operation:id-1"),
        other => panic!("unexpected command {:?}", other),
    }
    assert!(RedisQueue::pull_claim(None, &context()).unwrap().is_none());
    let claim = RedisQueue::pull_claim(Some("id-9".to_string()), &context()).unwrap().unwrap();
    assert_eq!(claim.id, "id-9");
    assert_eq!(claim.commands.len(), 2);
}

#[test]
fn ack_sends_lookup_then_release() {
    match RedisQueue::ack("id-1") {
        Command::GetField { key, field } => {
            assert_eq!(key, "operation:id-1");
            assert_eq!(field, "queue");
        }
        other => panic!("unexpected command {:?}", other),
    }
    let commands = RedisQueue::ack_release_at("id-1", "q-B", 42, &context());
    assert_eq!(commands.len(), 2);
    match &commands[0] {
        Command::SetFields { key, fields } => {
            assert_eq!(key, "operation:id-1");
            assert_eq!(
                pairs(fields),
                vec![
                    entry("ack_system_id", "s1"),
                    entry("ack_ts", "42"),
                    entry("ack_user_id", "1234"),
                ]
            );
        }
        other => panic!("unexpected command {:?}", other),
    }
    match &commands[1] {
        Command::RemoveLast { key, value } => {
            assert_eq!(key, "queue:ack:q-B");
            assert_eq!(value, "id-1");
        }
        other => panic!("unexpected command {:?}", other),
    }
}

#[test]
fn complete_sends_marks_then_outcome() {
    let ok = RedisQueue::complete_at("id-1", Ok(vec![9, 8]), 1_000_000_007);
    assert_eq!(ok.len(), 2);
    match &ok[0] {
        Command::SetFields { key, fields } => {
            assert_eq!(key, "operation:id-1");
            assert_eq!(
                pairs(fields),
                vec![
                    entry("done", "true"),
                    entry("status", "Terminated"),
                    entry("end_ts", "1000000007"),
                ]
            );
        }
        other => panic!("unexpected command {:?}", other),
    }
    match &ok[1] {
        Command::SetFields { key, fields } => {
            assert_eq!(key, "operation:id-1");
            assert_eq!(pairs(fields), vec![("result".to_string(), vec![9, 8])]);
        }
        other => panic!("unexpected command {:?}", other),
    }
    let failed = RedisQueue::complete_at("id-1", Err(vec![7]), 0);
    match &failed[1] {
        Command::SetFields { fields, .. } => {
            assert_eq!(pairs(fields), vec![("error".to_string(), vec![7])]);
        }
        other => panic!("unexpected command {:?}", other),
    }
    match RedisQueue::read("id-1") {
        Command::GetAllFields { key } => assert_eq!(key, "operation:id-1"),
        other => panic!("unexpected command {:?}", other),
    }
}

#[test]
fn a_clock_without_a_time_fails_the_operation() {
    assert_eq!(time_or_error(Some(12)).unwrap(), 12);
    match time_or_error(None) {
        Err(RedisQueueError::Internal(message)) => assert_eq!(message, "Clock out of range"),
        other => panic!("unexpected result {:?}", other),
    }
}

#[test]
fn timestamps_split_by_a_thousand_million() {
    assert_eq!(Timestamp::from_nanos(0), Timestamp { seconds: 0, nanos: 0 });
    assert_eq!(
        Timestamp::from_nanos(1_700_000_000_123_456_789),
        Timestamp { seconds: 1_700_000_000, nanos: 123_456_789 }
    );
    assert_eq!(Timestamp::from_nanos(999_999_999), Timestamp { seconds: 0, nanos: 999_999_999 });
    assert_eq!(Timestamp::from_nanos(-1), Timestamp { seconds: 0, nanos: -1 });
    assert_eq!(
        Timestamp::from_nanos(-1_500_000_000),
        Timestamp { seconds: -1, nanos: -500_000_000 }
    );
    assert_eq!(
        Timestamp::from_nanos(i64::MIN),
        Timestamp { seconds: -9_223_372_036, nanos: -854_775_808 }
    );
    assert_eq!(
        Timestamp::from_nanos(i64::MAX),
        Timestamp { seconds: 9_223_372_036, nanos: 854_775_807 }
    );
}

#[test]
fn prost_timestamp_holds_seconds_and_nanos() {
    let ts = ProstTimestamp::from_parts(1_431_648_000, 5);
    assert_eq!(*ts.deref(), Timestamp { seconds: 1_431_648_000, nanos: 5 });
    assert_eq!(ts.into_inner(), Timestamp { seconds: 1_431_648_000, nanos: 5 });
    let leap = ProstTimestamp::from_parts(-1, 1_999_999_999);
    assert_eq!(leap.into_inner(), Timestamp { seconds: -1, nanos: 1_999_999_999 });
    let wrapped = ProstTimestamp::from_parts(0, u32::MAX);
    assert_eq!(wrapped.into_inner().nanos, u32::MAX as i32);
    let edge = ProstTimestamp::from_parts(0, 0x8000_0000);
    assert_eq!(edge.into_inner().nanos, i32::MIN);
    let now = chrono::Utc::now();
    let made = ProstTimestamp::from_parts(now.timestamp(), now.timestamp_subsec_nanos());
    assert_eq!(made.0.seconds, now.timestamp());
    assert_eq!(made.0.nanos as u32, now.timestamp_subsec_nanos());
}

#[test]
fn record_fields_are_read_by_name() {
    let record = vec![
        field("operation_id", b"id-1"),
        field("status", b"New"),
        field("status", b"Dequeued"),
        field("done", b"false"),
        field("publish_ts", b"2000000001"),
        field("dequeue_ts", b"soon"),
        field("task", &[b'a', 0xff, b'b']),
        field("result", &[0xff, 0x00]),
    ];
    assert_eq!(find_field(&record, "status").unwrap(), b"Dequeued");
    assert_eq!(find_field(&record, "nothing"), None);
    let operation = Operation::from_fields(&record);
    assert_eq!(operation.operation_id, "id-1");
    assert_eq!(operation.metadata.status, "Dequeued");
    assert_eq!(operation.metadata.task, "a\u{fffd}b");
    assert_eq!(operation.metadata.queue, "");
    assert!(!operation.done);
    assert_eq!(operation.creation_ts, Some(Timestamp { seconds: 2, nanos: 1 }));
    assert_eq!(operation.start_ts, None);
    assert_eq!(operation.end_ts, None);
    assert_eq!(operation.response, Some(vec![0xff, 0x00]));
    assert_eq!(operation.error, None);
}

#[test]
fn done_is_exactly_true() {
    for (value, done) in [("true", true), ("True", false), ("true ", false), ("1", false), ("", false)] {
        let operation = Operation::from_fields(&vec![field("done", value.as_bytes())]);
        assert_eq!(operation.done, done);
    }
}

#[test]
fn pending_operation_has_only_its_id() {
    let operation = Operation::pending("id-1".to_string());
    assert_eq!(operation.operation_id, "id-1");
    assert!(!operation.done);
    assert_eq!(operation.metadata.task_type, "");
    assert_eq!(operation.error, None);
    assert_eq!(operation.response, None);
    assert_eq!(operation.creation_ts, None);
}

fn operation(id: &str, done: bool) -> Operation {
    let mut operation = Operation::pending(id.to_string());
    operation.done = done;
    operation
}

#[test]
fn waiter() {
    // a service that answers "not done" three times and then "done"
    let mut answers: Vec<Result<Operation, String>> = vec![
        Ok(operation("op", false)),
        Ok(operation("op", false)),
        Ok(operation("op", false)),
        Ok({
            let mut last = operation("op", true);
            last.response = Some(vec![1, 2, 3]);
            last
        }),
        Ok(operation("never asked for", true)),
    ];
    answers.reverse();
    let mut gets = 0;
    let mut slept: Vec<u64> = Vec::new();
    let returned = loop {
        let request = wait_request("op");
        assert_eq!(request.operation_id, "op");
        gets += 1;
        match wait(answers.pop().unwrap()) {
            Poll::Finished(outcome) => break outcome,
            Poll::SleepThenGet(millis) => slept.push(millis),
        }
    };
    let returned = returned.unwrap();
    assert_eq!(gets, 4);
    assert_eq!(slept, vec![1000, 1000, 1000]);
    assert_eq!(POLL_INTERVAL_MILLIS, 1000);
    assert!(returned.done);
    assert_eq!(returned.operation_id, "op");
    assert_eq!(returned.response, Some(vec![1, 2, 3]));
    assert_eq!(answers.len(), 1);
}

#[test]
fn waiter_returns_the_first_failure_as_it_came() {
    match wait::<String>(Err("unavailable".to_string())) {
        Poll::Finished(Err(error)) => assert_eq!(error, "unavailable"),
        other => panic!("unexpected decision {:?}", other),
    }
    match wait::<String>(Ok(operation("op", false))) {
        Poll::SleepThenGet(millis) => assert_eq!(millis, 1000),
        other => panic!("unexpected decision {:?}", other),
    }
}

#[test]
fn sharded_client_lends_its_first_client() {
    let mut clients = ShardedClient::new("workspaces".to_string(), vec![10, 20, 30]);
    assert_eq!(clients.name(), "workspaces");
    assert_eq!(clients.borrow("any").unwrap(), &10);
    *clients.borrow_mut("other").unwrap() = 11;
    assert_eq!(clients.borrow("any").unwrap(), &11);
    let copy = clients.clone();
    assert_eq!(copy.borrow("k").unwrap(), &11);

    let mut none: ShardedClient<u8> = ShardedClient::new("empty".to_string(), Vec::new());
    match none.borrow("key-1") {
        Err(Error::MissingClient(key)) => assert_eq!(key, "key-1"),
        other => panic!("unexpected result {:?}", other),
    }
    match none.borrow_mut("key-2") {
        Err(Error::MissingClient(key)) => assert_eq!(key, "key-2"),
        other => panic!("unexpected result {:?}", other),
    }
}

#[test]
fn errors_say_what_went_wrong() {
    assert_eq!(
        RedisQueueError::Redis("refused".to_string()).to_text(),
        "Redis command failed: refused"
    );
    assert_eq!(RedisQueueError::CodecError("x".to_string()).to_text(), "Failed at codec");
    assert_eq!(
        RedisQueueError::InvalidTaskType("a::A".to_string(), "b::B".to_string()).to_text(),
        "Invalid Task Type. Expected a::A, Found b::B"
    );
    assert_eq!(RedisQueueError::Internal("bad".to_string()).to_text(), "Internal: bad");
    assert_eq!(RedisQueueError::NotFound("id".to_string()).to_text(), "NotFound: id");
    assert_eq!(RedisQueueError::Unknown("x".to_string()).to_text(), "Unknown");
    let wrapped = BrokerError::from(RedisQueueError::Internal("bad".to_string()));
    assert_eq!(wrapped.to_text(), "Failed to enqueue the task: Internal: bad");
    assert!(matches!(wrapped, BrokerError::QueueError(RedisQueueError::Internal(_))));
}

#[test]
fn memory_store_runs_list_commands() {
    let mut store = MemoryStore::new();
    store.push_head("l", "a".to_string());
    store.push_head("l", "b".to_string());
    store.push_head("l", "a".to_string());
    store.push_head("l", "c".to_string());
    assert_eq!(store.list("l"), vec!["c", "a", "b", "a"]);
    store.remove_last("l", "a");
    assert_eq!(store.list("l"), vec!["c", "a", "b"]);
    store.remove_last("l", "zzz");
    assert_eq!(store.list("l"), vec!["c", "a", "b"]);
    assert_eq!(store.take_tail("l"), Some("b".to_string()));
    assert_eq!(store.take_tail("other"), None);
    let rotate = Command::MoveTailToHead { source: "l".to_string(), destination: "l".to_string() };
    match store.execute(&rotate) {
        Reply::Element(Some(moved)) => assert_eq!(moved, "a"),
        other => panic!("unexpected reply {:?}", other),
    }
    assert_eq!(store.list("l"), vec!["a", "c"]);
    let empty = Command::MoveTailToHead { source: "none".to_string(), destination: "l".to_string() };
    assert!(matches!(store.execute(&empty), Reply::Element(None)));
    assert_eq!(store.list("l"), vec!["a", "c"]);
}

#[test]
fn memory_store_runs_hash_commands() {
    let mut store = MemoryStore::new();
    assert_eq!(store.get_field("h", "x"), None);
    assert!(store.get_all("h").is_empty());
    store.set_fields("h", &vec![field("x", b"1"), field("y", b"2"), field("x", b"3")]);
    assert_eq!(store.get_field("h", "x"), Some(b"3".to_vec()));
    assert_eq!(store.get_field("h", "y"), Some(b"2".to_vec()));
    store.set_fields("h", &vec![field("y", b"4")]);
    assert_eq!(store.get_field("h", "y"), Some(b"4".to_vec()));
    assert_eq!(store.get_field("h", "x"), Some(b"3".to_vec()));
    assert_eq!(store.get_field("other", "x"), None);
    let all = store.get_all("h");
    assert_eq!(find_field(&all, "x").unwrap(), b"3");
    assert_eq!(find_field(&all, "y").unwrap(), b"4");
    let get = Command::GetField { key: "h".to_string(), field: "y".to_string() };
    match store.execute(&get) {
        Reply::Value(value) => assert_eq!(value, Some(b"4".to_vec())),
        other => panic!("unexpected reply {:?}", other),
    }
}
