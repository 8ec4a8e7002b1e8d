//! What holds of the queue, whatever the store held before: each law runs
//! the commands of an operation on the contents of the store and says what
//! the contents are afterwards.

use vstd::prelude::*;
use vstd::utf8::*;
use crate::decimal::{decimal_text, lemma_i64_round_trip, parsed_i64};
use crate::model::{fields_show, lemma_with_fields, occurrences, without_last, Answer, Contents};
use crate::operation::{operation_of, pending_operation, timestamp_of};
use crate::queue::{ack_commands, claim_commands, complete_commands, hand_over_command};
use crate::queue::{offer_commands, outcome_entry, task_of};
use crate::store::{ack_key, field_value, operation_key, queue_key};
use crate::text::{lemma_bytes_round_trip, lemma_text_round_trip, read_text};

verus! {

/// The two lists of a queue have different keys.
pub proof fn lemma_keys_differ(queue: Seq<char>)
    ensures
        queue_key(queue) != ack_key(queue),
{
    reveal_strlit("queue:");
    reveal_strlit("queue:ack:");
    assert(queue_key(queue).len() == 6 + queue.len());
    assert(ack_key(queue).len() == 10 + queue.len());
}

/// Taking the tail off a list takes one occurrence of the tail away and
/// leaves every other element as often as it was.
pub proof fn lemma_drop_last_occurrences(list: Seq<Seq<char>>, value: Seq<char>)
    requires
        list.len() > 0,
    ensures
        occurrences(list.drop_last(), value) == occurrences(list, value) - if list.last()
            == value {
            1int
        } else {
            0int
        },
{
}

/// Putting an element at the head of a list adds one occurrence of it and
/// leaves every other element as often as it was.
pub proof fn lemma_push_head_occurrences(list: Seq<Seq<char>>, head: Seq<char>, value: Seq<char>)
    ensures
        occurrences(seq![head] + list, value) == occurrences(list, value) + if head == value {
            1int
        } else {
            0int
        },
    decreases list.len(),
{
    let longer = seq![head] + list;
    if list.len() == 0 {
        assert(longer.drop_last() =~= Seq::<Seq<char>>::empty());
        assert(occurrences(longer.drop_last(), value) == 0);
    } else {
        assert(longer.drop_last() =~= seq![head] + list.drop_last());
        lemma_push_head_occurrences(list.drop_last(), head, value);
    }
}

/// Taking the last occurrence of an element out of a list takes away one
/// occurrence of it, where there is one, and leaves every other element as
/// often as it was.
pub proof fn lemma_without_last_occurrences(
    list: Seq<Seq<char>>,
    removed: Seq<char>,
    value: Seq<char>,
)
    ensures
        occurrences(without_last(list, removed), value) == if value == removed && occurrences(
            list,
            removed,
        ) > 0 {
            occurrences(list, value) - 1
        } else {
            occurrences(list, value) as int
        },
    decreases list.len(),
{
    if list.len() > 0 && list.last() != removed {
        lemma_without_last_occurrences(list.drop_last(), removed, value);
        let shorter = without_last(list.drop_last(), removed);
        assert(shorter.push(list.last()).drop_last() =~= shorter);
    }
}

/// The names of the fields of a record, by their lengths and first
/// letters: no two of them are the same.
pub proof fn lemma_field_names()
    ensures
        "status"@.len() == 6 && "status"@[0] == 's',
        "operation_id"@.len() == 12 && "operation_id"@[0] == 'o',
        "queue"@.len() == 5 && "queue"@[0] == 'q',
        "publish_ts"@.len() == 10 && "publish_ts"@[0] == 'p',
        "task"@.len() == 4 && "task"@[0] == 't',
        "user_id"@.len() == 7 && "user_id"@[0] == 'u',
        "task_type"@.len() == 9 && "task_type"@[0] == 't',
        "dequeue_system_id"@.len() == 17 && "dequeue_system_id"@[0] == 'd',
        "dequeue_ts"@.len() == 10 && "dequeue_ts"@[0] == 'd',
        "dequeue_user_id"@.len() == 15 && "dequeue_user_id"@[0] == 'd',
        "ack_system_id"@.len() == 13 && "ack_system_id"@[0] == 'a',
        "ack_ts"@.len() == 6 && "ack_ts"@[0] == 'a',
        "ack_user_id"@.len() == 11 && "ack_user_id"@[0] == 'a',
        "done"@.len() == 4 && "done"@[0] == 'd',
        "end_ts"@.len() == 6 && "end_ts"@[0] == 'e',
        "result"@.len() == 6 && "result"@[0] == 'r',
        "error"@.len() == 5 && "error"@[0] == 'e',
{
    reveal_strlit("status");
    reveal_strlit("operation_id");
    reveal_strlit("queue");
    reveal_strlit("publish_ts");
    reveal_strlit("task");
    reveal_strlit("user_id");
    reveal_strlit("task_type");
    reveal_strlit("dequeue_system_id");
    reveal_strlit("dequeue_ts");
    reveal_strlit("dequeue_user_id");
    reveal_strlit("ack_system_id");
    reveal_strlit("ack_ts");
    reveal_strlit("ack_user_id");
    reveal_strlit("done");
    reveal_strlit("end_ts");
    reveal_strlit("result");
    reveal_strlit("error");
}

/// Whether none of the fields from the index `from` on has the name
/// `name`.
pub open spec fn unnamed_from(fields: Seq<(Seq<char>, Seq<u8>)>, name: Seq<char>, from: int) -> bool
    decreases fields.len() - from,
{
    if from >= fields.len() {
        true
    } else {
        fields[from].0 != name && unnamed_from(fields, name, from + 1)
    }
}

/// A name has in a list of fields the value of a field of that name after
/// which no other field has that name.
pub proof fn lemma_field_value_found(fields: Seq<(Seq<char>, Seq<u8>)>, name: Seq<char>, i: int)
    requires
        0 <= i < fields.len(),
        fields[i].0 == name,
        unnamed_from(fields, name, i + 1),
    ensures
        field_value(fields, name) == Some(fields[i].1),
    decreases fields.len(),
{
    if i < fields.len() - 1 {
        lemma_unnamed_from(fields, name, i + 1, fields.len() - 1);
        lemma_unnamed_shorter(fields, name, i + 1);
        lemma_field_value_found(fields.drop_last(), name, i);
    }
}

/// Where no field from `from` on has a name, the field at `j` has not.
pub proof fn lemma_unnamed_from(
    fields: Seq<(Seq<char>, Seq<u8>)>,
    name: Seq<char>,
    from: int,
    j: int,
)
    requires
        0 <= from <= j < fields.len(),
        unnamed_from(fields, name, from),
    ensures
        fields[j].0 != name,
    decreases j - from,
{
    if from < j {
        lemma_unnamed_from(fields, name, from + 1, j);
    }
}

/// Where no field from `from` on has a name, none has in the list without
/// its last field.
pub proof fn lemma_unnamed_shorter(fields: Seq<(Seq<char>, Seq<u8>)>, name: Seq<char>, from: int)
    requires
        0 <= from,
        fields.len() > 0,
        unnamed_from(fields, name, from),
    ensures
        unnamed_from(fields.drop_last(), name, from),
    decreases fields.len() - from,
{
    if from < fields.len() - 1 {
        lemma_unnamed_shorter(fields, name, from + 1);
    }
}

/// A name has no value in a list of fields none of which has that name.
pub proof fn lemma_field_value_missing(fields: Seq<(Seq<char>, Seq<u8>)>, name: Seq<char>)
    requires
        unnamed_from(fields, name, 0),
    ensures
        field_value(fields, name) is None,
    decreases fields.len(),
{
    if fields.len() > 0 {
        lemma_unnamed_from(fields, name, 0, fields.len() - 1);
        lemma_unnamed_shorter(fields, name, 0);
        lemma_field_value_missing(fields.drop_last(), name);
    }
}

/// The store after two commands is the store after the first, after the
/// second; and the answer to the second is given after the first.
pub proof fn lemma_after_two(s: Contents, commands: Seq<crate::store::CommandView>)
    requires
        commands.len() == 2,
    ensures
        s.after_all(commands) == s.after(commands[0]).after(commands[1]),
        s.last_answer(commands) == s.after(commands[0]).answer(commands[1]),
{
    let first = commands.drop_last();
    assert(first.drop_last() =~= Seq::<crate::store::CommandView>::empty());
    assert(s.after_all(first.drop_last()) == s);
    assert(s.after_all(first) == s.after(commands[0]));
}

/// What a record holds after `fields` are set in it, for one name.
pub proof fn lemma_field_after_set(
    s: Contents,
    key: Seq<char>,
    fields: Seq<(Seq<char>, Seq<u8>)>,
    name: Seq<char>,
)
    ensures
        s.after(crate::store::CommandView::SetFields { key, fields }).field(key, name)
            == match field_value(fields, name) {
            Some(value) => Some(value),
            None => s.field(key, name),
        },
        s.after(crate::store::CommandView::SetFields { key, fields }).lists == s.lists,
{
    lemma_with_fields(s.hash(key), fields, name);
}

/// Offering puts the id at the head of the waiting list, once more than
/// it was there before (so exactly once where it was not there), and
/// writes the record: status `New`, the id, the queue, the time, the task,
/// the user and the type of the task. The in-flight list is left as it
/// was.
pub proof fn law_offer_enqueues(
    s: Contents,
    queue: Seq<char>,
    task_type: Seq<char>,
    id: Seq<char>,
    publish_ts: i64,
    task: Seq<char>,
    user_id: Seq<char>,
)
    ensures
        ({
            let after = s.after_all(
                offer_commands(queue, task_type, id, publish_ts, task, user_id),
            );
            let record = operation_key(id);
            &&& after.list(queue_key(queue)) == seq![id] + s.list(queue_key(queue))
            &&& after.list(ack_key(queue)) == s.list(ack_key(queue))
            &&& occurrences(after.list(queue_key(queue)), id) == occurrences(
                s.list(queue_key(queue)),
                id,
            ) + 1
            &&& after.field(record, "status"@) == Some(encode_utf8("New"@))
            &&& after.field(record, "operation_id"@) == Some(encode_utf8(id))
            &&& after.field(record, "queue"@) == Some(encode_utf8(queue))
            &&& after.field(record, "publish_ts"@) == Some(decimal_text(publish_ts as int))
            &&& after.field(record, "task"@) == Some(encode_utf8(task))
            &&& after.field(record, "user_id"@) == Some(encode_utf8(user_id))
            &&& after.field(record, "task_type"@) == Some(encode_utf8(task_type))
        }),
{
    lemma_field_names();
    let commands = offer_commands(queue, task_type, id, publish_ts, task, user_id);
    let pushed = s.after(commands[0]);
    let fields = commands[1]->SetFields_fields;
    let record = operation_key(id);
    lemma_keys_differ(queue);
    lemma_push_head_occurrences(s.list(queue_key(queue)), id, id);
    lemma_after_two(s, commands);
    reveal_with_fuel(unnamed_from, 8);
    lemma_field_value_found(fields, "status"@, 0);
    lemma_field_value_found(fields, "operation_id"@, 1);
    lemma_field_value_found(fields, "queue"@, 2);
    lemma_field_value_found(fields, "publish_ts"@, 3);
    lemma_field_value_found(fields, "task"@, 4);
    lemma_field_value_found(fields, "user_id"@, 5);
    lemma_field_value_found(fields, "task_type"@, 6);
    lemma_field_after_set(pushed, record, fields, "status"@);
    lemma_field_after_set(pushed, record, fields, "operation_id"@);
    lemma_field_after_set(pushed, record, fields, "queue"@);
    lemma_field_after_set(pushed, record, fields, "publish_ts"@);
    lemma_field_after_set(pushed, record, fields, "task"@);
    lemma_field_after_set(pushed, record, fields, "user_id"@);
    lemma_field_after_set(pushed, record, fields, "task_type"@);
}

/// Pulling from an empty waiting list answers with nothing and leaves the
/// store as it was, the in-flight list too.
pub proof fn law_pull_empty(s: Contents, queue: Seq<char>)
    requires
        s.list(queue_key(queue)).len() == 0,
    ensures
        s.answer(hand_over_command(queue)) == Answer::Element(None),
        s.after(hand_over_command(queue)) == s,
{
}

/// Pulling from a waiting list that is not empty hands over the id at its
/// tail: the store answers with that id, the waiting list loses its tail,
/// and the id is at the head of the in-flight list. So the id is in the
/// in-flight list, and it is in the waiting list once less than before:
/// not at all where it waited once. The claim then notes the time and who
/// pulled, leaves every other field of the record as it was, and is
/// answered with the record. Nothing else that `pull` does sends a command:
/// whatever the record holds, the id stays in the in-flight list.
pub proof fn law_pull_hands_over(
    s: Contents,
    queue: Seq<char>,
    system_id: Seq<char>,
    user_id: Seq<char>,
    dequeue_ts: i64,
)
    requires
        s.list(queue_key(queue)).len() > 0,
    ensures
        ({
            let id = s.list(queue_key(queue)).last();
            let handed = s.after(hand_over_command(queue));
            let claim = claim_commands(id, system_id, user_id, dequeue_ts);
            let after = handed.after_all(claim);
            let record = operation_key(id);
            &&& s.answer(hand_over_command(queue)) == Answer::Element(Some(id))
            &&& after.list(queue_key(queue)) == s.list(queue_key(queue)).drop_last()
            &&& after.list(ack_key(queue)) == seq![id] + s.list(ack_key(queue))
            &&& occurrences(after.list(ack_key(queue)), id) == occurrences(
                s.list(ack_key(queue)),
                id,
            ) + 1
            &&& occurrences(after.list(queue_key(queue)), id) == occurrences(
                s.list(queue_key(queue)),
                id,
            ) - 1
            &&& after.field(record, "dequeue_system_id"@) == Some(encode_utf8(system_id))
            &&& after.field(record, "dequeue_user_id"@) == Some(encode_utf8(user_id))
            &&& after.field(record, "dequeue_ts"@) == Some(decimal_text(dequeue_ts as int))
            &&& parsed_i64(decimal_text(dequeue_ts as int)) == Some(dequeue_ts)
            &&& forall|name: Seq<char>|
                name != "dequeue_system_id"@ && name != "dequeue_user_id"@ && name
                    != "dequeue_ts"@ ==> #[trigger] after.field(record, name) == s.field(
                    record,
                    name,
                )
            &&& handed.last_answer(claim) == Answer::Hash(after.hash(record))
        }),
{
    lemma_field_names();
    lemma_keys_differ(queue);
    let id = s.list(queue_key(queue)).last();
    let handed = s.after(hand_over_command(queue));
    let claim = claim_commands(id, system_id, user_id, dequeue_ts);
    let record = operation_key(id);
    let fields = claim[0]->SetFields_fields;
    let after = handed.after_all(claim);
    lemma_after_two(handed, claim);
    lemma_drop_last_occurrences(s.list(queue_key(queue)), id);
    lemma_push_head_occurrences(s.list(ack_key(queue)), id, id);
    lemma_i64_round_trip(dequeue_ts);
    reveal_with_fuel(unnamed_from, 4);
    lemma_field_value_found(fields, "dequeue_system_id"@, 0);
    lemma_field_value_found(fields, "dequeue_ts"@, 1);
    lemma_field_value_found(fields, "dequeue_user_id"@, 2);
    lemma_field_after_set(handed, record, fields, "dequeue_system_id"@);
    lemma_field_after_set(handed, record, fields, "dequeue_ts"@);
    lemma_field_after_set(handed, record, fields, "dequeue_user_id"@);
    assert forall|name: Seq<char>|
        name != "dequeue_system_id"@ && name != "dequeue_user_id"@ && name
            != "dequeue_ts"@ implies #[trigger] after.field(record, name) == s.field(
        record,
        name,
    ) by {
        lemma_field_value_missing(fields, name);
        lemma_field_after_set(handed, record, fields, name);
    }
}

/// Acknowledging takes exactly one occurrence of the id out of the
/// in-flight list of the queue, the one nearest the tail, where there is
/// one: the id is then there once less than before, and not at all where
/// it was there once. Every other id stays as often as it was, and the
/// waiting list stays as it was. The record gets the time and who
/// acknowledged; every other field, `done` among them, stays as it was.
pub proof fn law_ack_releases(
    s: Contents,
    ack_id: Seq<char>,
    queue: Seq<char>,
    system_id: Seq<char>,
    user_id: Seq<char>,
    ack_ts: i64,
)
    ensures
        ({
            let after = s.after_all(ack_commands(ack_id, queue, system_id, user_id, ack_ts));
            let record = operation_key(ack_id);
            let in_flight = s.list(ack_key(queue));
            &&& after.list(ack_key(queue)) == without_last(in_flight, ack_id)
            &&& occurrences(after.list(ack_key(queue)), ack_id) == if occurrences(
                in_flight,
                ack_id,
            ) > 0 {
                occurrences(in_flight, ack_id) - 1
            } else {
                0
            }
            &&& forall|other: Seq<char>|
                other != ack_id ==> #[trigger] occurrences(after.list(ack_key(queue)), other)
                    == occurrences(in_flight, other)
            &&& after.list(queue_key(queue)) == s.list(queue_key(queue))
            &&& after.field(record, "ack_system_id"@) == Some(encode_utf8(system_id))
            &&& after.field(record, "ack_user_id"@) == Some(encode_utf8(user_id))
            &&& after.field(record, "ack_ts"@) == Some(decimal_text(ack_ts as int))
            &&& forall|name: Seq<char>|
                name != "ack_system_id"@ && name != "ack_user_id"@ && name != "ack_ts"@
                    ==> #[trigger] after.field(record, name) == s.field(record, name)
        }),
{
    lemma_field_names();
    lemma_keys_differ(queue);
    let commands = ack_commands(ack_id, queue, system_id, user_id, ack_ts);
    let record = operation_key(ack_id);
    let fields = commands[0]->SetFields_fields;
    let after = s.after_all(commands);
    let in_flight = s.list(ack_key(queue));
    lemma_after_two(s, commands);
    lemma_without_last_occurrences(in_flight, ack_id, ack_id);
    assert forall|other: Seq<char>| other != ack_id implies #[trigger] occurrences(
        after.list(ack_key(queue)),
        other,
    ) == occurrences(in_flight, other) by {
        lemma_without_last_occurrences(in_flight, ack_id, other);
    }
    reveal_with_fuel(unnamed_from, 4);
    lemma_field_value_found(fields, "ack_system_id"@, 0);
    lemma_field_value_found(fields, "ack_ts"@, 1);
    lemma_field_value_found(fields, "ack_user_id"@, 2);
    lemma_field_after_set(s, record, fields, "ack_system_id"@);
    lemma_field_after_set(s, record, fields, "ack_ts"@);
    lemma_field_after_set(s, record, fields, "ack_user_id"@);
    assert forall|name: Seq<char>|
        name != "ack_system_id"@ && name != "ack_user_id"@ && name
            != "ack_ts"@ implies #[trigger] after.field(record, name) == s.field(record, name) by {
        lemma_field_value_missing(fields, name);
        lemma_field_after_set(s, record, fields, name);
    }
}

/// What completing does to the record: it is done and `Terminated`, it has
/// the time, and it has the outcome, in `result` for a success and in
/// `error` for a failure. Every other field stays as it was, and so do the
/// lists.
pub proof fn law_complete_terminates(
    s: Contents,
    id: Seq<char>,
    outcome: Result<Seq<u8>, Seq<u8>>,
    end_ts: i64,
)
    ensures
        ({
            let after = s.after_all(complete_commands(id, outcome, end_ts));
            let record = operation_key(id);
            &&& after.lists == s.lists
            &&& after.field(record, "done"@) == Some(encode_utf8("true"@))
            &&& after.field(record, "status"@) == Some(encode_utf8("Terminated"@))
            &&& after.field(record, "end_ts"@) == Some(decimal_text(end_ts as int))
            &&& after.field(record, outcome_entry(outcome).0) == Some(outcome_entry(outcome).1)
            &&& forall|name: Seq<char>|
                name != "done"@ && name != "status"@ && name != "end_ts"@ && name != outcome_entry(
                    outcome,
                ).0 ==> #[trigger] after.field(record, name) == s.field(record, name)
        }),
{
    lemma_field_names();
    let commands = complete_commands(id, outcome, end_ts);
    let record = operation_key(id);
    let marks = commands[0]->SetFields_fields;
    let entry = commands[1]->SetFields_fields;
    let marked = s.after(commands[0]);
    let after = s.after_all(commands);
    lemma_after_two(s, commands);
    reveal_with_fuel(unnamed_from, 4);
    lemma_field_value_found(marks, "done"@, 0);
    lemma_field_value_found(marks, "status"@, 1);
    lemma_field_value_found(marks, "end_ts"@, 2);
    lemma_field_value_found(entry, outcome_entry(outcome).0, 0);
    lemma_field_value_missing(entry, "done"@);
    lemma_field_value_missing(entry, "status"@);
    lemma_field_value_missing(entry, "end_ts"@);
    lemma_field_after_set(s, record, marks, "done"@);
    lemma_field_after_set(s, record, marks, "status"@);
    lemma_field_after_set(s, record, marks, "end_ts"@);
    lemma_field_after_set(marked, record, entry, "done"@);
    lemma_field_after_set(marked, record, entry, "status"@);
    lemma_field_after_set(marked, record, entry, "end_ts"@);
    lemma_field_after_set(marked, record, entry, outcome_entry(outcome).0);
    assert forall|name: Seq<char>|
        name != "done"@ && name != "status"@ && name != "end_ts"@ && name != outcome_entry(
            outcome,
        ).0 implies #[trigger] after.field(record, name) == s.field(record, name) by {
        lemma_field_value_missing(marks, name);
        lemma_field_value_missing(entry, name);
        lemma_field_after_set(s, record, marks, name);
        lemma_field_after_set(marked, record, entry, name);
    }
}

/// Reading a record after it was completed: the operation is done, its
/// status is `Terminated`, and it ended at the time given. After a success
/// its result is the one given, and its error is what the record held
/// before: none, where it held none. After a failure its error is the one
/// given, and its result is what the record held before.
pub proof fn law_complete_then_read(
    s: Contents,
    id: Seq<char>,
    outcome: Result<Seq<u8>, Seq<u8>>,
    end_ts: i64,
    fields: Seq<(Seq<char>, Seq<u8>)>,
)
    requires
        fields_show(
            fields,
            s.after_all(complete_commands(id, outcome, end_ts)).hash(operation_key(id)),
        ),
    ensures
        operation_of(fields).done,
        operation_of(fields).metadata.status == "Terminated"@,
        operation_of(fields).end_ts == Some(timestamp_of(end_ts)),
        match outcome {
            Ok(result) => {
                &&& operation_of(fields).response == Some(result)
                &&& operation_of(fields).error == s.field(operation_key(id), "error"@)
            },
            Err(status) => {
                &&& operation_of(fields).error == Some(status)
                &&& operation_of(fields).response == s.field(operation_key(id), "result"@)
            },
        },
{
    lemma_field_names();
    law_complete_terminates(s, id, outcome, end_ts);
    lemma_text_round_trip("Terminated"@);
    lemma_i64_round_trip(end_ts);
    let after = s.after_all(complete_commands(id, outcome, end_ts));
    let record = operation_key(id);
    assert(field_value(fields, "done"@) == after.field(record, "done"@));
    assert(field_value(fields, "status"@) == after.field(record, "status"@));
    assert(field_value(fields, "end_ts"@) == after.field(record, "end_ts"@));
    assert(field_value(fields, "result"@) == after.field(record, "result"@));
    assert(field_value(fields, "error"@) == after.field(record, "error"@));
}

/// Completing twice with the same outcome and at the same time leaves the
/// store as completing once does.
pub proof fn law_complete_twice(
    s: Contents,
    id: Seq<char>,
    outcome: Result<Seq<u8>, Seq<u8>>,
    end_ts: i64,
)
    ensures
        ({
            let once = s.after_all(complete_commands(id, outcome, end_ts));
            once.after_all(complete_commands(id, outcome, end_ts)) == once
        }),
{
    let commands = complete_commands(id, outcome, end_ts);
    let record = operation_key(id);
    let once = s.after_all(commands);
    let twice = once.after_all(commands);
    lemma_after_two(s, commands);
    lemma_after_two(once, commands);
    let marks = commands[0]->SetFields_fields;
    let entry = commands[1]->SetFields_fields;
    assert forall|name: Seq<char>|
        #![trigger twice.hash(record).dom().contains(name)]
        #![trigger once.hash(record).dom().contains(name)]
        twice.hash(record).dom().contains(name) == once.hash(record).dom().contains(name) && (
        once.hash(record).dom().contains(name) ==> twice.hash(record)[name] == once.hash(
            record,
        )[name]) by {
        lemma_with_fields(s.hash(record), marks, name);
        lemma_with_fields(s.after(commands[0]).hash(record), entry, name);
        lemma_with_fields(once.hash(record), marks, name);
        lemma_with_fields(once.after(commands[0]).hash(record), entry, name);
    }
    assert(twice.hash(record) =~= once.hash(record));
    assert(twice.hashes =~= once.hashes);
    assert(twice.lists =~= once.lists);
}

/// Reading a record after the offer that wrote it: the operation has the
/// id, the type of the task, the task, the user, the queue and the status
/// `New`, and it was created at the time of the offer. Where the id had no
/// record before, the operation is not done and has no result, no error,
/// no start and no end. The task, read as bytes, is the text of the task
/// in UTF-8.
pub proof fn law_offer_then_read(
    s: Contents,
    queue: Seq<char>,
    task_type: Seq<char>,
    id: Seq<char>,
    publish_ts: i64,
    task: Seq<char>,
    user_id: Seq<char>,
    fields: Seq<(Seq<char>, Seq<u8>)>,
)
    requires
        fields_show(
            fields,
            s.after_all(offer_commands(queue, task_type, id, publish_ts, task, user_id)).hash(
                operation_key(id),
            ),
        ),
    ensures
        operation_of(fields).operation_id == id,
        operation_of(fields).metadata.task_type == task_type,
        operation_of(fields).metadata.task == task,
        operation_of(fields).metadata.user_id == user_id,
        operation_of(fields).metadata.queue == queue,
        operation_of(fields).metadata.status == "New"@,
        operation_of(fields).creation_ts == Some(timestamp_of(publish_ts)),
        task_of(fields) == encode_utf8(task),
        s.hash(operation_key(id)) == Map::<Seq<char>, Seq<u8>>::empty() ==> {
            &&& !operation_of(fields).done
            &&& operation_of(fields).response is None
            &&& operation_of(fields).error is None
            &&& operation_of(fields).start_ts is None
            &&& operation_of(fields).end_ts is None
        },
{
    lemma_field_names();
    law_offer_enqueues(s, queue, task_type, id, publish_ts, task, user_id);
    lemma_text_round_trip("New"@);
    lemma_text_round_trip(id);
    lemma_text_round_trip(queue);
    lemma_text_round_trip(task);
    lemma_text_round_trip(user_id);
    lemma_text_round_trip(task_type);
    lemma_i64_round_trip(publish_ts);
    let commands = offer_commands(queue, task_type, id, publish_ts, task, user_id);
    let after = s.after_all(commands);
    let record = operation_key(id);
    assert(field_value(fields, "status"@) == after.field(record, "status"@));
    assert(field_value(fields, "operation_id"@) == after.field(record, "operation_id"@));
    assert(field_value(fields, "queue"@) == after.field(record, "queue"@));
    assert(field_value(fields, "publish_ts"@) == after.field(record, "publish_ts"@));
    assert(field_value(fields, "task"@) == after.field(record, "task"@));
    assert(field_value(fields, "user_id"@) == after.field(record, "user_id"@));
    assert(field_value(fields, "task_type"@) == after.field(record, "task_type"@));
    if s.hash(record) == Map::<Seq<char>, Seq<u8>>::empty() {
        let pushed = s.after(commands[0]);
        let set = commands[1]->SetFields_fields;
        lemma_after_two(s, commands);
        reveal_with_fuel(unnamed_from, 8);
        lemma_field_value_missing(set, "done"@);
        lemma_field_value_missing(set, "result"@);
        lemma_field_value_missing(set, "error"@);
        lemma_field_value_missing(set, "dequeue_ts"@);
        lemma_field_value_missing(set, "end_ts"@);
        lemma_field_after_set(pushed, record, set, "done"@);
        lemma_field_after_set(pushed, record, set, "result"@);
        lemma_field_after_set(pushed, record, set, "error"@);
        lemma_field_after_set(pushed, record, set, "dequeue_ts"@);
        lemma_field_after_set(pushed, record, set, "end_ts"@);
        assert(field_value(fields, "done"@) == after.field(record, "done"@));
        assert(field_value(fields, "result"@) == after.field(record, "result"@));
        assert(field_value(fields, "error"@) == after.field(record, "error"@));
        assert(field_value(fields, "dequeue_ts"@) == after.field(record, "dequeue_ts"@));
        assert(field_value(fields, "end_ts"@) == after.field(record, "end_ts"@));
    }
}

/// A task whose encoding is valid UTF-8 is kept as it was encoded: the
/// bytes that a consumer gets to decode are the bytes that the producer's
/// encoder made.
pub proof fn law_task_round_trip(
    s: Contents,
    queue: Seq<char>,
    task_type: Seq<char>,
    id: Seq<char>,
    publish_ts: i64,
    encoded: Seq<u8>,
    user_id: Seq<char>,
    fields: Seq<(Seq<char>, Seq<u8>)>,
)
    requires
        valid_utf8(encoded),
        fields_show(
            fields,
            s.after_all(
                offer_commands(queue, task_type, id, publish_ts, read_text(encoded), user_id),
            ).hash(operation_key(id)),
        ),
    ensures
        task_of(fields) == encoded,
        encode_utf8(operation_of(fields).metadata.task) == encoded,
{
    law_offer_then_read(s, queue, task_type, id, publish_ts, read_text(encoded), user_id, fields);
    lemma_bytes_round_trip(encoded);
}

/// Reading a record that is not there: every text is empty, the operation
/// is not done, and it has no result, no error and no time.
pub proof fn law_read_missing(fields: Seq<(Seq<char>, Seq<u8>)>)
    requires
        fields_show(fields, Map::<Seq<char>, Seq<u8>>::empty()),
    ensures
        operation_of(fields) == pending_operation(Seq::<char>::empty()),
{
    assert(field_value(fields, "operation_id"@) is None);
    assert(field_value(fields, "task_type"@) is None);
    assert(field_value(fields, "task"@) is None);
    assert(field_value(fields, "user_id"@) is None);
    assert(field_value(fields, "queue"@) is None);
    assert(field_value(fields, "status"@) is None);
    assert(field_value(fields, "done"@) is None);
    assert(field_value(fields, "error"@) is None);
    assert(field_value(fields, "result"@) is None);
    assert(field_value(fields, "publish_ts"@) is None);
    assert(field_value(fields, "dequeue_ts"@) is None);
    assert(field_value(fields, "end_ts"@) is None);
}

/// First in, first out: where the waiting list of a queue is empty and two
/// ids are offered, the first pull hands over the id that was offered
/// first, and the second pull the other.
pub proof fn law_first_in_first_out(
    s: Contents,
    queue: Seq<char>,
    task_type: Seq<char>,
    first: (Seq<char>, i64, Seq<char>),
    second: (Seq<char>, i64, Seq<char>),
    user_id: Seq<char>,
)
    requires
        s.list(queue_key(queue)).len() == 0,
    ensures
        ({
            let offered = s.after_all(
                offer_commands(queue, task_type, first.0, first.1, first.2, user_id),
            ).after_all(offer_commands(queue, task_type, second.0, second.1, second.2, user_id));
            let pulled = offered.after(hand_over_command(queue));
            &&& offered.answer(hand_over_command(queue)) == Answer::Element(Some(first.0))
            &&& pulled.answer(hand_over_command(queue)) == Answer::Element(Some(second.0))
            &&& pulled.after(hand_over_command(queue)).list(queue_key(queue)).len() == 0
        }),
{
    let one = s.after_all(offer_commands(queue, task_type, first.0, first.1, first.2, user_id));
    law_offer_enqueues(s, queue, task_type, first.0, first.1, first.2, user_id);
    law_offer_enqueues(one, queue, task_type, second.0, second.1, second.2, user_id);
    lemma_keys_differ(queue);
    let offered = one.after_all(
        offer_commands(queue, task_type, second.0, second.1, second.2, user_id),
    );
    assert(offered.list(queue_key(queue)) =~= seq![second.0, first.0]);
    let pulled = offered.after(hand_over_command(queue));
    assert(pulled.list(queue_key(queue)) =~= seq![second.0]);
}

/// An offer and the pull that follows it, on a queue whose waiting list was
/// empty: the pull hands over the id that was offered; afterwards the id is
/// in the in-flight list and not in the waiting list; the record, read
/// back, is of the task's type and holds the task, it was created at the
/// time of the offer and started at the time of the pull, and where the
/// clock has not gone back between the two, the start is not before the
/// creation.
pub proof fn law_offer_then_pull(
    s: Contents,
    queue: Seq<char>,
    task_type: Seq<char>,
    id: Seq<char>,
    publish_ts: i64,
    task: Seq<char>,
    producer: Seq<char>,
    system_id: Seq<char>,
    consumer: Seq<char>,
    dequeue_ts: i64,
    fields: Seq<(Seq<char>, Seq<u8>)>,
)
    requires
        s.list(queue_key(queue)).len() == 0,
        fields_show(
            fields,
            s.after_all(offer_commands(queue, task_type, id, publish_ts, task, producer)).after(
                hand_over_command(queue),
            ).after_all(claim_commands(id, system_id, consumer, dequeue_ts)).hash(
                operation_key(id),
            ),
        ),
    ensures
        ({
            let offered = s.after_all(
                offer_commands(queue, task_type, id, publish_ts, task, producer),
            );
            let after = offered.after(hand_over_command(queue)).after_all(
                claim_commands(id, system_id, consumer, dequeue_ts),
            );
            &&& offered.answer(hand_over_command(queue)) == Answer::Element(Some(id))
            &&& occurrences(after.list(ack_key(queue)), id) >= 1
            &&& occurrences(after.list(queue_key(queue)), id) == 0
            &&& parsed_i64(after.field(operation_key(id), "publish_ts"@)->0) == Some(publish_ts)
            &&& parsed_i64(after.field(operation_key(id), "dequeue_ts"@)->0) == Some(dequeue_ts)
            &&& operation_of(fields).metadata.task_type == task_type
            &&& task_of(fields) == encode_utf8(task)
            &&& operation_of(fields).creation_ts == Some(timestamp_of(publish_ts))
            &&& operation_of(fields).start_ts == Some(timestamp_of(dequeue_ts))
            &&& publish_ts <= dequeue_ts ==> {
                ||| operation_of(fields).start_ts->0.seconds > operation_of(
                    fields,
                ).creation_ts->0.seconds
                ||| (operation_of(fields).start_ts->0.seconds == operation_of(
                    fields,
                ).creation_ts->0.seconds && operation_of(fields).start_ts->0.nanos
                    >= operation_of(fields).creation_ts->0.nanos)
            }
        }),
{
    lemma_field_names();
    let offered = s.after_all(offer_commands(queue, task_type, id, publish_ts, task, producer));
    let record = operation_key(id);
    law_offer_enqueues(s, queue, task_type, id, publish_ts, task, producer);
    assert(offered.list(queue_key(queue)) =~= seq![id]);
    law_pull_hands_over(offered, queue, system_id, consumer, dequeue_ts);
    let after = offered.after(hand_over_command(queue)).after_all(
        claim_commands(id, system_id, consumer, dequeue_ts),
    );
    assert(after.list(queue_key(queue)) =~= Seq::<Seq<char>>::empty());
    assert(after.field(record, "publish_ts"@) == offered.field(record, "publish_ts"@));
    assert(after.field(record, "task_type"@) == offered.field(record, "task_type"@));
    assert(after.field(record, "task"@) == offered.field(record, "task"@));
    lemma_i64_round_trip(publish_ts);
    lemma_i64_round_trip(dequeue_ts);
    lemma_text_round_trip(task_type);
    assert(field_value(fields, "publish_ts"@) == after.field(record, "publish_ts"@));
    assert(field_value(fields, "dequeue_ts"@) == after.field(record, "dequeue_ts"@));
    assert(field_value(fields, "task_type"@) == after.field(record, "task_type"@));
    assert(field_value(fields, "task"@) == after.field(record, "task"@));
    if publish_ts <= dequeue_ts {
        lemma_timestamp_order(publish_ts, dequeue_ts);
    }
}

/// A later count of nanoseconds splits into a later timestamp: more
/// seconds, or the same seconds and no fewer nanoseconds.
pub proof fn lemma_timestamp_order(earlier: i64, later: i64)
    requires
        earlier <= later,
    ensures
        timestamp_of(later).seconds > timestamp_of(earlier).seconds || (timestamp_of(
            later,
        ).seconds == timestamp_of(earlier).seconds && timestamp_of(later).nanos >= timestamp_of(
            earlier,
        ).nanos),
{
}

} // verus!
