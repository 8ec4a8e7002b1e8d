//! A store in memory that runs the queue's commands as the model says. It
//! serves where no other store is at hand, and shows what the model means.

use vstd::prelude::*;
use crate::model::{fields_show, lemma_with_fields, with_fields, without_last, Answer, Contents};
use crate::operation::{bytes_of, find_field};
use crate::store::{commands_view, field_value, fields_view, Command, Field};
use crate::text::{copy_bytes, same_text};

verus! {

/// The value that a list of keyed entries gives to `key`: that of the last
/// entry of that key, if there is one.
pub open spec fn lookup<V>(entries: Seq<(Seq<char>, V)>, key: Seq<char>) -> Option<V>
    decreases entries.len(),
{
    if entries.len() == 0 {
        None
    } else if entries.last().0 == key {
        Some(entries.last().1)
    } else {
        lookup(entries.drop_last(), key)
    }
}

/// The keyed entries as a map.
pub open spec fn as_map<V>(entries: Seq<(Seq<char>, V)>) -> Map<Seq<char>, V> {
    Map::new(|key: Seq<char>| lookup(entries, key) is Some, |key: Seq<char>| lookup(entries, key)->0)
}

/// Whether the entry at `i` is the last with the key `key`.
pub open spec fn is_last_of<V>(entries: Seq<(Seq<char>, V)>, key: Seq<char>, i: int) -> bool {
    &&& 0 <= i < entries.len()
    &&& entries[i].0 == key
    &&& forall|j: int| i < j < entries.len() ==> (#[trigger] entries[j]).0 != key
}

/// Whether no entry has the key `key`.
pub open spec fn has_none_of<V>(entries: Seq<(Seq<char>, V)>, key: Seq<char>) -> bool {
    forall|j: int| 0 <= j < entries.len() ==> (#[trigger] entries[j]).0 != key
}

/// A key has the value of the last entry of that key.
pub proof fn lemma_lookup_found<V>(entries: Seq<(Seq<char>, V)>, key: Seq<char>, i: int)
    requires
        is_last_of(entries, key, i),
    ensures
        lookup(entries, key) == Some(entries[i].1),
    decreases entries.len(),
{
    if i < entries.len() - 1 {
        assert(entries.last().0 != key);
        lemma_lookup_found(entries.drop_last(), key, i);
    }
}

/// A key that no entry has, has no value.
pub proof fn lemma_lookup_missing<V>(entries: Seq<(Seq<char>, V)>, key: Seq<char>)
    requires
        has_none_of(entries, key),
    ensures
        lookup(entries, key) is None,
    decreases entries.len(),
{
    if entries.len() > 0 {
        assert(entries.last().0 != key);
        lemma_lookup_missing(entries.drop_last(), key);
    }
}

/// Giving the last entry of a key a new value changes the value of that
/// key and of no other.
pub proof fn lemma_lookup_update<V>(
    entries: Seq<(Seq<char>, V)>,
    key: Seq<char>,
    i: int,
    value: V,
    other: Seq<char>,
)
    requires
        is_last_of(entries, key, i),
    ensures
        lookup(entries.update(i, (key, value)), other) == if other == key {
            Some(value)
        } else {
            lookup(entries, other)
        },
    decreases entries.len(),
{
    let updated = entries.update(i, (key, value));
    if i == entries.len() - 1 {
        assert(updated.drop_last() =~= entries.drop_last());
    } else {
        assert(entries.last().0 != key);
        assert(updated.drop_last() =~= entries.drop_last().update(i, (key, value)));
        lemma_lookup_update(entries.drop_last(), key, i, value, other);
    }
}

/// A new entry at the end changes the value of its key and of no other.
pub proof fn lemma_lookup_push<V>(
    entries: Seq<(Seq<char>, V)>,
    key: Seq<char>,
    value: V,
    other: Seq<char>,
)
    ensures
        lookup(entries.push((key, value)), other) == if other == key {
            Some(value)
        } else {
            lookup(entries, other)
        },
{
    assert(entries.push((key, value)).drop_last() =~= entries);
}

/// Giving the last entry of a key a new value is setting the key in the
/// map.
pub proof fn lemma_as_map_update<V>(
    entries: Seq<(Seq<char>, V)>,
    key: Seq<char>,
    i: int,
    value: V,
)
    requires
        is_last_of(entries, key, i),
    ensures
        as_map(entries.update(i, (key, value))) == as_map(entries).insert(key, value),
{
    assert forall|other: Seq<char>|
        lookup(entries.update(i, (key, value)), other) == if other == key {
            Some(value)
        } else {
            #[trigger] lookup(entries, other)
        } by {
        lemma_lookup_update(entries, key, i, value, other);
    }
    assert(as_map(entries.update(i, (key, value))) =~= as_map(entries).insert(key, value));
}

/// A new entry at the end is setting its key in the map.
pub proof fn lemma_as_map_push<V>(entries: Seq<(Seq<char>, V)>, key: Seq<char>, value: V)
    ensures
        as_map(entries.push((key, value))) == as_map(entries).insert(key, value),
{
    assert forall|other: Seq<char>|
        lookup(entries.push((key, value)), other) == if other == key {
            Some(value)
        } else {
            #[trigger] lookup(entries, other)
        } by {
        lemma_lookup_push(entries, key, value, other);
    }
    assert(as_map(entries.push((key, value))) =~= as_map(entries).insert(key, value));
}

/// The texts of a list of strings.
pub open spec fn texts_view(items: Seq<String>) -> Seq<Seq<char>> {
    items.map_values(|item: String| item@)
}

/// A list of the store, under its key.
#[derive(Debug)]
pub struct ListEntry {
    pub key: String,
    pub items: Vec<String>,
}

/// A hash of the store, under its key. A field that is set again is
/// written at the end, and the last of a name counts.
#[derive(Debug)]
pub struct HashEntry {
    pub key: String,
    pub fields: Vec<Field>,
}

impl View for ListEntry {
    type V = (Seq<char>, Seq<Seq<char>>);

    open spec fn view(&self) -> (Seq<char>, Seq<Seq<char>>) {
        (self.key@, texts_view(self.items@))
    }
}

impl View for HashEntry {
    type V = (Seq<char>, Map<Seq<char>, Seq<u8>>);

    open spec fn view(&self) -> (Seq<char>, Map<Seq<char>, Seq<u8>>) {
        (self.key@, with_fields(Map::empty(), fields_view(self.fields@)))
    }
}

/// The lists of a store as keyed entries.
pub open spec fn lists_view(entries: Seq<ListEntry>) -> Seq<(Seq<char>, Seq<Seq<char>>)> {
    entries.map_values(|entry: ListEntry| entry@)
}

/// The hashes of a store as keyed entries.
pub open spec fn hashes_view(entries: Seq<HashEntry>) -> Seq<
    (Seq<char>, Map<Seq<char>, Seq<u8>>),
> {
    entries.map_values(|entry: HashEntry| entry@)
}

/// A store in memory.
#[derive(Debug)]
pub struct MemoryStore {
    pub lists: Vec<ListEntry>,
    pub hashes: Vec<HashEntry>,
}

impl View for MemoryStore {
    type V = Contents;

    open spec fn view(&self) -> Contents {
        Contents {
            lists: as_map(lists_view(self.lists@)),
            hashes: as_map(hashes_view(self.hashes@)),
        }
    }
}

/// The index of the last list with the key `key`, if there is one.
fn find_list(entries: &Vec<ListEntry>, key: &str) -> (found: Option<usize>)
    ensures
        match found {
            Some(i) => is_last_of(lists_view(entries@), key@, i as int),
            None => has_none_of(lists_view(entries@), key@),
        },
{
    let mut i: usize = entries.len();
    while i > 0
        invariant
            i <= entries.len(),
            forall|j: int| i <= j < entries.len() ==> (#[trigger] lists_view(entries@)[j]).0 != key@,
        decreases i,
    {
        i = i - 1;
        if same_text(entries[i].key.as_str(), key) {
            return Some(i);
        }
    }
    None
}

/// The index of the last hash with the key `key`, if there is one.
fn find_hash(entries: &Vec<HashEntry>, key: &str) -> (found: Option<usize>)
    ensures
        match found {
            Some(i) => is_last_of(hashes_view(entries@), key@, i as int),
            None => has_none_of(hashes_view(entries@), key@),
        },
{
    let mut i: usize = entries.len();
    while i > 0
        invariant
            i <= entries.len(),
            forall|j: int|
                i <= j < entries.len() ==> (#[trigger] hashes_view(entries@)[j]).0 != key@,
        decreases i,
    {
        i = i - 1;
        if same_text(entries[i].key.as_str(), key) {
            return Some(i);
        }
    }
    None
}

impl MemoryStore {
    /// A store that holds nothing.
    pub fn new() -> (store: MemoryStore)
        ensures
            store@ == Contents::empty(),
    {
        let store = MemoryStore { lists: Vec::new(), hashes: Vec::new() };
        assert(store@.lists =~= Map::empty());
        assert(store@.hashes =~= Map::empty());
        store
    }
}

/// A copy of a list of strings.
fn copy_texts(items: &Vec<String>) -> (copy: Vec<String>)
    ensures
        texts_view(copy@) == texts_view(items@),
{
    let mut copy: Vec<String> = Vec::new();
    let mut i: usize = 0;
    while i < items.len()
        invariant
            i <= items.len(),
            copy@.len() == i,
            forall|j: int| 0 <= j < i ==> copy@[j]@ == items@[j]@,
        decreases items.len() - i,
    {
        copy.push(items[i].clone());
        i = i + 1;
    }
    assert(texts_view(copy@) =~= texts_view(items@));
    copy
}

/// A copy of a list of fields.
pub fn copy_fields(fields: &Vec<Field>) -> (copy: Vec<Field>)
    ensures
        fields_view(copy@) == fields_view(fields@),
{
    let mut copy: Vec<Field> = Vec::new();
    let mut i: usize = 0;
    while i < fields.len()
        invariant
            i <= fields.len(),
            copy@.len() == i,
            forall|j: int| 0 <= j < i ==> copy@[j]@ == fields@[j]@,
        decreases fields.len() - i,
    {
        copy.push(Field { name: fields[i].name.clone(), value: copy_bytes(&fields[i].value) });
        i = i + 1;
    }
    assert(fields_view(copy@) =~= fields_view(fields@));
    copy
}

/// The index of the item nearest the tail that is `value`, if there is
/// one.
fn find_last_item(items: &Vec<String>, value: &str) -> (found: Option<usize>)
    ensures
        match found {
            Some(i) => {
                &&& i < items.len()
                &&& items@[i as int]@ == value@
                &&& forall|j: int| i < j < items.len() ==> (#[trigger] items@[j])@ != value@
            },
            None => forall|j: int| 0 <= j < items.len() ==> (#[trigger] items@[j])@ != value@,
        },
{
    let mut i: usize = items.len();
    while i > 0
        invariant
            i <= items.len(),
            forall|j: int| i <= j < items.len() ==> (#[trigger] items@[j])@ != value@,
        decreases i,
    {
        i = i - 1;
        if same_text(items[i].as_str(), value) {
            return Some(i);
        }
    }
    None
}

/// Taking the last occurrence of a value out of a list is removing the
/// element at its index.
pub proof fn lemma_without_last_at(list: Seq<Seq<char>>, value: Seq<char>, i: int)
    requires
        0 <= i < list.len(),
        list[i] == value,
        forall|j: int| i < j < list.len() ==> #[trigger] list[j] != value,
    ensures
        without_last(list, value) == list.remove(i),
    decreases list.len(),
{
    if i == list.len() - 1 {
        assert(list.drop_last() =~= list.remove(i));
    } else {
        assert(list.last() != value);
        lemma_without_last_at(list.drop_last(), value, i);
        assert(list.drop_last().remove(i).push(list.last()) =~= list.remove(i));
    }
}

/// Taking a value out of a list that does not hold it leaves the list as
/// it is.
pub proof fn lemma_without_last_absent(list: Seq<Seq<char>>, value: Seq<char>)
    requires
        forall|j: int| 0 <= j < list.len() ==> #[trigger] list[j] != value,
    ensures
        without_last(list, value) == list,
    decreases list.len(),
{
    if list.len() > 0 {
        assert(list.last() != value);
        lemma_without_last_absent(list.drop_last(), value);
        assert(list.drop_last().push(list.last()) =~= list);
    }
}

/// Setting fields one list after another is setting the two lists in a
/// row.
pub proof fn lemma_with_fields_append(
    hash: Map<Seq<char>, Seq<u8>>,
    first: Seq<(Seq<char>, Seq<u8>)>,
    second: Seq<(Seq<char>, Seq<u8>)>,
)
    ensures
        with_fields(with_fields(hash, first), second) == with_fields(hash, first + second),
    decreases second.len(),
{
    if second.len() == 0 {
        assert(first + second =~= first);
    } else {
        lemma_with_fields_append(hash, first, second.drop_last());
        assert((first + second).drop_last() =~= first + second.drop_last());
    }
}

impl MemoryStore {
    /// The items of the list `key`, copied, and where the list is.
    fn list_items(&self, key: &str) -> (found: (Option<usize>, Vec<String>))
        ensures
            match found.0 {
                Some(i) => is_last_of(lists_view(self.lists@), key@, i as int),
                None => has_none_of(lists_view(self.lists@), key@),
            },
            texts_view(found.1@) == self@.list(key@),
    {
        let found = find_list(&self.lists, key);
        match found {
            Some(i) => {
                proof {
                    lemma_lookup_found(lists_view(self.lists@), key@, i as int);
                }
                (found, copy_texts(&self.lists[i].items))
            },
            None => {
                proof {
                    lemma_lookup_missing(lists_view(self.lists@), key@);
                }
                let items: Vec<String> = Vec::new();
                assert(texts_view(items@) =~= Seq::<Seq<char>>::empty());
                (found, items)
            },
        }
    }

    /// Puts `items` in the place of the list `key`, which is at `found`.
    fn replace_list(&mut self, key: &str, found: Option<usize>, items: Vec<String>)
        requires
            match found {
                Some(i) => is_last_of(lists_view(old(self).lists@), key@, i as int),
                None => has_none_of(lists_view(old(self).lists@), key@),
            },
        ensures
            final(self)@ == old(self)@.with_list(key@, texts_view(items@)),
    {
        let entry = ListEntry { key: String::from_str(key), items };
        let ghost before = lists_view(self.lists@);
        match found {
            Some(i) => {
                self.lists.set(i, entry);
                proof {
                    assert(lists_view(self.lists@) =~= before.update(i as int, entry@));
                    lemma_as_map_update(before, key@, i as int, entry@.1);
                }
            },
            None => {
                self.lists.push(entry);
                proof {
                    assert(lists_view(self.lists@) =~= before.push(entry@));
                    lemma_as_map_push(before, key@, entry@.1);
                }
            },
        }
    }

    /// The items of the list `key`, head first.
    pub fn list(&self, key: &str) -> (items: Vec<String>)
        ensures
            texts_view(items@) == self@.list(key@),
    {
        self.list_items(key).1
    }

    /// Puts `value` at the head of the list `key`.
    pub fn push_head(&mut self, key: &str, value: String)
        ensures
            final(self)@ == old(self)@.with_list(key@, seq![value@] + old(self)@.list(key@)),
    {
        let (found, mut items) = self.list_items(key);
        let ghost before = texts_view(items@);
        items.insert(0, value);
        assert(texts_view(items@) =~= seq![value@] + before);
        self.replace_list(key, found, items);
    }

    /// Takes the tail off the list `key` and gives it, where the list is
    /// not empty.
    pub fn take_tail(&mut self, key: &str) -> (tail: Option<String>)
        ensures
            match tail {
                Some(value) => {
                    &&& old(self)@.list(key@).len() > 0
                    &&& value@ == old(self)@.list(key@).last()
                    &&& final(self)@ == old(self)@.with_list(
                        key@,
                        old(self)@.list(key@).drop_last(),
                    )
                },
                None => old(self)@.list(key@).len() == 0 && final(self)@ == old(self)@,
            },
    {
        let (found, mut items) = self.list_items(key);
        let ghost before = texts_view(items@);
        match items.pop() {
            Some(value) => {
                assert(texts_view(items@) =~= before.drop_last());
                assert(before.last() == value@);
                self.replace_list(key, found, items);
                Some(value)
            },
            None => None,
        }
    }

    /// Takes the occurrence of `value` nearest the tail out of the list
    /// `key`.
    pub fn remove_last(&mut self, key: &str, value: &str)
        ensures
            final(self)@ == old(self)@.with_list(
                key@,
                without_last(old(self)@.list(key@), value@),
            ),
    {
        let (found, mut items) = self.list_items(key);
        let ghost before = texts_view(items@);
        match find_last_item(&items, value) {
            Some(i) => {
                items.remove(i);
                proof {
                    assert(texts_view(items@) =~= before.remove(i as int));
                    lemma_without_last_at(before, value@, i as int);
                }
            },
            None => {
                proof {
                    lemma_without_last_absent(before, value@);
                }
            },
        }
        self.replace_list(key, found, items);
    }
}

/// What the store answered to a command.
#[derive(Debug)]
pub enum Reply {
    /// An answer that the queue does not read.
    Unread,
    /// An element of a list, or nothing.
    Element(Option<String>),
    /// The value of a field, or nothing.
    Value(Option<Vec<u8>>),
    /// All fields of a hash.
    Hash(Vec<Field>),
}

impl Reply {
    /// Whether the reply is the answer `answer` of the model.
    pub open spec fn shows(self, answer: Answer) -> bool {
        match self {
            Reply::Unread => answer is Unread,
            Reply::Element(None) => answer == Answer::Element(None),
            Reply::Element(Some(text)) => answer == Answer::Element(Some(text@)),
            Reply::Value(value) => answer == Answer::Value(bytes_of(value)),
            Reply::Hash(fields) => answer matches Answer::Hash(hash) && fields_show(
                fields_view(fields@),
                hash,
            ),
        }
    }
}

impl MemoryStore {
    /// Sets `fields` in the hash `key`, in order.
    pub fn set_fields(&mut self, key: &str, fields: &Vec<Field>)
        ensures
            final(self)@ == old(self)@.with_hash(
                key@,
                with_fields(old(self)@.hash(key@), fields_view(fields@)),
            ),
    {
        let found = find_hash(&self.hashes, key);
        let ghost before = hashes_view(self.hashes@);
        let mut all: Vec<Field> = match found {
            Some(i) => {
                proof {
                    lemma_lookup_found(before, key@, i as int);
                }
                copy_fields(&self.hashes[i].fields)
            },
            None => {
                proof {
                    lemma_lookup_missing(before, key@);
                }
                Vec::new()
            },
        };
        let ghost kept = fields_view(all@);
        assert(with_fields(Map::empty(), kept) == old(self)@.hash(key@)) by {
            if found is None {
                assert(kept =~= Seq::<(Seq<char>, Seq<u8>)>::empty());
            }
        }
        let mut added = copy_fields(fields);
        all.append(&mut added);
        proof {
            assert(fields_view(all@) =~= kept + fields_view(fields@));
            lemma_with_fields_append(Map::empty(), kept, fields_view(fields@));
        }
        let entry = HashEntry { key: String::from_str(key), fields: all };
        match found {
            Some(i) => {
                self.hashes.set(i, entry);
                proof {
                    assert(hashes_view(self.hashes@) =~= before.update(i as int, entry@));
                    lemma_as_map_update(before, key@, i as int, entry@.1);
                }
            },
            None => {
                self.hashes.push(entry);
                proof {
                    assert(hashes_view(self.hashes@) =~= before.push(entry@));
                    lemma_as_map_push(before, key@, entry@.1);
                }
            },
        }
    }

    /// All fields of the hash `key`; none where there is no such hash.
    pub fn get_all(&self, key: &str) -> (fields: Vec<Field>)
        ensures
            fields_show(fields_view(fields@), self@.hash(key@)),
    {
        let ghost entries = hashes_view(self.hashes@);
        match find_hash(&self.hashes, key) {
            Some(i) => {
                let fields = copy_fields(&self.hashes[i].fields);
                proof {
                    lemma_lookup_found(entries, key@, i as int);
                    assert forall|name: Seq<char>| #[trigger]
                        field_value(fields_view(fields@), name) == if self@.hash(
                            key@,
                        ).dom().contains(name) {
                            Some(self@.hash(key@)[name])
                        } else {
                            None
                        } by {
                        lemma_with_fields(Map::empty(), fields_view(fields@), name);
                    }
                }
                fields
            },
            None => {
                let fields: Vec<Field> = Vec::new();
                proof {
                    lemma_lookup_missing(entries, key@);
                    assert(fields_view(fields@) =~= Seq::<(Seq<char>, Seq<u8>)>::empty());
                }
                fields
            },
        }
    }

    /// The value of `field` in the hash `key`, where it has one.
    pub fn get_field(&self, key: &str, field: &str) -> (value: Option<Vec<u8>>)
        ensures
            bytes_of(value) == self@.field(key@, field@),
    {
        let fields = self.get_all(key);
        match find_field(&fields, field) {
            Some(bytes) => Some(copy_bytes(bytes)),
            None => None,
        }
    }

    /// Runs one command and gives the store's answer.
    pub fn execute(&mut self, command: &Command) -> (reply: Reply)
        ensures
            final(self)@ == old(self)@.after(command@),
            reply.shows(old(self)@.answer(command@)),
    {
        match command {
            Command::PushHead { key, value } => {
                self.push_head(key.as_str(), value.clone());
                Reply::Unread
            },
            Command::MoveTailToHead { source, destination } => {
                match self.take_tail(source.as_str()) {
                    Some(moved) => {
                        self.push_head(destination.as_str(), moved.clone());
                        Reply::Element(Some(moved))
                    },
                    None => Reply::Element(None),
                }
            },
            Command::RemoveLast { key, value } => {
                self.remove_last(key.as_str(), value.as_str());
                Reply::Unread
            },
            Command::SetFields { key, fields } => {
                self.set_fields(key.as_str(), fields);
                Reply::Unread
            },
            Command::GetField { key, field } => Reply::Value(
                self.get_field(key.as_str(), field.as_str()),
            ),
            Command::GetAllFields { key } => Reply::Hash(self.get_all(key.as_str())),
        }
    }

    /// Runs the commands, one after the other, and gives the store's answer
    /// to the last.
    pub fn execute_all(&mut self, commands: &Vec<Command>) -> (reply: Reply)
        ensures
            final(self)@ == old(self)@.after_all(commands_view(commands@)),
            reply.shows(old(self)@.last_answer(commands_view(commands@))),
    {
        let mut reply = Reply::Unread;
        let mut i: usize = 0;
        let ghost all = commands_view(commands@);
        assert(all.take(0) =~= Seq::empty());
        while i < commands.len()
            invariant
                i <= commands.len(),
                all == commands_view(commands@),
                self@ == old(self)@.after_all(all.take(i as int)),
                reply.shows(old(self)@.last_answer(all.take(i as int))),
            decreases commands.len() - i,
        {
            proof {
                assert(all.take(i + 1).drop_last() =~= all.take(i as int));
                assert(all.take(i + 1).last() == commands@[i as int]@);
            }
            reply = self.execute(&commands[i]);
            i = i + 1;
        }
        assert(all.take(i as int) =~= all);
        reply
    }
}

} // verus!
