//! What the commands do to the store, as mathematics: the contents of the
//! store, the effect of each command on them, and its answer.

use vstd::prelude::*;
use crate::store::{field_value, CommandView};

verus! {

/// The contents of the store. A list that is not there is the empty list,
/// and a hash that is not there is the empty hash.
pub struct Contents {
    pub lists: Map<Seq<char>, Seq<Seq<char>>>,
    pub hashes: Map<Seq<char>, Map<Seq<char>, Seq<u8>>>,
}

/// What the store answers to a command.
pub enum Answer {
    /// An answer that the queue does not read.
    Unread,
    /// An element of a list, or nothing.
    Element(Option<Seq<char>>),
    /// The value of a field, or nothing.
    Value(Option<Seq<u8>>),
    /// All fields of a hash.
    Hash(Map<Seq<char>, Seq<u8>>),
}

/// How often `value` occurs in `list`.
pub open spec fn occurrences(list: Seq<Seq<char>>, value: Seq<char>) -> nat
    decreases list.len(),
{
    if list.len() == 0 {
        0
    } else {
        occurrences(list.drop_last(), value) + if list.last() == value {
            1nat
        } else {
            0nat
        }
    }
}

/// `list` without the occurrence of `value` that is nearest its tail.
pub open spec fn without_last(list: Seq<Seq<char>>, value: Seq<char>) -> Seq<Seq<char>>
    decreases list.len(),
{
    if list.len() == 0 {
        list
    } else if list.last() == value {
        list.drop_last()
    } else {
        without_last(list.drop_last(), value).push(list.last())
    }
}

/// `hash` after the fields are set, one after the other.
pub open spec fn with_fields(
    hash: Map<Seq<char>, Seq<u8>>,
    fields: Seq<(Seq<char>, Seq<u8>)>,
) -> Map<Seq<char>, Seq<u8>>
    decreases fields.len(),
{
    if fields.len() == 0 {
        hash
    } else {
        with_fields(hash, fields.drop_last()).insert(fields.last().0, fields.last().1)
    }
}

/// Whether the fields are those of the hash: each name has in the fields
/// the value that it has in the hash, and none where the hash has none.
pub open spec fn fields_show(
    fields: Seq<(Seq<char>, Seq<u8>)>,
    hash: Map<Seq<char>, Seq<u8>>,
) -> bool {
    forall|name: Seq<char>| #[trigger]
        field_value(fields, name) == if hash.dom().contains(name) {
            Some(hash[name])
        } else {
            None
        }
}

/// After fields are set, a name has the value of the last field that set
/// it, and its old value, or none, where no field did.
pub proof fn lemma_with_fields(
    hash: Map<Seq<char>, Seq<u8>>,
    fields: Seq<(Seq<char>, Seq<u8>)>,
    name: Seq<char>,
)
    ensures
        with_fields(hash, fields).dom().contains(name) <==> (field_value(fields, name) is Some
            || hash.dom().contains(name)),
        with_fields(hash, fields).dom().contains(name) ==> with_fields(hash, fields)[name] == (
        match field_value(fields, name) {
            Some(value) => value,
            None => hash[name],
        }),
    decreases fields.len(),
{
    if fields.len() > 0 {
        lemma_with_fields(hash, fields.drop_last(), name);
    }
}

impl Contents {
    /// The store that holds nothing.
    pub open spec fn empty() -> Contents {
        Contents { lists: Map::empty(), hashes: Map::empty() }
    }

    /// The list under `key`, head first.
    pub open spec fn list(self, key: Seq<char>) -> Seq<Seq<char>> {
        if self.lists.dom().contains(key) {
            self.lists[key]
        } else {
            Seq::empty()
        }
    }

    /// The hash under `key`.
    pub open spec fn hash(self, key: Seq<char>) -> Map<Seq<char>, Seq<u8>> {
        if self.hashes.dom().contains(key) {
            self.hashes[key]
        } else {
            Map::empty()
        }
    }

    /// The value of `field` in the hash under `key`, if it has one.
    pub open spec fn field(self, key: Seq<char>, field: Seq<char>) -> Option<Seq<u8>> {
        if self.hash(key).dom().contains(field) {
            Some(self.hash(key)[field])
        } else {
            None
        }
    }

    /// The store with `list` under `key`.
    pub open spec fn with_list(self, key: Seq<char>, list: Seq<Seq<char>>) -> Contents {
        Contents { lists: self.lists.insert(key, list), hashes: self.hashes }
    }

    /// The store with `hash` under `key`.
    pub open spec fn with_hash(self, key: Seq<char>, hash: Map<Seq<char>, Seq<u8>>) -> Contents {
        Contents { lists: self.lists, hashes: self.hashes.insert(key, hash) }
    }

    /// The store after one command.
    pub open spec fn after(self, command: CommandView) -> Contents {
        match command {
            CommandView::PushHead { key, value } => self.with_list(
                key,
                seq![value] + self.list(key),
            ),
            CommandView::MoveTailToHead { source, destination } => {
                if self.list(source).len() == 0 {
                    self
                } else {
                    let moved = self.list(source).last();
                    let taken = self.with_list(source, self.list(source).drop_last());
                    taken.with_list(destination, seq![moved] + taken.list(destination))
                }
            },
            CommandView::RemoveLast { key, value } => self.with_list(
                key,
                without_last(self.list(key), value),
            ),
            CommandView::SetFields { key, fields } => self.with_hash(
                key,
                with_fields(self.hash(key), fields),
            ),
            CommandView::GetField { key, field } => self,
            CommandView::GetAllFields { key } => self,
        }
    }

    /// What the store answers to one command.
    pub open spec fn answer(self, command: CommandView) -> Answer {
        match command {
            CommandView::MoveTailToHead { source, destination } => {
                if self.list(source).len() == 0 {
                    Answer::Element(None)
                } else {
                    Answer::Element(Some(self.list(source).last()))
                }
            },
            CommandView::GetField { key, field } => Answer::Value(self.field(key, field)),
            CommandView::GetAllFields { key } => Answer::Hash(self.hash(key)),
            _ => Answer::Unread,
        }
    }

    /// The store after the commands, one after the other.
    pub open spec fn after_all(self, commands: Seq<CommandView>) -> Contents
        decreases commands.len(),
    {
        if commands.len() == 0 {
            self
        } else {
            self.after_all(commands.drop_last()).after(commands.last())
        }
    }

    /// What the store answers to the last of the commands, after the others.
    pub open spec fn last_answer(self, commands: Seq<CommandView>) -> Answer {
        if commands.len() == 0 {
            Answer::Unread
        } else {
            self.after_all(commands.drop_last()).answer(commands.last())
        }
    }
}

} // verus!
