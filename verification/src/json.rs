//! A JSON document as plain values, and the lookups the planner makes in one.
use vstd::prelude::*;

verus! {

/// A JSON value. An object keeps its members in document order.
pub enum JsonValue {
    Null,
    Bool(bool),
    Number(String),
    Text(String),
    Array(Vec<JsonValue>),
    Object(Vec<(String, JsonValue)>),
}

/// The value of the first member of `members` named `key`.
pub open spec fn member_value(members: Seq<(String, JsonValue)>, key: Seq<char>) -> Option<JsonValue>
    decreases members.len(),
{
    if members.len() == 0 {
        None
    } else if members[0].0@ == key {
        Some(members[0].1)
    } else {
        member_value(members.drop_first(), key)
    }
}

/// The member `key` of an object; nothing for any other value.
pub open spec fn get_field(value: JsonValue, key: Seq<char>) -> Option<JsonValue> {
    match value {
        JsonValue::Object(members) => member_value(members@, key),
        _ => None,
    }
}

/// The element at `index` of an array; nothing for any other value.
pub open spec fn get_element(value: JsonValue, index: int) -> Option<JsonValue> {
    match value {
        JsonValue::Array(items) => if 0 <= index < items@.len() {
            Some(items@[index])
        } else {
            None
        },
        _ => None,
    }
}

/// The member `key` of `value`, when `value` is an object that has one.
pub fn field<'a>(value: &'a JsonValue, key: &str) -> (found: Option<&'a JsonValue>)
    ensures
        match found {
            Some(v) => get_field(*value, key@) == Some(*v),
            None => get_field(*value, key@) is None,
        },
{
    match value {
        JsonValue::Object(members) => {
            let wanted = String::from_str(key);
            let n = members.len();
            let mut i: usize = 0;
            assert(members@.skip(0) =~= members@);
            while i < n
                invariant
                    n == members@.len(),
                    wanted@ == key@,
                    get_field(*value, key@) == member_value(members@, key@),
                    i <= n,
                    member_value(members@, key@) == member_value(members@.skip(i as int), key@),
                decreases n - i,
            {
                let ghost rest = members@.skip(i as int);
                assert(rest[0] == members@[i as int]);
                if members[i].0 == wanted {
                    assert(rest[0].0@ == key@);
                    assert(member_value(rest, key@) == Some(rest[0].1));
                    return Some(&members[i].1);
                }
                assert(rest.drop_first() =~= members@.skip(i + 1));
                i = i + 1;
            }
            assert(members@.skip(n as int).len() == 0);
            None
        },
        _ => None,
    }
}

/// The element at `index` of `value`, when `value` is an array that long.
pub fn element(value: &JsonValue, index: usize) -> (found: Option<&JsonValue>)
    ensures
        match found {
            Some(v) => get_element(*value, index as int) == Some(*v),
            None => get_element(*value, index as int) is None,
        },
{
    match value {
        JsonValue::Array(items) => if index < items.len() {
            Some(&items[index])
        } else {
            None
        },
        _ => None,
    }
}

/// The member `key` of an object whose members before position `i` have
/// other names is the one at `i`, if that one is named `key`.
pub proof fn lemma_member_at(members: Seq<(String, JsonValue)>, i: int, key: Seq<char>)
    requires
        0 <= i < members.len(),
        members[i].0@ == key,
        forall|j: int| 0 <= j < i ==> #[trigger] members[j].0@ != key,
    ensures
        member_value(members, key) == Some(members[i].1),
    decreases i,
{
    if i > 0 {
        assert forall|j: int| 0 <= j < i - 1 implies #[trigger] members.drop_first()[j].0@ != key by {
            assert(members.drop_first()[j] == members[j + 1]);
        }
        lemma_member_at(members.drop_first(), i - 1, key);
    }
}

/// An object has no member `key` when no member has that name.
pub proof fn lemma_member_absent(members: Seq<(String, JsonValue)>, key: Seq<char>)
    requires
        forall|j: int| 0 <= j < members.len() ==> #[trigger] members[j].0@ != key,
    ensures
        member_value(members, key) is None,
    decreases members.len(),
{
    if members.len() > 0 {
        assert forall|j: int| 0 <= j < members.len() - 1 implies #[trigger] members.drop_first()[j].0@
            != key by {
            assert(members.drop_first()[j] == members[j + 1]);
        }
        lemma_member_absent(members.drop_first(), key);
    }
}

/// How many members of `members` are named `key`.
pub open spec fn key_count(members: Seq<(String, JsonValue)>, key: Seq<char>) -> nat
    decreases members.len(),
{
    if members.len() == 0 {
        0
    } else {
        (if members[0].0@ == key {
            1nat
        } else {
            0nat
        }) + key_count(members.drop_first(), key)
    }
}

/// Whether `value` is an object with more than one member named `key`.
pub open spec fn repeats_field(value: JsonValue, key: Seq<char>) -> bool {
    match value {
        JsonValue::Object(members) => key_count(members@, key) > 1,
        _ => false,
    }
}

/// Whether `value` is an object with more than one member named `key`.
pub fn field_repeated(value: &JsonValue, key: &str) -> (repeated: bool)
    ensures
        repeated == repeats_field(*value, key@),
{
    match value {
        JsonValue::Object(members) => {
            let wanted = String::from_str(key);
            let n = members.len();
            let mut seen: usize = 0;
            let mut i: usize = 0;
            assert(members@.skip(0) =~= members@);
            while i < n
                invariant
                    n == members@.len(),
                    wanted@ == key@,
                    repeats_field(*value, key@) == (key_count(members@, key@) > 1),
                    i <= n,
                    seen <= i,
                    key_count(members@, key@) == seen + key_count(members@.skip(i as int), key@),
                decreases n - i,
            {
                let ghost rest = members@.skip(i as int);
                assert(rest[0] == members@[i as int]);
                assert(rest.drop_first() =~= members@.skip(i + 1));
                if members[i].0 == wanted {
                    seen = seen + 1;
                }
                i = i + 1;
            }
            assert(members@.skip(n as int).len() == 0);
            seen > 1
        },
        _ => false,
    }
}

/// A name that no member has is counted zero times.
pub proof fn lemma_key_count_absent(members: Seq<(String, JsonValue)>, key: Seq<char>)
    requires
        forall|j: int| 0 <= j < members.len() ==> #[trigger] members[j].0@ != key,
    ensures
        key_count(members, key) == 0,
    decreases members.len(),
{
    if members.len() > 0 {
        assert forall|j: int| 0 <= j < members.len() - 1 implies #[trigger] members.drop_first()[j].0@
            != key by {
            assert(members.drop_first()[j] == members[j + 1]);
        }
        lemma_key_count_absent(members.drop_first(), key);
    }
}

/// In an object whose members all have different names, no name is
/// counted more than once.
pub proof fn lemma_key_count_distinct(members: Seq<(String, JsonValue)>, key: Seq<char>)
    requires
        forall|a: int, b: int| 0 <= a < b < members.len() ==> members[a].0@ != members[b].0@,
    ensures
        key_count(members, key) <= 1,
    decreases members.len(),
{
    if members.len() > 0 {
        let rest = members.drop_first();
        assert forall|a: int, b: int| 0 <= a < b < rest.len() implies rest[a].0@ != rest[b].0@ by {
            assert(rest[a] == members[a + 1] && rest[b] == members[b + 1]);
        }
        lemma_key_count_distinct(rest, key);
        if members[0].0@ == key {
            assert forall|j: int| 0 <= j < rest.len() implies #[trigger] rest[j].0@ != key by {
                assert(rest[j] == members[j + 1]);
            }
            lemma_key_count_absent(rest, key);
        }
    }
}

} // verus!
