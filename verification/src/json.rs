//! JSON documents: the in-memory value, its mathematical model, and lookup
//! of a member of an object.

use vstd::prelude::*;
use vstd::string::StringExecFns;
use crate::decimal::{decimal_string, decimal_text};

verus! {

/// Mathematical model of a JSON document.
pub enum Json {
    Null,
    Bool(bool),
    /// A number, as its decimal text.
    Number(Seq<char>),
    Text(Seq<char>),
    Array(Seq<Json>),
    /// An object: its entries in the order in which they were written.
    Object(Seq<Entry>),
}

/// One `key: value` pair of a JSON object.
pub struct Entry {
    pub key: Seq<char>,
    pub value: Json,
}

/// A JSON document held in memory. A number is kept as its decimal text.
#[derive(Debug, PartialEq, Eq)]
pub enum JsonValue {
    Null,
    Bool(bool),
    Number(String),
    Text(String),
    Array(Vec<JsonValue>),
    Object(Vec<Member>),
}

/// One `key: value` pair of an object.
#[derive(Debug, PartialEq, Eq)]
pub struct Member {
    pub key: String,
    pub value: JsonValue,
}

impl View for Member {
    type V = Entry;

    open spec fn view(&self) -> Entry {
        Entry { key: self.key@, value: self.value@ }
    }
}

impl View for JsonValue {
    type V = Json;

    open spec fn view(&self) -> Json
        decreases self,
    {
        match self {
            JsonValue::Null => Json::Null,
            JsonValue::Bool(b) => Json::Bool(*b),
            JsonValue::Number(n) => Json::Number(n@),
            JsonValue::Text(s) => Json::Text(s@),
            JsonValue::Array(items) => Json::Array(
                Seq::new(
                    items.len() as nat,
                    |i: int|
                        if 0 <= i < items.len() {
                            items[i]@
                        } else {
                            Json::Null
                        },
                ),
            ),
            JsonValue::Object(members) => Json::Object(
                Seq::new(
                    members.len() as nat,
                    |i: int|
                        if 0 <= i < members.len() {
                            Entry { key: members[i].key@, value: members[i].value@ }
                        } else {
                            Entry { key: Seq::empty(), value: Json::Null }
                        },
                ),
            ),
        }
    }
}

/// The models of the items of an array, in order.
pub open spec fn items_view(items: Seq<JsonValue>) -> Seq<Json> {
    Seq::new(items.len(), |i: int| items[i]@)
}

/// The models of the members of an object, in order.
pub open spec fn members_view(members: Seq<Member>) -> Seq<Entry> {
    Seq::new(members.len(), |i: int| members[i]@)
}

/// The model of an array is the array of its items' models.
pub proof fn array_view(items: Vec<JsonValue>)
    ensures
        JsonValue::Array(items)@ == Json::Array(items_view(items@)),
{
    assert(JsonValue::Array(items)@->Array_0 =~= items_view(items@));
}

/// The model of an object is the sequence of its members' models.
pub proof fn object_view(members: Vec<Member>)
    ensures
        JsonValue::Object(members)@ == Json::Object(members_view(members@)),
{
    assert(JsonValue::Object(members)@->Object_0 =~= members_view(members@));
}

/// Index of the first entry at or after `from` whose key is `key`, or the
/// number of entries if there is none.
pub open spec fn find_from(entries: Seq<Entry>, key: Seq<char>, from: int) -> int
    decreases entries.len() - from,
{
    if from < 0 || from >= entries.len() {
        entries.len() as int
    } else if entries[from].key == key {
        from
    } else {
        find_from(entries, key, from + 1)
    }
}

/// The value stored under `key`: that of the first entry with this key.
pub open spec fn lookup(entries: Seq<Entry>, key: Seq<char>) -> Option<Json> {
    let i = find_from(entries, key, 0);
    if 0 <= i < entries.len() {
        Some(entries[i].value)
    } else {
        None
    }
}

/// Finds the value stored under `key` among the members of an object.
pub fn find_member<'a>(members: &'a Vec<Member>, key: &str) -> (r: Option<&'a JsonValue>)
    ensures
        match lookup(members_view(members@), key@) {
            Some(v) => r is Some && r.unwrap()@ == v,
            None => r is None,
        },
        r matches Some(v) ==> exists|i: int|
            0 <= i < members.len() && *v == (#[trigger] members@[i]).value,
{
    let ghost entries = members_view(members@);
    let mut i: usize = 0;
    while i < members.len()
        invariant
            0 <= i <= members.len(),
            entries == members_view(members@),
            find_from(entries, key@, 0) == find_from(entries, key@, i as int),
        decreases members.len() - i,
    {
        if members[i].key.as_str().eq(key) {
            return Some(&members[i].value);
        }
        i += 1;
    }
    None
}

impl Clone for JsonValue {
    /// A deep copy: a document with the same model.
    fn clone(&self) -> (copy: Self)
        ensures
            copy@ == self@,
        decreases self,
    {
        match self {
            JsonValue::Null => JsonValue::Null,
            JsonValue::Bool(b) => JsonValue::Bool(*b),
            JsonValue::Number(n) => JsonValue::Number(n.clone()),
            JsonValue::Text(s) => JsonValue::Text(s.clone()),
            JsonValue::Array(items) => {
                let mut out: Vec<JsonValue> = Vec::new();
                let mut i: usize = 0;
                while i < items.len()
                    invariant
                        0 <= i <= items.len(),
                        out.len() == i,
                        decreases_to!(*self => *items),
                        forall|j: int| 0 <= j < i ==> out@[j]@ == items@[j]@,
                    decreases items.len() - i,
                {
                    out.push(items[i].clone());
                    i += 1;
                }
                proof {
                    array_view(out);
                    array_view(*items);
                    assert(items_view(out@) =~= items_view(items@));
                }
                JsonValue::Array(out)
            },
            JsonValue::Object(members) => {
                let mut out: Vec<Member> = Vec::new();
                let mut i: usize = 0;
                while i < members.len()
                    invariant
                        0 <= i <= members.len(),
                        out.len() == i,
                        decreases_to!(*self => *members),
                        forall|j: int| 0 <= j < i ==> out@[j]@ == members@[j]@,
                    decreases members.len() - i,
                {
                    out.push(
                        Member { key: members[i].key.clone(), value: members[i].value.clone() },
                    );
                    i += 1;
                }
                proof {
                    object_view(out);
                    object_view(*members);
                    assert(members_view(out@) =~= members_view(members@));
                }
                JsonValue::Object(out)
            },
        }
    }
}

impl Clone for Member {
    fn clone(&self) -> (copy: Self)
        ensures
            copy@ == self@,
    {
        Member { key: self.key.clone(), value: self.value.clone() }
    }
}

/// The member `key: value`.
pub fn member(key: &str, value: JsonValue) -> (m: Member)
    ensures
        m@ == (Entry { key: key@, value: value@ }),
{
    Member { key: String::from_str(key), value }
}

/// The JSON string with this text.
pub fn text_value(text: &str) -> (v: JsonValue)
    ensures
        v@ == Json::Text(text@),
{
    JsonValue::Text(String::from_str(text))
}

/// The JSON number with this value.
pub fn integer_value(n: i64) -> (v: JsonValue)
    ensures
        v@ == Json::Number(decimal_text(n as int)),
{
    JsonValue::Number(decimal_string(n))
}

/// The JSON number that this decimal text writes.
pub fn number_value(text: &str) -> (v: JsonValue)
    ensures
        v@ == Json::Number(text@),
{
    JsonValue::Number(String::from_str(text))
}

/// The JSON number that this decimal text writes, or `null` where there is
/// none.
pub fn optional_number_value(text: &Option<String>) -> (v: JsonValue)
    ensures
        v@ == match *text {
            Some(t) => Json::Number(t@),
            None => Json::Null,
        },
{
    match text {
        Some(t) => number_value(t.as_str()),
        None => JsonValue::Null,
    }
}

/// The JSON string with this text, or `null` where there is none.
pub fn optional_text_value(text: &Option<String>) -> (v: JsonValue)
    ensures
        v@ == match *text {
            Some(t) => Json::Text(t@),
            None => Json::Null,
        },
{
    match text {
        Some(t) => text_value(t.as_str()),
        None => JsonValue::Null,
    }
}

/// The object with these members, in this order.
pub fn object_value(members: Vec<Member>) -> (v: JsonValue)
    ensures
        v@ == Json::Object(members_view(members@)),
{
    proof {
        object_view(members);
    }
    JsonValue::Object(members)
}

/// The entries after `entry` was put among them: it replaces the first
/// entry with its key, at that entry's place, or becomes the last entry
/// where no entry has its key.
pub open spec fn put(entries: Seq<Entry>, entry: Entry) -> Seq<Entry> {
    let i = find_from(entries, entry.key, 0);
    if 0 <= i < entries.len() {
        entries.update(i, entry)
    } else {
        entries.push(entry)
    }
}

/// The entries of `base` after the entries of `patch` were put among them,
/// one after the other.
pub open spec fn merge_entries(base: Seq<Entry>, patch: Seq<Entry>) -> Seq<Entry>
    decreases patch.len(),
{
    if patch.len() == 0 {
        base
    } else {
        put(merge_entries(base, patch.drop_last()), patch.last())
    }
}

/// The shallow merge of two documents, in which the later one wins: of two
/// objects, the members of the earlier with the members of the later put
/// among them, member by member and without looking into them; of anything
/// else, the later document.
pub open spec fn shallow_merge(base: Json, patch: Json) -> Json {
    match (base, patch) {
        (Json::Object(earlier), Json::Object(later)) => Json::Object(merge_entries(earlier, later)),
        _ => patch,
    }
}

/// What `find_from` finds is the first entry with the key from `from` on.
pub proof fn find_from_is_first(entries: Seq<Entry>, key: Seq<char>, from: int)
    requires
        0 <= from <= entries.len(),
    ensures
        ({
            let i = find_from(entries, key, from);
            &&& from <= i <= entries.len()
            &&& i < entries.len() ==> entries[i].key == key
            &&& forall|j: int| from <= j < i ==> (#[trigger] entries[j]).key != key
        }),
    decreases entries.len() - from,
{
    if from < entries.len() && entries[from].key != key {
        find_from_is_first(entries, key, from + 1);
    }
}

/// The first entry with the key from `from` on is what `find_from` finds.
pub proof fn first_is_found(entries: Seq<Entry>, key: Seq<char>, from: int, i: int)
    requires
        0 <= from <= i <= entries.len(),
        i < entries.len() ==> entries[i].key == key,
        forall|j: int| from <= j < i ==> (#[trigger] entries[j]).key != key,
    ensures
        find_from(entries, key, from) == i,
    decreases i - from,
{
    if from < i {
        assert(entries[from].key != key);
        first_is_found(entries, key, from + 1, i);
    }
}

/// After an entry was put, its key leads to its value, and every other key
/// leads to what it led to before.
pub proof fn put_sets_the_member(entries: Seq<Entry>, entry: Entry, key: Seq<char>)
    ensures
        lookup(put(entries, entry), key) == if key == entry.key {
            Some(entry.value)
        } else {
            lookup(entries, key)
        },
{
    let after = put(entries, entry);
    find_from_is_first(entries, entry.key, 0);
    find_from_is_first(entries, key, 0);
    let at = find_from(entries, entry.key, 0);
    let was = find_from(entries, key, 0);
    if key == entry.key {
        assert(forall|j: int| 0 <= j < at ==> (#[trigger] after[j]).key == entries[j].key);
        first_is_found(after, key, 0, at);
    } else if was < entries.len() {
        assert(forall|j: int| 0 <= j < was ==> (#[trigger] after[j]).key == entries[j].key);
        assert(after[was] == entries[was]);
        first_is_found(after, key, 0, was);
    } else {
        assert(forall|j: int|
            0 <= j < entries.len() ==> (#[trigger] after[j]).key == entries[j].key || j == at);
        assert forall|j: int| 0 <= j < after.len() implies (#[trigger] after[j]).key != key by {
            if j < entries.len() {
                if j == at {
                } else {
                    assert(after[j].key == entries[j].key);
                }
            }
        }
        first_is_found(after, key, 0, after.len() as int);
    }
}

/// A shallow merge keeps the members of the earlier object that the later
/// one lacks, and has every member of the later one.
pub proof fn merge_keeps_and_adds(base: Seq<Entry>, patch: Seq<Entry>, key: Seq<char>)
    ensures
        lookup(patch, key) is None ==> lookup(merge_entries(base, patch), key) == lookup(
            base,
            key,
        ),
        lookup(patch, key) is Some ==> lookup(merge_entries(base, patch), key) is Some,
        lookup(base, key) is Some ==> lookup(merge_entries(base, patch), key) is Some,
    decreases patch.len(),
{
    if patch.len() > 0 {
        let front = patch.drop_last();
        merge_keeps_and_adds(base, front, key);
        put_sets_the_member(merge_entries(base, front), patch.last(), key);
        find_from_is_first(patch, key, 0);
        find_from_is_first(front, key, 0);
        let i = find_from(patch, key, 0);
        if i < front.len() {
            assert(forall|j: int| 0 <= j < i ==> (#[trigger] front[j]).key == patch[j].key);
            assert(front[i] == patch[i]);
            first_is_found(front, key, 0, i);
        } else {
            assert(forall|j: int| 0 <= j < front.len() ==> (#[trigger] front[j]).key == patch[j].key);
            first_is_found(front, key, 0, front.len() as int);
        }
    }
}

/// Index of the first member with this key, or the number of members if
/// there is none.
pub fn member_position(members: &Vec<Member>, key: &str) -> (i: usize)
    ensures
        i == find_from(members_view(members@), key@, 0),
        i <= members.len(),
{
    let ghost entries = members_view(members@);
    let mut i: usize = 0;
    while i < members.len()
        invariant
            0 <= i <= members.len(),
            entries == members_view(members@),
            find_from(entries, key@, 0) == find_from(entries, key@, i as int),
        decreases members.len() - i,
    {
        if members[i].key.as_str().eq(key) {
            return i;
        }
        i += 1;
    }
    i
}

/// Puts a member among others: in the place of the first member with its
/// key, or at the end where no member has its key.
pub fn put_member(members: &mut Vec<Member>, member: Member)
    ensures
        members_view(final(members)@) == put(members_view(old(members)@), member@),
{
    let i = member_position(members, member.key.as_str());
    if i < members.len() {
        members[i] = member;
        assert(members_view(members@) =~= members_view(old(members)@).update(i as int, member@));
    } else {
        members.push(member);
        assert(members_view(members@) =~= members_view(old(members)@).push(member@));
    }
}

/// Copies of these members, in order.
pub fn copy_members(members: &Vec<Member>) -> (copy: Vec<Member>)
    ensures
        members_view(copy@) == members_view(members@),
{
    let mut copy: Vec<Member> = Vec::new();
    let mut i: usize = 0;
    while i < members.len()
        invariant
            0 <= i <= members.len(),
            copy.len() == i,
            forall|j: int| 0 <= j < i ==> copy@[j]@ == members@[j]@,
        decreases members.len() - i,
    {
        copy.push(members[i].clone());
        i += 1;
    }
    assert(members_view(copy@) =~= members_view(members@));
    copy
}

/// The shallow merge of two documents, in which the later one wins.
pub fn merge_documents(base: &JsonValue, patch: &JsonValue) -> (merged: JsonValue)
    ensures
        merged@ == shallow_merge(base@, patch@),
{
    match (base, patch) {
        (JsonValue::Object(earlier), JsonValue::Object(later)) => {
            proof {
                object_view(*earlier);
                object_view(*later);
            }
            let mut members = copy_members(earlier);
            let ghost patch_entries = members_view(later@);
            let mut k: usize = 0;
            while k < later.len()
                invariant
                    0 <= k <= later.len(),
                    patch_entries == members_view(later@),
                    members_view(members@) == merge_entries(
                        members_view(earlier@),
                        patch_entries.take(k as int),
                    ),
                decreases later.len() - k,
            {
                assert(patch_entries.take(k + 1).drop_last() =~= patch_entries.take(k as int));
                assert(patch_entries.take(k + 1).last() == later@[k as int]@);
                put_member(&mut members, later[k].clone());
                k += 1;
            }
            assert(patch_entries.take(later.len() as int) =~= patch_entries);
            object_value(members)
        },
        _ => patch.clone(),
    }
}

/// A JSON document as serde_json holds it.
#[verifier::external_type_specification]
#[verifier::external_body]
pub struct ExValue(serde_json::Value);

/// The document that a text denotes when read as JSON, or `None` where the
/// text is not JSON.
pub uninterp spec fn parsed(text: Seq<char>) -> Option<Json>;

/// Carries a document over from serde_json's `Value`, variant by variant:
/// the members of an object in the order in which its map holds them, a
/// number as `Number`'s `Display` writes it.
#[verifier::external_body]
fn from_serde(value: &serde_json::Value) -> JsonValue {
    match value {
        serde_json::Value::Null => JsonValue::Null,
        serde_json::Value::Bool(b) => JsonValue::Bool(*b),
        serde_json::Value::Number(n) => JsonValue::Number(n.to_string()),
        serde_json::Value::String(s) => JsonValue::Text(s.clone()),
        serde_json::Value::Array(items) => JsonValue::Array(items.iter().map(from_serde).collect()),
        serde_json::Value::Object(map) => JsonValue::Object(
            map.iter().map(|(k, v)| Member { key: k.clone(), value: from_serde(v) }).collect(),
        ),
    }
}

/// Reads a text as JSON, with serde_json's `from_str` at the type `Value`.
/// The contract gives the outcome its name and claims nothing of the
/// grammar.
#[verifier::external_body]
pub(crate) fn parse_json(text: &str) -> (r: Option<JsonValue>)
    ensures
        match parsed(text@) {
            Some(document) => r is Some && r.unwrap()@ == document,
            None => r is None,
        },
{
    match serde_json::from_str::<serde_json::Value>(text) {
        Ok(value) => Some(from_serde(&value)),
        Err(_) => None,
    }
}

} // verus!
