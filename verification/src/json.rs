//! JSON values: what they hold, and the operations on them that the output is built with.
use serde_json::{Number, Value};
use vstd::prelude::*;

verus! {

#[verifier::external_type_specification]
#[verifier::external_body]
pub struct ExValue(serde_json::Value);

#[verifier::external_type_specification]
#[verifier::external_body]
pub struct ExNumber(serde_json::Number);

#[verifier::external_type_specification]
#[verifier::external_body]
pub struct ExError(serde_json::Error);

/// What a JSON value holds. The members of an object are in the order in which they are
/// written.
pub enum Json {
    Null,
    Bool(bool),
    Number(Number),
    Text(Seq<char>),
    Array(Seq<Json>),
    Object(Seq<(Seq<char>, Json)>),
}

/// The contents of a `serde_json::Value`.
pub uninterp spec fn json(value: serde_json::Value) -> Json;

/// The number that `serde_json::Number::from` makes of a natural number.
pub uninterp spec fn natural(n: u64) -> serde_json::Number;

/// The compact text that `serde_json::to_vec` writes a value as.
pub uninterp spec fn json_text(contents: Json) -> Seq<u8>;

/// The position of the first member of that name; the number of members if there is none.
pub open spec fn member_position(members: Seq<(Seq<char>, Json)>, name: Seq<char>) -> int
    decreases members.len(),
{
    if members.len() == 0 || members[0].0 == name {
        0
    } else {
        1 + member_position(members.drop_first(), name)
    }
}

/// The member of a value; null where the value is no object or has no such member.
pub open spec fn member_of(contents: Json, name: Seq<char>) -> Json {
    match contents {
        Json::Object(members) => {
            let i = member_position(members, name);
            if i < members.len() {
                members[i].1
            } else {
                Json::Null
            }
        },
        _ => Json::Null,
    }
}

/// The members of an object; none for any other value.
pub open spec fn members_of(contents: Json) -> Seq<(Seq<char>, Json)> {
    match contents {
        Json::Object(members) => members,
        _ => seq![],
    }
}

/// An object with one member set: replaced where it is, or added at the end.
pub open spec fn with_member(
    members: Seq<(Seq<char>, Json)>,
    name: Seq<char>,
    contents: Json,
) -> Seq<(Seq<char>, Json)> {
    let i = member_position(members, name);
    if i < members.len() {
        members.update(i, (name, contents))
    } else {
        members.push((name, contents))
    }
}

/// The members that named values make up.
pub open spec fn members(entries: Seq<(String, Value)>) -> Seq<(Seq<char>, Json)> {
    entries.map_values(|entry: (String, Value)| (entry.0@, json(entry.1)))
}

/// Whether no two members have the same name.
pub open spec fn distinct_names(members: Seq<(Seq<char>, Json)>) -> bool {
    forall|i: int, j: int|
        0 <= i < j < members.len() ==> #[trigger] members[i].0 != #[trigger] members[j].0
}

/// Whether the member at position `i` has another name than each one from `j` on.
pub open spec fn name_differs(members: Seq<(Seq<char>, Json)>, i: int, j: int) -> bool
    decreases members.len() - j,
{
    j < members.len() ==> members[i].0 != members[j].0 && name_differs(members, i, j + 1)
}

/// Whether each member from position `i` on has another name than each one behind it.
pub open spec fn names_differ(members: Seq<(Seq<char>, Json)>, i: int) -> bool
    decreases members.len() - i,
{
    i < members.len() ==> name_differs(members, i, i + 1) && names_differ(members, i + 1)
}

/// Names that differ pair by pair are distinct.
pub proof fn lemma_distinct_names(members: Seq<(Seq<char>, Json)>)
    requires
        names_differ(members, 0),
    ensures
        distinct_names(members),
{
    assert forall|i: int, j: int| 0 <= i < j < members.len() implies #[trigger] members[i].0
        != #[trigger] members[j].0 by {
        lemma_names_differ(members, 0, i);
        lemma_name_differs(members, i, i + 1, j);
    }
}

proof fn lemma_names_differ(members: Seq<(Seq<char>, Json)>, from: int, i: int)
    requires
        names_differ(members, from),
        from <= i < members.len(),
    ensures
        name_differs(members, i, i + 1),
    decreases i - from,
{
    if from < i {
        lemma_names_differ(members, from + 1, i);
    }
}

proof fn lemma_name_differs(members: Seq<(Seq<char>, Json)>, i: int, from: int, j: int)
    requires
        name_differs(members, i, from),
        from <= j < members.len(),
    ensures
        members[i].0 != members[j].0,
    decreases j - from,
{
    if from < j {
        lemma_name_differs(members, i, from + 1, j);
    }
}

/// A member of a new name is added at the end.
pub proof fn lemma_new_member(
    members: Seq<(Seq<char>, Json)>,
    name: Seq<char>,
    contents: Json,
)
    requires
        forall|i: int| 0 <= i < members.len() ==> #[trigger] members[i].0 != name,
    ensures
        with_member(members, name, contents) == members.push((name, contents)),
{
    lemma_no_such_member(members, name);
}

proof fn lemma_no_such_member(members: Seq<(Seq<char>, Json)>, name: Seq<char>)
    requires
        forall|i: int| 0 <= i < members.len() ==> #[trigger] members[i].0 != name,
    ensures
        member_position(members, name) == members.len(),
    decreases members.len(),
{
    if members.len() > 0 {
        let rest = members.drop_first();
        assert forall|i: int| 0 <= i < rest.len() implies #[trigger] rest[i].0 != name by {
            assert(rest[i] == members[i + 1]);
        }
        lemma_no_such_member(rest, name);
    }
}

/// A member that is set is found, and every other member is as it was.
pub proof fn lemma_set_member(
    members: Seq<(Seq<char>, Json)>,
    name: Seq<char>,
    contents: Json,
    other: Seq<char>,
)
    ensures
        member_of(Json::Object(with_member(members, name, contents)), other) == if other == name {
            contents
        } else {
            member_of(Json::Object(members), other)
        },
    decreases members.len(),
{
    let after = with_member(members, name, contents);
    lemma_member_position(members, name);
    lemma_member_position(members, other);
    lemma_member_position(after, other);
    if members.len() == 0 {
        assert(after.drop_first().len() == 0);
        assert(member_position(after.drop_first(), other) == 0);
    } else if members[0].0 == name {
        assert(after[0] == (name, contents));
        assert(after.drop_first() =~= members.drop_first());
        lemma_member_position(members.drop_first(), other);
        let i = member_position(members, other);
        assert(0 < i < members.len() ==> after[i] == members[i]);
    } else {
        let rest = members.drop_first();
        lemma_member_position(rest, name);
        lemma_member_position(rest, other);
        assert(after.drop_first() =~= with_member(rest, name, contents));
        lemma_member_position(after.drop_first(), other);
        lemma_set_member(rest, name, contents, other);
        let i = member_position(rest, other);
        let j = member_position(after.drop_first(), other);
        assert(after[0] == members[0]);
        assert(i < rest.len() ==> members[i + 1] == rest[i]);
        assert(j + 1 < after.len() ==> after[j + 1] == after.drop_first()[j]);
    }
}

pub(crate) proof fn lemma_member_position(members: Seq<(Seq<char>, Json)>, name: Seq<char>)
    ensures
        0 <= member_position(members, name) <= members.len(),
    decreases members.len(),
{
    if members.len() > 0 {
        lemma_member_position(members.drop_first(), name);
    }
}

/// A member is found by its name.
pub proof fn lemma_member_found(members: Seq<(Seq<char>, Json)>, i: int)
    requires
        distinct_names(members),
        0 <= i < members.len(),
    ensures
        member_of(Json::Object(members), members[i].0) == members[i].1,
{
    lemma_found_at(members, i);
}

proof fn lemma_found_at(members: Seq<(Seq<char>, Json)>, i: int)
    requires
        distinct_names(members),
        0 <= i < members.len(),
    ensures
        member_position(members, members[i].0) == i,
    decreases members.len(),
{
    if i > 0 {
        let rest = members.drop_first();
        assert forall|k: int, j: int| 0 <= k < j < rest.len() implies #[trigger] rest[k].0
            != #[trigger] rest[j].0 by {
            assert(rest[k] == members[k + 1] && rest[j] == members[j + 1]);
        }
        assert(members[0].0 != members[i].0);
        assert(rest[i - 1] == members[i]);
        lemma_found_at(rest, i - 1);
    }
}

/// Trusts `serde_json::Value::Null`: it holds null.
#[verifier::external_body]
pub(crate) fn null() -> (value: Value)
    ensures
        json(value) == Json::Null,
{
    Value::Null
}

/// Trusts `serde_json::Value::Bool`: it holds the given boolean.
#[verifier::external_body]
pub(crate) fn boolean(b: bool) -> (value: Value)
    ensures
        json(value) == Json::Bool(b),
{
    Value::Bool(b)
}

/// Trusts `serde_json::Value::String`: it holds the given text.
#[verifier::external_body]
pub(crate) fn string(s: String) -> (value: Value)
    ensures
        json(value) == Json::Text(s@),
{
    Value::String(s)
}

/// Trusts `serde_json::Value::Number`: it holds the given number, of which `clone` makes
/// a copy.
#[verifier::external_body]
pub(crate) fn number(n: &Number) -> (value: Value)
    ensures
        json(value) == Json::Number(*n),
{
    Value::Number(n.clone())
}

/// Trusts `serde_json::Value::from` for natural numbers: it holds the number that
/// `serde_json::Number::from` makes of the argument.
#[verifier::external_body]
pub(crate) fn natural_number(n: u64) -> (value: Value)
    ensures
        json(value) == Json::Number(natural(n)),
{
    Value::from(n)
}

/// Trusts `serde_json::Value::Array`: it holds the given values in their order.
#[verifier::external_body]
pub(crate) fn array(values: Vec<Value>) -> (value: Value)
    ensures
        json(value) == Json::Array(values@.map_values(|v: Value| json(v))),
{
    Value::Array(values)
}

/// Trusts `serde_json::Map::from_iter` and `serde_json::Value::Object`: entries with
/// distinct names become the members of an object, in their order.
#[verifier::external_body]
pub(crate) fn object(entries: Vec<(String, Value)>) -> (value: Value)
    requires
        distinct_names(members(entries@)),
    ensures
        json(value) == Json::Object(members(entries@)),
{
    Value::Object(serde_json::Map::from_iter(entries))
}

/// Trusts `serde_json::Value` under `[]` with a name: the member of that name, or null
/// where the value is no object or has no such member.
#[verifier::external_body]
pub(crate) fn member<'a>(value: &'a Value, name: &str) -> (r: &'a Value)
    ensures
        json(*r) == member_of(json(*value), name@),
{
    &value[name]
}

/// Trusts assignment to `serde_json::Value` under `[]` with a name: in an object the
/// member is replaced where it is, or added at the end; null counts as an object without
/// members. Any other value makes it panic.
#[verifier::external_body]
pub(crate) fn set_member(value: &mut Value, name: &str, to: Value)
    requires
        json(*old(value)) is Null || json(*old(value)) is Object,
    ensures
        json(*final(value)) == Json::Object(
            with_member(members_of(json(*old(value))), name@, json(to)),
        ),
{
    value[name] = to;
}

/// Trusts `serde_json::Value::is_null`: it tells null from every other value.
#[verifier::external_body]
pub(crate) fn is_null(value: &Value) -> (r: bool)
    ensures
        r == (json(*value) is Null),
{
    value.is_null()
}

/// Trusts `serde_json::Value::is_object`: it tells objects from every other value.
#[verifier::external_body]
pub(crate) fn is_object(value: &Value) -> (r: bool)
    ensures
        r == (json(*value) is Object),
{
    value.is_object()
}

/// Trusts `serde_json::Value::clone`: the copy holds the same.
#[verifier::external_body]
pub(crate) fn copy(value: &Value) -> (r: Value)
    ensures
        json(r) == json(*value),
{
    value.clone()
}

/// Trusts `serde_json::to_vec` on a `serde_json::Value`: it succeeds, since writing to
/// memory does; what it writes depends on the contents of the value alone; and the text
/// has no line feed in it, as all control characters are escaped and nothing is put
/// between its tokens.
#[verifier::external_body]
pub(crate) fn to_text(value: &Value) -> (r: Result<Vec<u8>, serde_json::Error>)
    ensures
        r is Ok,
        r->Ok_0@ == json_text(json(*value)),
        !r->Ok_0@.contains(10u8),
{
    serde_json::to_vec(value)
}

} // verus!
