//! The JSON documents that commands write, one to a line.
use serde_json::Value;
use vstd::prelude::*;

use crate::json::{natural_number, null, object, string, to_text};
use crate::json::{
    distinct_names, json, json_text, lemma_distinct_names, member_of, member_position, members,
    name_differs, names_differ, natural, Json,
};
use crate::model::Cloud;

verus! {

/// The characters of a text that may be absent.
pub open spec fn text_view(text: Option<&str>) -> Option<Seq<char>> {
    match text {
        Some(text) => Some(text@),
        None => None,
    }
}

/// A text, or null.
pub open spec fn optional_text(text: Option<Seq<char>>) -> Json {
    match text {
        Some(text) => Json::Text(text),
        None => Json::Null,
    }
}

/// The identifier of a cloud, or null.
pub open spec fn cloud_json(cloud: Option<Cloud>) -> Json {
    match cloud {
        Some(cloud) => Json::Text(cloud.identifier()),
        None => Json::Null,
    }
}

/// What a successful command reports.
pub open spec fn document_json(command: Seq<char>, cloud: Option<Cloud>, result: Json) -> Json {
    Json::Object(
        seq![
            ("schema_version"@, Json::Number(natural(1))),
            ("command"@, Json::Text(command)),
            ("cloud"@, cloud_json(cloud)),
            ("result"@, result),
        ],
    )
}

/// What went wrong.
pub open spec fn failure_json(code: Seq<char>, message: Seq<char>) -> Json {
    Json::Object(seq![("code"@, Json::Text(code)), ("message"@, Json::Text(message))])
}

/// What a failed command reports.
pub open spec fn error_json(
    command: Option<Seq<char>>,
    cloud: Option<Cloud>,
    code: Seq<char>,
    message: Seq<char>,
) -> Json {
    Json::Object(
        seq![
            ("schema_version"@, Json::Number(natural(1))),
            ("command"@, optional_text(command)),
            ("cloud"@, cloud_json(cloud)),
            ("error"@, failure_json(code, message)),
        ],
    )
}

/// How to reach an instance.
pub open spec fn connection_json(instance: Json, command: Seq<char>) -> Json {
    Json::Object(seq![("instance"@, instance), ("connect_command"@, Json::Text(command))])
}

/// Whether `after` is `before` with one line added that holds nothing but the document.
pub open spec fn adds_line(before: Seq<u8>, after: Seq<u8>, document: Json) -> bool {
    &&& after == before + json_text(document) + seq![10u8]
    &&& !json_text(document).contains(10u8)
}

/// The members of documents have different names.
proof fn lemma_member_names()
    ensures
        "schema_version"@ != "command"@,
        "schema_version"@ != "cloud"@,
        "schema_version"@ != "result"@,
        "schema_version"@ != "error"@,
        "command"@ != "cloud"@,
        "command"@ != "result"@,
        "command"@ != "error"@,
        "cloud"@ != "result"@,
        "cloud"@ != "error"@,
        "result"@ != "error"@,
{
    reveal_strlit("schema_version");
    reveal_strlit("command");
    reveal_strlit("cloud");
    reveal_strlit("result");
    reveal_strlit("error");
    assert("schema_version"@.len() == 14 && "command"@.len() == 7);
    assert("cloud"@.len() == 5 && "result"@.len() == 6 && "error"@.len() == 5);
    assert("cloud"@[0] == 'c' && "error"@[0] == 'e');
}

/// The document of a successful command has no name twice.
pub(crate) proof fn lemma_document_names(command: Seq<char>, cloud: Option<Cloud>, result: Json)
    ensures
        distinct_names(document_json(command, cloud, result)->Object_0),
{
    lemma_member_names();
    let all = document_json(command, cloud, result)->Object_0;
    reveal_with_fuel(name_differs, 5);
    reveal_with_fuel(names_differ, 5);
    lemma_distinct_names(all);
}

/// The document of a failed command has no name twice.
pub(crate) proof fn lemma_error_names(
    command: Option<Seq<char>>,
    cloud: Option<Cloud>,
    code: Seq<char>,
    message: Seq<char>,
)
    ensures
        distinct_names(error_json(command, cloud, code, message)->Object_0),
{
    lemma_member_names();
    let all = error_json(command, cloud, code, message)->Object_0;
    reveal_with_fuel(name_differs, 5);
    reveal_with_fuel(names_differ, 5);
    lemma_distinct_names(all);
}

/// What went wrong has no name twice.
pub(crate) proof fn lemma_failure_names(code: Seq<char>, message: Seq<char>)
    ensures
        distinct_names(failure_json(code, message)->Object_0),
{
    reveal_strlit("code");
    reveal_strlit("message");
    assert("code"@.len() == 4);
    assert("message"@.len() == 7);
    let all = failure_json(code, message)->Object_0;
    reveal_with_fuel(name_differs, 3);
    reveal_with_fuel(names_differ, 3);
    lemma_distinct_names(all);
}

/// How to reach an instance has no name twice.
pub(crate) proof fn lemma_connection_names(instance: Json, command: Seq<char>)
    ensures
        distinct_names(connection_json(instance, command)->Object_0),
{
    reveal_strlit("instance");
    reveal_strlit("connect_command");
    assert("instance"@.len() == 8);
    assert("connect_command"@.len() == 15);
    let all = connection_json(instance, command)->Object_0;
    reveal_with_fuel(name_differs, 3);
    reveal_with_fuel(names_differ, 3);
    lemma_distinct_names(all);
}

/// What a document of a successful command holds can be read from it by name.
pub proof fn lemma_document_members(command: Seq<char>, cloud: Option<Cloud>, result: Json)
    ensures
        ({
            let document = document_json(command, cloud, result);
            &&& member_of(document, "schema_version"@) == Json::Number(natural(1))
            &&& member_of(document, "command"@) == Json::Text(command)
            &&& member_of(document, "cloud"@) == cloud_json(cloud)
            &&& member_of(document, "result"@) == result
            &&& member_of(document, "error"@) == Json::Null
        }),
{
    lemma_member_names();
    reveal_with_fuel(member_position, 5);
}

/// A failed command never reports what a successful one does.
pub proof fn lemma_failure_is_no_success(
    command: Option<Seq<char>>,
    cloud: Option<Cloud>,
    code: Seq<char>,
    message: Seq<char>,
)
    ensures
        member_of(error_json(command, cloud, code, message), "result"@) == Json::Null,
        member_of(error_json(command, cloud, code, message), "error"@) == failure_json(
            code,
            message,
        ),
        forall|other: Seq<char>, other_cloud: Option<Cloud>, result: Json|
            error_json(command, cloud, code, message) != #[trigger] document_json(
                other,
                other_cloud,
                result,
            ),
{
    lemma_member_names();
    reveal_with_fuel(member_position, 5);
    let failure = error_json(command, cloud, code, message);
    assert forall|other: Seq<char>, other_cloud: Option<Cloud>, result: Json|
        failure != #[trigger] document_json(other, other_cloud, result) by {
        assert(document_json(other, other_cloud, result)->Object_0[3].0 == "result"@);
        assert(failure->Object_0[3].0 == "error"@);
    }
}

/// The number of bytes before the first line feed; all of them if there is none.
pub open spec fn line_len(bytes: Seq<u8>) -> int
    decreases bytes.len(),
{
    if bytes.len() == 0 || bytes[0] == 10u8 {
        0
    } else {
        1 + line_len(bytes.drop_first())
    }
}

/// The lines of an output, without the line feeds that end them.
pub open spec fn lines(bytes: Seq<u8>) -> Seq<Seq<u8>>
    decreases bytes.len(),
{
    let n = line_len(bytes);
    if 0 <= n < bytes.len() {
        seq![bytes.take(n)] + lines(bytes.skip(n + 1))
    } else {
        seq![]
    }
}

/// Whether an output is made of whole lines.
pub open spec fn is_lines(bytes: Seq<u8>) -> bool {
    bytes.len() > 0 ==> bytes.last() == 10u8
}

proof fn lemma_line_len(front: Seq<u8>, rest: Seq<u8>)
    requires
        !front.contains(10u8),
        rest.len() > 0,
        rest[0] == 10u8,
    ensures
        line_len(front + rest) == front.len(),
    decreases front.len(),
{
    let all = front + rest;
    if front.len() > 0 {
        assert(all[0] == front[0] && front.contains(front[0]));
        assert(all.drop_first() =~= front.drop_first() + rest);
        assert forall|b: u8| front.drop_first().contains(b) implies front.contains(b) by {
            let i = choose|i: int| 0 <= i < front.len() - 1 && front.drop_first()[i] == b;
            assert(front[i + 1] == b);
        }
        lemma_line_len(front.drop_first(), rest);
    }
}

proof fn lemma_first_line(bytes: Seq<u8>)
    requires
        bytes.len() > 0,
        is_lines(bytes),
    ensures
        0 <= line_len(bytes) < bytes.len(),
        bytes[line_len(bytes)] == 10u8,
        !bytes.take(line_len(bytes)).contains(10u8),
    decreases bytes.len(),
{
    if bytes[0] != 10u8 {
        let rest = bytes.drop_first();
        lemma_first_line(rest);
        let line = bytes.take(line_len(bytes));
        assert(line.drop_first() =~= rest.take(line_len(rest)));
        if line.contains(10u8) {
            let i = choose|i: int| 0 <= i < line.len() && line[i] == 10u8;
            assert(line.drop_first()[i - 1] == 10u8);
        }
    }
}

/// An output of whole lines that gets a document has one line more, which is the text of
/// that document and nothing else.
pub proof fn lemma_one_line_per_document(before: Seq<u8>, after: Seq<u8>, document: Json)
    requires
        is_lines(before),
        adds_line(before, after, document),
    ensures
        is_lines(after),
        lines(after) == lines(before).push(json_text(document)),
    decreases before.len(),
{
    let text = json_text(document);
    let end = seq![10u8];
    if before.len() == 0 {
        assert(after =~= text + end);
        lemma_line_len(text, end);
        assert(after.take(text.len() as int) =~= text);
        assert(after.skip(text.len() as int + 1).len() == 0);
        assert(lines(before).len() == 0);
        assert(lines(after.skip(text.len() as int + 1)).len() == 0);
        assert(lines(after) =~= lines(before).push(text));
    } else {
        lemma_first_line(before);
        let n = line_len(before);
        let rest = before.skip(n + 1);
        assert(after =~= before.take(n) + (before.skip(n) + text + end));
        lemma_line_len(before.take(n), before.skip(n) + text + end);
        assert(after.take(n) =~= before.take(n));
        assert(after.skip(n + 1) =~= rest + text + end);
        lemma_one_line_per_document(rest, after.skip(n + 1), document);
        assert(lines(after) =~= lines(before).push(text));
    }
}

/// A named value.
pub(crate) fn entry(name: &str, value: Value) -> (r: (String, Value))
    ensures
        r.0@ == name@,
        r.1 == value,
{
    (name.to_owned(), value)
}

/// A text as a value.
pub(crate) fn text_value(text: &str) -> (value: Value)
    ensures
        json(value) == Json::Text(text@),
{
    string(text.to_owned())
}

/// The identifier of a cloud as a value, or null.
pub(crate) fn cloud_value(cloud: Option<Cloud>) -> (value: Value)
    ensures
        json(value) == cloud_json(cloud),
{
    match cloud {
        Some(cloud) => text_value(cloud.name()),
        None => null(),
    }
}

/// The document of a successful command.
pub fn document(command: &str, cloud: Option<Cloud>, result: Value) -> (value: Value)
    ensures
        json(value) == document_json(command@, cloud, json(result)),
{
    let entries = vec![
        entry("schema_version", natural_number(1)),
        entry("command", text_value(command)),
        entry("cloud", cloud_value(cloud)),
        entry("result", result),
    ];
    proof {
        lemma_document_names(command@, cloud, json(result));
        assert(members(entries@) =~= document_json(command@, cloud, json(result))->Object_0);
    }
    object(entries)
}

/// Adds a document to the output, on a line of its own.
pub fn write_document(out: &mut Vec<u8>, value: &Value)
    ensures
        adds_line(old(out)@, final(out)@, json(*value)),
{
    if let Ok(text) = to_text(value) {
        out.extend_from_slice(text.as_slice());
        out.push(10);
        assert(out@ =~= old(out)@ + json_text(json(*value)) + seq![10u8]);
    }
}

/// Adds the document of a successful command to the output.
pub fn emit(out: &mut Vec<u8>, command: &str, cloud: Option<Cloud>, result: Value)
    ensures
        adds_line(old(out)@, final(out)@, document_json(command@, cloud, json(result))),
{
    write_document(out, &document(command, cloud, result));
}

/// A text as a value, or null.
pub(crate) fn optional_text_value(text: Option<&str>) -> (value: Value)
    ensures
        json(value) == optional_text(text_view(text)),
{
    match text {
        Some(text) => text_value(text),
        None => null(),
    }
}

/// Adds the document of a failed command to the output.
pub fn error(
    out: &mut Vec<u8>,
    command: Option<&str>,
    cloud: Option<Cloud>,
    code: &str,
    message: &str,
)
    ensures
        adds_line(
            old(out)@,
            final(out)@,
            error_json(text_view(command), cloud, code@, message@),
        ),
{
    let failure = failure_value(code, message);
    let entries = vec![
        entry("schema_version", natural_number(1)),
        entry("command", optional_text_value(command)),
        entry("cloud", cloud_value(cloud)),
        entry("error", failure),
    ];
    proof {
        lemma_error_names(text_view(command), cloud, code@, message@);
        assert(members(entries@) =~= error_json(
            text_view(command),
            cloud,
            code@,
            message@,
        )->Object_0);
    }
    write_document(out, &object(entries));
}

/// What went wrong, as a value.
fn failure_value(code: &str, message: &str) -> (value: Value)
    ensures
        json(value) == failure_json(code@, message@),
{
    let entries = vec![entry("code", text_value(code)), entry("message", text_value(message))];
    proof {
        lemma_failure_names(code@, message@);
        assert(members(entries@) =~= failure_json(code@, message@)->Object_0);
    }
    object(entries)
}

/// Adds to the output how to reach an instance.
pub fn connection(out: &mut Vec<u8>, cloud: Cloud, instance: Value, command: &str)
    ensures
        adds_line(
            old(out)@,
            final(out)@,
            document_json("shell"@, Some(cloud), connection_json(json(instance), command@)),
        ),
{
    let entries = vec![entry("instance", instance), entry("connect_command", text_value(command))];
    proof {
        lemma_connection_names(json(instance), command@);
        assert(members(entries@) =~= connection_json(json(instance), command@)->Object_0);
    }
    emit(out, "shell", Some(cloud), object(entries));
}

} // verus!
