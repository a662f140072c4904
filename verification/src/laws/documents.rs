//! The lines that commands write, and what the documents on them hold, read by name.
use serde_json::Value;
use vstd::prelude::*;

use crate::document::{connection, document, emit, error, write_document};
use crate::document::{
    connection_json, document_json, error_json, failure_json, lemma_connection_names,
    lemma_document_names, lemma_error_names, lemma_failure_names, text_view,
};
use crate::json::{json, json_text, lemma_member_found, member_of, members_of, natural, Json};
use crate::model::Cloud;

verus! {

/// Whether an output got one more line, which holds the text of a document and nothing else.
pub open spec fn got_line(before: Seq<u8>, after: Seq<u8>, document: Json) -> bool {
    &&& after == before + json_text(document) + seq![10u8]
    &&& forall|i: int|
        0 <= i < json_text(document).len() ==> #[trigger] json_text(document)[i] != 10u8
}

/// Whether an object names a cloud: by the word that users name it by, or by null where
/// there is none.
pub open spec fn tells_cloud(told: Json, cloud: Option<Cloud>) -> bool {
    &&& cloud is None ==> member_of(told, "cloud"@) == Json::Null
    &&& cloud == Some(Cloud::VastAi) ==> member_of(told, "cloud"@) == Json::Text("vast.ai"@)
    &&& cloud == Some(Cloud::Gcp) ==> member_of(told, "cloud"@) == Json::Text("gcp"@)
    &&& cloud == Some(Cloud::Aws) ==> member_of(told, "cloud"@) == Json::Text("aws"@)
    &&& cloud == Some(Cloud::Local) ==> member_of(told, "cloud"@) == Json::Text("local"@)
}

/// Whether a document is that of a successful command.
pub open spec fn reports(
    told: Json,
    command: Seq<char>,
    cloud: Option<Cloud>,
    result: Json,
) -> bool {
    &&& told is Object
    &&& members_of(told).len() == 4
    &&& member_of(told, "schema_version"@) == Json::Number(natural(1))
    &&& member_of(told, "command"@) == Json::Text(command)
    &&& tells_cloud(told, cloud)
    &&& member_of(told, "result"@) == result
}

/// The name of a cloud is the word that users name it by.
pub proof fn law_cloud_names(cloud: Cloud, name: &'static str)
    requires
        call_ensures(Cloud::name, (cloud,), name),
    ensures
        cloud is VastAi ==> name@ == "vast.ai"@,
        cloud is Gcp ==> name@ == "gcp"@,
        cloud is Aws ==> name@ == "aws"@,
        cloud is Local ==> name@ == "local"@,
{
}

/// A document holds the schema version, the command, the cloud and the result, and nothing
/// else.
pub proof fn law_document(command: &str, cloud: Option<Cloud>, result: Value, value: Value)
    requires
        call_ensures(document, (command, cloud, result), value),
    ensures
        reports(json(value), command@, cloud, json(result)),
{
    lemma_reports(command@, cloud, json(result));
}

pub(crate) proof fn lemma_reports(command: Seq<char>, cloud: Option<Cloud>, result: Json)
    ensures
        reports(document_json(command, cloud, result), command, cloud, result),
{
    let all = document_json(command, cloud, result)->Object_0;
    lemma_document_names(command, cloud, result);
    lemma_member_found(all, 0);
    lemma_member_found(all, 1);
    lemma_member_found(all, 2);
    lemma_member_found(all, 3);
}

pub(crate) proof fn lemma_got_line(text: Seq<u8>)
    requires
        !text.contains(10u8),
    ensures
        forall|i: int| 0 <= i < text.len() ==> #[trigger] text[i] != 10u8,
{
    assert forall|i: int| 0 <= i < text.len() implies #[trigger] text[i] != 10u8 by {
        assert(text.contains(text[i]));
    }
}

/// A document is written on a line of its own, behind what was written before.
pub proof fn law_write_document(out: &mut Vec<u8>, value: &Value)
    requires
        call_ensures(write_document, (out, value), ()),
    ensures
        got_line(old(out)@, final(out)@, json(*value)),
{
    lemma_got_line(json_text(json(*value)));
}

/// A successful command writes one line: its document.
pub proof fn law_emit(
    out: &mut Vec<u8>,
    command: &str,
    cloud: Option<Cloud>,
    result: Value,
) -> (told: Json)
    requires
        call_ensures(emit, (out, command, cloud, result), ()),
    ensures
        got_line(old(out)@, final(out)@, told),
        reports(told, command@, cloud, json(result)),
{
    lemma_reports(command@, cloud, json(result));
    let told = document_json(command@, cloud, json(result));
    lemma_got_line(json_text(told));
    told
}

/// To write the document of a command is to make it and to write it.
pub proof fn law_emit_is_document_and_write(
    out: &mut Vec<u8>,
    command: &str,
    cloud: Option<Cloud>,
    result: Value,
    value: Value,
    other: &mut Vec<u8>,
)
    requires
        call_ensures(emit, (out, command, cloud, result), ()),
        call_ensures(document, (command, cloud, result), value),
        call_ensures(write_document, (other, &value), ()),
        old(out)@ == old(other)@,
    ensures
        final(out)@ == final(other)@,
{
}

/// A failed command writes one line: its document, which holds the schema version, the
/// command, the cloud, and the code and the message of the error, and nothing else.
pub proof fn law_error(
    out: &mut Vec<u8>,
    command: Option<&str>,
    cloud: Option<Cloud>,
    code: &str,
    message: &str,
) -> (told: Json)
    requires
        call_ensures(error, (out, command, cloud, code, message), ()),
    ensures
        got_line(old(out)@, final(out)@, told),
        told is Object,
        members_of(told).len() == 4,
        member_of(told, "schema_version"@) == Json::Number(natural(1)),
        command matches Some(word) ==> member_of(told, "command"@) == Json::Text(word@),
        command is None ==> member_of(told, "command"@) == Json::Null,
        tells_cloud(told, cloud),
        members_of(member_of(told, "error"@)).len() == 2,
        member_of(member_of(told, "error"@), "code"@) == Json::Text(code@),
        member_of(member_of(told, "error"@), "message"@) == Json::Text(message@),
{
    let told = error_json(text_view(command), cloud, code@, message@);
    lemma_got_line(json_text(told));
    lemma_error_names(text_view(command), cloud, code@, message@);
    lemma_member_found(told->Object_0, 0);
    lemma_member_found(told->Object_0, 1);
    lemma_member_found(told->Object_0, 2);
    lemma_member_found(told->Object_0, 3);
    lemma_failure_names(code@, message@);
    lemma_member_found(failure_json(code@, message@)->Object_0, 0);
    lemma_member_found(failure_json(code@, message@)->Object_0, 1);
    told
}

/// How to reach an instance is written as the result of the `shell` command: the instance
/// as it is handed in, and the command to connect with.
pub proof fn law_connection(
    out: &mut Vec<u8>,
    cloud: Cloud,
    instance: Value,
    command: &str,
) -> (told: Json)
    requires
        call_ensures(connection, (out, cloud, instance, command), ()),
    ensures
        got_line(old(out)@, final(out)@, told),
        reports(told, "shell"@, Some(cloud), member_of(told, "result"@)),
        members_of(member_of(told, "result"@)).len() == 2,
        member_of(member_of(told, "result"@), "instance"@) == json(instance),
        member_of(member_of(told, "result"@), "connect_command"@) == Json::Text(command@),
{
    let result = connection_json(json(instance), command@);
    let told = document_json("shell"@, Some(cloud), result);
    lemma_got_line(json_text(told));
    lemma_reports("shell"@, Some(cloud), result);
    lemma_connection_names(json(instance), command@);
    lemma_member_found(result->Object_0, 0);
    lemma_member_found(result->Object_0, 1);
    told
}

} // verus!
