//! The output policy over its calls, and the log records that it lets through, read by name.
use serde_json::Value;
use vstd::prelude::*;

use crate::document::document_json;
use crate::json::{
    json, json_text, lemma_member_found, lemma_member_position, lemma_set_member, member_of,
    members_of, Json,
};
use crate::laws::documents::{got_line, lemma_got_line, lemma_reports, reports};
use crate::logs::{
    begin_logs, initialize, is_json, log_event, log_text, streaming_logs, try_log_event, LogError,
    OutputPolicy,
};
use crate::logs::{lemma_log_text_names, log_event_json, log_text_json};
use crate::model::Cloud;

verus! {

/// A policy that nobody told anything is not for JSON and writes no log.
pub proof fn law_nothing_is_settled_at_first(policy: OutputPolicy, json: bool, streaming: bool)
    requires
        call_ensures(OutputPolicy::default, (), policy),
        call_ensures(is_json, (&policy,), json),
        call_ensures(streaming_logs, (&policy,), streaming),
    ensures
        !json,
        !streaming,
{
}

/// The first word on the output format is the one that counts, whatever is said later and
/// whatever log is begun.
pub proof fn law_first_word_counts(
    policy: OutputPolicy,
    first: &mut OutputPolicy,
    json: bool,
    second: &mut OutputPolicy,
    other: bool,
    third: &mut OutputPolicy,
    cloud: Cloud,
    instance: &str,
    r_first: bool,
    r_second: bool,
    r_third: bool,
)
    requires
        call_ensures(OutputPolicy::default, (), policy),
        *old(first) == policy,
        call_ensures(initialize, (first, json), ()),
        *old(second) == *final(first),
        call_ensures(initialize, (second, other), ()),
        *old(third) == *final(second),
        call_ensures(begin_logs, (third, cloud, instance), ()),
        call_ensures(is_json, (&*final(first),), r_first),
        call_ensures(is_json, (&*final(second),), r_second),
        call_ensures(is_json, (&*final(third),), r_third),
    ensures
        r_first == json,
        r_second == json,
        r_third == json,
{
}

/// To settle the output format neither begins a log nor ends one.
pub proof fn law_format_leaves_the_log_alone(policy: &mut OutputPolicy, json: bool)
    requires
        call_ensures(initialize, (policy, json), ()),
    ensures
        final(policy)@.log == old(policy)@.log,
        old(policy)@.json is Some ==> final(policy)@.json == old(policy)@.json,
        old(policy)@.json is None ==> final(policy)@.json == Some(json),
{
}

/// A log is begun exactly where output is JSON and no other was begun; it is then the log of
/// that cloud and that instance.
pub proof fn law_log_is_begun_once(
    policy: &mut OutputPolicy,
    cloud: Cloud,
    instance: &str,
    json: bool,
    before: bool,
    after: bool,
)
    requires
        call_ensures(begin_logs, (policy, cloud, instance), ()),
        call_ensures(is_json, (&*old(policy),), json),
        call_ensures(streaming_logs, (&*old(policy),), before),
        call_ensures(streaming_logs, (&*final(policy),), after),
    ensures
        final(policy)@.json == old(policy)@.json,
        json == (old(policy)@.json == Some(true)),
        before == (old(policy)@.log is Some),
        after == (before || json),
        !before && json ==> final(policy)@.log == Some((cloud, instance@)),
        before || !json ==> final(policy)@.log == old(policy)@.log,
        after ==> json,
{
}

/// Whether a log record is that of an instance.
pub open spec fn is_record(told: Json, cloud: Cloud, instance: Seq<char>) -> bool {
    &&& reports(told, "logs"@, Some(cloud), member_of(told, "result"@))
    &&& member_of(member_of(told, "result"@), "instance"@) == Json::Text(instance)
}

/// A piece of log text is written as one line: the record of the log's instance, with the
/// stream, the text and the flag that were handed in, and nothing else.
pub proof fn law_log_text(
    policy: &OutputPolicy,
    out: &mut Vec<u8>,
    stream: &str,
    text: &str,
    reset: bool,
    r: Result<(), LogError>,
    cloud: Cloud,
    instance: Seq<char>,
) -> (told: Json)
    requires
        call_ensures(log_text, (policy, out, stream, text, reset), r),
        policy@.log == Some((cloud, instance)),
        text@.len() > 0 || reset,
    ensures
        r is Ok,
        got_line(old(out)@, final(out)@, told),
        is_record(told, cloud, instance),
        members_of(member_of(told, "result"@)).len() == 5,
        member_of(member_of(told, "result"@), "event"@) == Json::Text("data"@),
        member_of(member_of(told, "result"@), "stream"@) == Json::Text(stream@),
        member_of(member_of(told, "result"@), "text"@) == Json::Text(text@),
        member_of(member_of(told, "result"@), "reset"@) == Json::Bool(reset),
{
    let result = log_text_json(stream@, text@, reset, instance);
    let told = document_json("logs"@, Some(cloud), result);
    lemma_got_line(json_text(told));
    lemma_reports("logs"@, Some(cloud), result);
    lemma_log_text_names(stream@, text@, reset, instance);
    lemma_member_found(result->Object_0, 0);
    lemma_member_found(result->Object_0, 1);
    lemma_member_found(result->Object_0, 2);
    lemma_member_found(result->Object_0, 3);
    lemma_member_found(result->Object_0, 4);
    told
}

/// A piece that says nothing is left out, and is no error even where no log was begun. Any
/// other piece is refused where no log was begun, and nothing is written.
pub proof fn law_log_text_left_out(
    policy: &OutputPolicy,
    out: &mut Vec<u8>,
    stream: &str,
    text: &str,
    reset: bool,
    r: Result<(), LogError>,
)
    requires
        call_ensures(log_text, (policy, out, stream, text, reset), r),
    ensures
        text@.len() == 0 && !reset ==> r is Ok && final(out)@ == old(out)@,
        policy@.log is None && (text@.len() > 0 || reset) ==> {
            &&& r == Err::<(), LogError>(LogError::NotInitialized)
            &&& final(out)@ == old(out)@
        },
{
}

/// A log record is written as one line: the record of the log's instance, with every other
/// member as it was handed in.
pub proof fn law_log_event(
    policy: &OutputPolicy,
    out: &mut Vec<u8>,
    event: Value,
    r: Result<(), LogError>,
    cloud: Cloud,
    instance: Seq<char>,
) -> (told: Json)
    requires
        call_ensures(log_event, (policy, out, event), r),
        policy@.log == Some((cloud, instance)),
        json(event) is Object || json(event) is Null,
    ensures
        r is Ok,
        got_line(old(out)@, final(out)@, told),
        is_record(told, cloud, instance),
        forall|name: Seq<char>|
            name != "instance"@ ==> #[trigger] member_of(member_of(told, "result"@), name)
                == member_of(json(event), name),
        members_of(json(event)).len() <= members_of(member_of(told, "result"@)).len()
            <= members_of(json(event)).len() + 1,
{
    let result = log_event_json(json(event), instance);
    let told = document_json("logs"@, Some(cloud), result);
    lemma_got_line(json_text(told));
    lemma_reports("logs"@, Some(cloud), result);
    let handed = members_of(json(event));
    lemma_member_position(handed, "instance"@);
    lemma_set_member(handed, "instance"@, Json::Text(instance), "instance"@);
    assert forall|name: Seq<char>| name != "instance"@ implies #[trigger] member_of(
        member_of(told, "result"@),
        name,
    ) == member_of(json(event), name) by {
        lemma_set_member(handed, "instance"@, Json::Text(instance), name);
    }
    told
}

/// A log record is refused where no log was begun, and nothing is written.
pub proof fn law_log_event_needs_a_log(
    policy: &OutputPolicy,
    out: &mut Vec<u8>,
    event: Value,
    r: Result<(), LogError>,
)
    requires
        call_ensures(log_event, (policy, out, event), r),
        policy@.log is None,
    ensures
        r == Err::<(), LogError>(LogError::NotInitialized),
        final(out)@ == old(out)@,
{
}

/// To try to write a record is to write it, but where it is neither an object nor null and
/// a log is being written: then nothing is done.
pub proof fn law_try_log_event(
    policy: &OutputPolicy,
    out: &mut Vec<u8>,
    event: Value,
    r: Option<Result<(), LogError>>,
    other: &mut Vec<u8>,
    r_other: Result<(), LogError>,
)
    requires
        call_ensures(try_log_event, (policy, out, event), r),
        call_ensures(log_event, (policy, other, event), r_other),
        old(out)@ == old(other)@,
    ensures
        json(event) is Object || json(event) is Null || policy@.log is None ==> {
            &&& r is Some
            &&& r->0 is Ok <==> r_other is Ok
            &&& final(out)@ == final(other)@
        },
        !(json(event) is Object || json(event) is Null) && policy@.log is Some ==> {
            &&& r is None
            &&& final(out)@ == old(out)@
        },
{
}

/// What is said where no log was begun.
pub proof fn law_log_error_message(error: LogError, message: &'static str)
    requires
        call_ensures(LogError::message, (error,), message),
    ensures
        message@ == "Log output was not initialized"@,
{
}

} // verus!
