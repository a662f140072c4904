//! The output policy of a run, and the log records that it lets through.
use serde_json::Value;
use vstd::prelude::*;

use crate::document::{adds_line, document_json};
use crate::document::{emit, entry, text_value};
use crate::json::{boolean, is_null, is_object, object, set_member};
use crate::json::{
    distinct_names, json, lemma_distinct_names, lemma_new_member, lemma_set_member, member_of,
    members, members_of, name_differs, names_differ, with_member, Json,
};
use crate::model::Cloud;

verus! {

/// Whether output is JSON, and which log is being written. Each is settled once.
pub struct OutputPolicy {
    json: Option<bool>,
    log_context: Option<(Cloud, String)>,
}

/// What an output policy has settled.
pub struct Settled {
    pub json: Option<bool>,
    pub log: Option<(Cloud, Seq<char>)>,
}

impl View for OutputPolicy {
    type V = Settled;

    closed spec fn view(&self) -> Settled {
        Settled {
            json: self.json,
            log: match self.log_context {
                Some((cloud, instance)) => Some((cloud, instance@)),
                None => None,
            },
        }
    }
}

/// Why a log record was not written.
#[derive(Clone, Copy, Debug, PartialEq, Eq, Structural)]
pub enum LogError {
    /// No log was begun.
    NotInitialized,
}

impl LogError {
    /// The error in words.
    pub fn message(self) -> (r: &'static str)
        ensures
            r@ == "Log output was not initialized"@,
    {
        "Log output was not initialized"
    }
}

impl Settled {
    /// Whether output is JSON; it is not as long as that is not settled.
    pub open spec fn is_json(self) -> bool {
        self.json == Some(true)
    }

    /// Settles whether output is JSON, unless it is settled.
    pub open spec fn initialized(self, json: bool) -> Settled {
        Settled {
            json: if self.json is Some {
                self.json
            } else {
                Some(json)
            },
            log: self.log,
        }
    }

    /// Settles which log is written, unless it is settled or output is not JSON.
    pub open spec fn logging(self, cloud: Cloud, instance: Seq<char>) -> Settled {
        Settled {
            json: self.json,
            log: if self.is_json() && self.log is None {
                Some((cloud, instance))
            } else {
                self.log
            },
        }
    }
}

/// A log record with the instance that it comes from.
pub open spec fn log_event_json(event: Json, instance: Seq<char>) -> Json {
    Json::Object(with_member(members_of(event), "instance"@, Json::Text(instance)))
}

/// A piece of log text.
pub open spec fn data_json(stream: Seq<char>, text: Seq<char>, reset: bool) -> Json {
    Json::Object(
        seq![
            ("event"@, Json::Text("data"@)),
            ("stream"@, Json::Text(stream)),
            ("text"@, Json::Text(text)),
            ("reset"@, Json::Bool(reset)),
        ],
    )
}

/// A piece of log text with the instance that it comes from.
pub open spec fn log_text_json(
    stream: Seq<char>,
    text: Seq<char>,
    reset: bool,
    instance: Seq<char>,
) -> Json {
    Json::Object(
        seq![
            ("event"@, Json::Text("data"@)),
            ("stream"@, Json::Text(stream)),
            ("text"@, Json::Text(text)),
            ("reset"@, Json::Bool(reset)),
            ("instance"@, Json::Text(instance)),
        ],
    )
}

/// A piece of log text with its instance has no name twice.
pub(crate) proof fn lemma_log_text_names(
    stream: Seq<char>,
    text: Seq<char>,
    reset: bool,
    instance: Seq<char>,
)
    ensures
        distinct_names(log_text_json(stream, text, reset, instance)->Object_0),
{
    reveal_strlit("event");
    reveal_strlit("stream");
    reveal_strlit("text");
    reveal_strlit("reset");
    assert("event"@.len() == 5);
    assert("stream"@.len() == 6);
    assert("text"@.len() == 4);
    assert("reset"@.len() == 5);
    assert("event"@[0] == 'e');
    assert("reset"@[0] == 'r');
    reveal_strlit("instance");
    assert("instance"@.len() == 8);
    reveal_with_fuel(name_differs, 6);
    reveal_with_fuel(names_differ, 6);
    lemma_distinct_names(log_text_json(stream, text, reset, instance)->Object_0);
}

/// A piece of log text has no name twice.
proof fn lemma_data_names(stream: Seq<char>, text: Seq<char>, reset: bool)
    ensures
        distinct_names(data_json(stream, text, reset)->Object_0),
{
    let all = data_json(stream, text, reset)->Object_0;
    let whole = log_text_json(stream, text, reset, seq![])->Object_0;
    lemma_log_text_names(stream, text, reset, seq![]);
    assert forall|i: int, j: int| 0 <= i < j < all.len() implies #[trigger] all[i].0
        != #[trigger] all[j].0 by {
        assert(all[i].0 == whole[i].0 && all[j].0 == whole[j].0);
    }
}

/// The first word on the output format stands.
pub proof fn lemma_initialized_once(policy: Settled, first: bool, second: bool)
    ensures
        policy.initialized(first).initialized(second) == policy.initialized(first),
{
}

/// The first log that is begun is the one that is written.
pub proof fn lemma_logging_once(
    policy: Settled,
    cloud: Cloud,
    instance: Seq<char>,
    other_cloud: Cloud,
    other_instance: Seq<char>,
)
    ensures
        policy.is_json() ==> policy.logging(cloud, instance).logging(other_cloud, other_instance)
            == policy.logging(cloud, instance),
        !policy.is_json() ==> policy.logging(cloud, instance) == policy,
{
}

/// A log record always names the instance of the log, even where the record that was
/// handed in named another; nothing else in it is changed.
pub proof fn lemma_records_name_their_instance(event: Json, instance: Seq<char>, name: Seq<char>)
    requires
        event is Object || event is Null,
    ensures
        member_of(log_event_json(event, instance), "instance"@) == Json::Text(instance),
        name != "instance"@ ==> member_of(log_event_json(event, instance), name) == member_of(
            event,
            name,
        ),
{
    lemma_set_member(members_of(event), "instance"@, Json::Text(instance), "instance"@);
    lemma_set_member(members_of(event), "instance"@, Json::Text(instance), name);
}

impl OutputPolicy {
    /// Logs are only written as JSON.
    #[verifier::type_invariant]
    spec fn wf(&self) -> bool {
        self.log_context is Some ==> self.json == Some(true)
    }
}

impl Default for OutputPolicy {
    /// Nothing is settled.
    fn default() -> (policy: Self)
        ensures
            policy@ == (Settled { json: None, log: None }),
    {
        OutputPolicy { json: None, log_context: None }
    }
}

/// Settles whether output is JSON. Later calls change nothing.
pub fn initialize(policy: &mut OutputPolicy, json: bool)
    ensures
        final(policy)@ == old(policy)@.initialized(json),
{
    proof {
        use_type_invariant(&*policy);
    }
    if policy.json.is_none() {
        policy.json = Some(json);
    }
}

/// Whether output is JSON.
pub fn is_json(policy: &OutputPolicy) -> (r: bool)
    ensures
        r == policy@.is_json(),
{
    match policy.json {
        Some(json) => json,
        None => false,
    }
}

/// Begins to write the log of an instance, if output is JSON. Later calls change nothing.
pub fn begin_logs(policy: &mut OutputPolicy, cloud: Cloud, instance: &str)
    ensures
        final(policy)@ == old(policy)@.logging(cloud, instance@),
{
    if is_json(policy) {
        if policy.log_context.is_none() {
            policy.log_context = Some((cloud, instance.to_owned()));
        }
    }
}

/// Whether a log is being written; then output is JSON.
pub fn streaming_logs(policy: &OutputPolicy) -> (r: bool)
    ensures
        r == (policy@.log is Some),
        r ==> policy@.is_json(),
{
    proof {
        use_type_invariant(policy);
    }
    policy.log_context.is_some()
}

/// Adds a log record to the output, with the instance that it comes from.
pub fn log_event(policy: &OutputPolicy, out: &mut Vec<u8>, event: Value) -> (r: Result<
    (),
    LogError,
>)
    requires
        policy@.log is Some ==> json(event) is Object || json(event) is Null,
    ensures
        match policy@.log {
            Some((cloud, instance)) => {
                &&& r is Ok
                &&& adds_line(
                    old(out)@,
                    final(out)@,
                    document_json("logs"@, Some(cloud), log_event_json(json(event), instance)),
                )
            },
            None => {
                &&& r == Err::<(), LogError>(LogError::NotInitialized)
                &&& final(out)@ == old(out)@
            },
        },
{
    match &policy.log_context {
        Some((cloud, instance)) => {
            let mut result = event;
            set_member(&mut result, "instance", text_value(instance.as_str()));
            emit(out, "logs", Some(*cloud), result);
            Ok(())
        },
        None => Err(LogError::NotInitialized),
    }
}

/// Adds a log record to the output, whatever is handed in as one. None, and nothing added,
/// where a log is being written but `event` is neither an object nor null.
pub fn try_log_event(policy: &OutputPolicy, out: &mut Vec<u8>, event: Value) -> (r: Option<
    Result<(), LogError>,
>)
    ensures
        match policy@.log {
            Some((cloud, instance)) => if json(event) is Object || json(event) is Null {
                &&& r is Some && r->0 is Ok
                &&& adds_line(
                    old(out)@,
                    final(out)@,
                    document_json("logs"@, Some(cloud), log_event_json(json(event), instance)),
                )
            } else {
                &&& r is None
                &&& final(out)@ == old(out)@
            },
            None => {
                &&& r == Some(Err::<(), LogError>(LogError::NotInitialized))
                &&& final(out)@ == old(out)@
            },
        },
{
    if streaming_logs(policy) && !is_object(&event) && !is_null(&event) {
        return None;
    }
    Some(log_event(policy, out, event))
}

/// Adds a piece of log text to the output. A piece that says nothing is left out: no text,
/// and no `reset` of what was written before.
pub fn log_text(
    policy: &OutputPolicy,
    out: &mut Vec<u8>,
    stream: &str,
    text: &str,
    reset: bool,
) -> (r: Result<(), LogError>)
    ensures
        text@.len() == 0 && !reset ==> r is Ok && final(out)@ == old(out)@,
        text@.len() > 0 || reset ==> match policy@.log {
            Some((cloud, instance)) => {
                &&& r is Ok
                &&& adds_line(
                    old(out)@,
                    final(out)@,
                    document_json(
                        "logs"@,
                        Some(cloud),
                        log_text_json(stream@, text@, reset, instance),
                    ),
                )
            },
            None => {
                &&& r == Err::<(), LogError>(LogError::NotInitialized)
                &&& final(out)@ == old(out)@
            },
        },
{
    if text.is_empty() && !reset {
        return Ok(());
    }
    let entries = vec![
        entry("event", text_value("data")),
        entry("stream", text_value(stream)),
        entry("text", text_value(text)),
        entry("reset", boolean(reset)),
    ];
    proof {
        let all = data_json(stream@, text@, reset)->Object_0;
        assert(members(entries@) =~= all);
        lemma_data_names(stream@, text@, reset);
        if let Some((_, instance)) = policy@.log {
            let whole = log_text_json(stream@, text@, reset, instance)->Object_0;
            lemma_log_text_names(stream@, text@, reset, instance);
            assert forall|i: int| 0 <= i < all.len() implies #[trigger] all[i].0 != "instance"@ by {
                assert(all[i].0 == whole[i].0 && whole[4].0 == "instance"@);
            }
            lemma_new_member(all, "instance"@, Json::Text(instance));
            assert(all.push(("instance"@, Json::Text(instance))) =~= whole);
        }
    }
    log_event(policy, out, object(entries))
}

} // verus!
