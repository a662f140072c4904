//! The configuration as the output tells it: every key, and no credential.
use serde_json::Value;
use vstd::prelude::*;

use crate::document::text_value;
use crate::json::{copy, is_null, member, object};
use crate::json::{json, member_of, members, Json};

verus! {

/// The keys that can be configured.
pub open spec fn config_keys() -> Seq<Seq<char>> {
    seq![
        "default.cloud"@,
        "default.runtime_hours"@,
        "default.vast_ai.min_cpus"@,
        "default.vast_ai.min_ram_gb"@,
        "default.vast_ai.allowed_gpus"@,
        "default.vast_ai.max_price_per_hr"@,
        "default.gcp.min_cpus"@,
        "default.gcp.min_ram_gb"@,
        "default.gcp.allowed_gpus"@,
        "default.gcp.max_price_per_hr"@,
        "default.aws.min_cpus"@,
        "default.aws.min_ram_gb"@,
        "default.aws.allowed_gpus"@,
        "default.aws.max_price_per_hr"@,
        "default.gcp.region"@,
        "default.gcp.zone"@,
        "default.gcp.image_family"@,
        "default.gcp.image_project"@,
        "default.gcp.boot_disk_gb"@,
        "default.aws.region"@,
        "default.aws.ami"@,
        "default.aws.key_name"@,
        "default.aws.ssh_key_path"@,
        "default.aws.ssh_user"@,
        "default.aws.security_group_id"@,
        "default.aws.subnet_id"@,
        "default.aws.root_disk_gb"@,
        "auth.vast_ai.api_key"@,
        "auth.gcp.project"@,
        "auth.gcp.service_account_json"@,
        "auth.aws.access_key_id"@,
        "auth.aws.secret_access_key"@,
    ]
}

/// The number of characters before the first dot; all of them if there is none.
pub open spec fn before_dot(path: Seq<char>) -> int
    decreases path.len(),
{
    if path.len() == 0 || path[0] == '.' {
        0
    } else {
        1 + before_dot(path.drop_first())
    }
}

/// What a value holds at a path of member names with dots between them.
pub open spec fn at_path(contents: Json, path: Seq<char>) -> Json
    decreases path.len(),
{
    let n = before_dot(path);
    if 0 <= n < path.len() {
        at_path(member_of(contents, path.take(n)), path.skip(n + 1))
    } else {
        member_of(contents, path)
    }
}

/// Whether a key belongs to the authentication settings.
pub open spec fn is_auth_key(key: Seq<char>) -> bool {
    key.len() >= 5 && key.take(5) == seq!['a', 'u', 't', 'h', '.']
}

/// What is told of one key: its value, but of an authentication setting only whether it
/// is set.
pub open spec fn told_value(config: Json, key: Seq<char>) -> Json {
    let value = at_path(config, key);
    if is_auth_key(key) && value !is Null {
        Json::Text("<redacted>"@)
    } else {
        value
    }
}

/// What is told of a configuration.
pub open spec fn config_json(config: Json) -> Json {
    Json::Object(config_keys().map_values(|key: Seq<char>| (key, told_value(config, key))))
}

/// What is told of a configuration does not depend on the values of the authentication
/// settings, only on which of them are set.
pub proof fn lemma_credentials_are_not_told(config: Json, other: Json)
    requires
        forall|i: int|
            #![trigger config_keys()[i]]
            0 <= i < config_keys().len() ==> {
                let key = config_keys()[i];
                if is_auth_key(key) {
                    (at_path(config, key) is Null) == (at_path(other, key) is Null)
                } else {
                    at_path(config, key) == at_path(other, key)
                }
            },
    ensures
        config_json(config) == config_json(other),
{
    let told = config_json(config)->Object_0;
    let told_other = config_json(other)->Object_0;
    assert forall|i: int| 0 <= i < told.len() implies told[i] == told_other[i] by {
        assert(told[i].0 == config_keys()[i]);
    }
    assert(told =~= told_other);
}

/// A number that tells the keys apart.
spec fn fingerprint(key: Seq<char>) -> u64 {
    (key.len() * 1000000 + key[8] as int * 1000 + key[12] as int) as u64
}

/// The position of the key with that number.
spec fn fingerprint_position(code: u64) -> int {
    match code {
        13099100 => 0,
        21114105 => 1,
        24118095 => 2,
        26118095 => 3,
        28118095 => 4,
        32118095 => 5,
        20103109 => 6,
        22103109 => 7,
        24103097 => 8,
        28103109 => 9,
        20097109 => 10,
        22097109 => 11,
        24097097 => 12,
        28097109 => 13,
        18103114 => 14,
        16103122 => 15,
        24103105 => 16,
        25103105 => 17,
        24103098 => 18,
        18097114 => 19,
        15097097 => 20,
        20097107 => 21,
        24097115 => 22,
        20097115 => 23,
        29097115 => 24,
        21097115 => 25,
        24097114 => 26,
        20116046 => 27,
        16046106 => 28,
        29046118 => 29,
        22046101 => 30,
        26046114 => 31,
        _ => -1,
    }
}

/// No key is listed twice.
pub proof fn lemma_config_keys_distinct()
    ensures
        config_keys().no_duplicates(),
{
    reveal_strlit("default.cloud");
    reveal_strlit("default.runtime_hours");
    reveal_strlit("default.vast_ai.min_cpus");
    reveal_strlit("default.vast_ai.min_ram_gb");
    reveal_strlit("default.vast_ai.allowed_gpus");
    reveal_strlit("default.vast_ai.max_price_per_hr");
    reveal_strlit("default.gcp.min_cpus");
    reveal_strlit("default.gcp.min_ram_gb");
    reveal_strlit("default.gcp.allowed_gpus");
    reveal_strlit("default.gcp.max_price_per_hr");
    reveal_strlit("default.aws.min_cpus");
    reveal_strlit("default.aws.min_ram_gb");
    reveal_strlit("default.aws.allowed_gpus");
    reveal_strlit("default.aws.max_price_per_hr");
    reveal_strlit("default.gcp.region");
    reveal_strlit("default.gcp.zone");
    reveal_strlit("default.gcp.image_family");
    reveal_strlit("default.gcp.image_project");
    reveal_strlit("default.gcp.boot_disk_gb");
    reveal_strlit("default.aws.region");
    reveal_strlit("default.aws.ami");
    reveal_strlit("default.aws.key_name");
    reveal_strlit("default.aws.ssh_key_path");
    reveal_strlit("default.aws.ssh_user");
    reveal_strlit("default.aws.security_group_id");
    reveal_strlit("default.aws.subnet_id");
    reveal_strlit("default.aws.root_disk_gb");
    reveal_strlit("auth.vast_ai.api_key");
    reveal_strlit("auth.gcp.project");
    reveal_strlit("auth.gcp.service_account_json");
    reveal_strlit("auth.aws.access_key_id");
    reveal_strlit("auth.aws.secret_access_key");
    assert(fingerprint("default.cloud"@) == 13099100);
    assert(fingerprint("default.runtime_hours"@) == 21114105);
    assert(fingerprint("default.vast_ai.min_cpus"@) == 24118095);
    assert(fingerprint("default.vast_ai.min_ram_gb"@) == 26118095);
    assert(fingerprint("default.vast_ai.allowed_gpus"@) == 28118095);
    assert(fingerprint("default.vast_ai.max_price_per_hr"@) == 32118095);
    assert(fingerprint("default.gcp.min_cpus"@) == 20103109);
    assert(fingerprint("default.gcp.min_ram_gb"@) == 22103109);
    assert(fingerprint("default.gcp.allowed_gpus"@) == 24103097);
    assert(fingerprint("default.gcp.max_price_per_hr"@) == 28103109);
    assert(fingerprint("default.aws.min_cpus"@) == 20097109);
    assert(fingerprint("default.aws.min_ram_gb"@) == 22097109);
    assert(fingerprint("default.aws.allowed_gpus"@) == 24097097);
    assert(fingerprint("default.aws.max_price_per_hr"@) == 28097109);
    assert(fingerprint("default.gcp.region"@) == 18103114);
    assert(fingerprint("default.gcp.zone"@) == 16103122);
    assert(fingerprint("default.gcp.image_family"@) == 24103105);
    assert(fingerprint("default.gcp.image_project"@) == 25103105);
    assert(fingerprint("default.gcp.boot_disk_gb"@) == 24103098);
    assert(fingerprint("default.aws.region"@) == 18097114);
    assert(fingerprint("default.aws.ami"@) == 15097097);
    assert(fingerprint("default.aws.key_name"@) == 20097107);
    assert(fingerprint("default.aws.ssh_key_path"@) == 24097115);
    assert(fingerprint("default.aws.ssh_user"@) == 20097115);
    assert(fingerprint("default.aws.security_group_id"@) == 29097115);
    assert(fingerprint("default.aws.subnet_id"@) == 21097115);
    assert(fingerprint("default.aws.root_disk_gb"@) == 24097114);
    assert(fingerprint("auth.vast_ai.api_key"@) == 20116046);
    assert(fingerprint("auth.gcp.project"@) == 16046106);
    assert(fingerprint("auth.gcp.service_account_json"@) == 29046118);
    assert(fingerprint("auth.aws.access_key_id"@) == 22046101);
    assert(fingerprint("auth.aws.secret_access_key"@) == 26046114);
    let keys = config_keys();
    assert forall|i: int| 0 <= i < keys.len() implies fingerprint_position(
        fingerprint(#[trigger] keys[i]),
    ) == i by {
        assert(i == 0 || i == 1 || i == 2 || i == 3 || i == 4 || i == 5 || i == 6 || i == 7
            || i == 8 || i == 9 || i == 10 || i == 11 || i == 12 || i == 13 || i == 14 || i == 15
            || i == 16 || i == 17 || i == 18 || i == 19 || i == 20 || i == 21 || i == 22 || i == 23
            || i == 24 || i == 25 || i == 26 || i == 27 || i == 28 || i == 29 || i == 30
            || i == 31);
    }
}

/// The keys that can be configured.
pub fn supported_config_keys() -> (keys: Vec<&'static str>)
    ensures
        keys@.map_values(|key: &'static str| key@) == config_keys(),
{
    let keys = vec![
        "default.cloud",
        "default.runtime_hours",
        "default.vast_ai.min_cpus",
        "default.vast_ai.min_ram_gb",
        "default.vast_ai.allowed_gpus",
        "default.vast_ai.max_price_per_hr",
        "default.gcp.min_cpus",
        "default.gcp.min_ram_gb",
        "default.gcp.allowed_gpus",
        "default.gcp.max_price_per_hr",
        "default.aws.min_cpus",
        "default.aws.min_ram_gb",
        "default.aws.allowed_gpus",
        "default.aws.max_price_per_hr",
        "default.gcp.region",
        "default.gcp.zone",
        "default.gcp.image_family",
        "default.gcp.image_project",
        "default.gcp.boot_disk_gb",
        "default.aws.region",
        "default.aws.ami",
        "default.aws.key_name",
        "default.aws.ssh_key_path",
        "default.aws.ssh_user",
        "default.aws.security_group_id",
        "default.aws.subnet_id",
        "default.aws.root_disk_gb",
        "auth.vast_ai.api_key",
        "auth.gcp.project",
        "auth.gcp.service_account_json",
        "auth.aws.access_key_id",
        "auth.aws.secret_access_key",
    ];
    assert(keys@.map_values(|key: &'static str| key@) =~= config_keys());
    keys
}

/// The position of the first dot from `start` on, or the number of characters.
fn dot_position(path: &str, start: usize) -> (end: usize)
    requires
        start <= path@.len(),
    ensures
        end == start + before_dot(path@.skip(start as int)),
        start <= end <= path@.len(),
        end < path@.len() ==> path@[end as int] == '.',
{
    let length = path.unicode_len();
    let mut end = start;
    while end < length && path.get_char(end) != '.'
        invariant
            length == path@.len(),
            start <= end <= length,
            start + before_dot(path@.skip(start as int)) == end + before_dot(
                path@.skip(end as int),
            ),
        decreases length - end,
    {
        assert(path@.skip(end as int).drop_first() =~= path@.skip(end + 1));
        end = end + 1;
    }
    end
}

/// What a value holds at a path of member names with dots between them.
fn value_at_path<'a>(value: &'a Value, path: &str) -> (r: &'a Value)
    ensures
        json(*r) == at_path(json(*value), path@),
{
    let length = path.unicode_len();
    let mut start: usize = 0;
    let mut current = value;
    assert(path@.skip(0) =~= path@);
    loop
        invariant
            length == path@.len(),
            start <= length,
            at_path(json(*value), path@) == at_path(json(*current), path@.skip(start as int)),
        decreases length - start,
    {
        let ghost left = path@.skip(start as int);
        let end = dot_position(path, start);
        current = member(current, path.substring_char(start, end));
        assert(path@.subrange(start as int, end as int) =~= left.take(end - start));
        if end == length {
            assert(left.take(end - start) =~= left);
            return current;
        }
        assert(left.skip(end - start + 1) =~= path@.skip(end + 1));
        start = end + 1;
    }
}

/// Whether a key belongs to the authentication settings.
fn is_auth(key: &str) -> (r: bool)
    ensures
        r == is_auth_key(key@),
{
    let r = key.unicode_len() >= 5 && key.get_char(0) == 'a' && key.get_char(1) == 'u'
        && key.get_char(2) == 't' && key.get_char(3) == 'h' && key.get_char(4) == '.';
    assert(r ==> key@.take(5) =~= seq!['a', 'u', 't', 'h', '.']);
    assert(is_auth_key(key@) ==> forall|i: int|
        0 <= i < 5 ==> key@[i] == #[trigger] key@.take(5)[i]);
    r
}

/// What is told of a configuration, which is given as its JSON form.
pub fn config_values(config: &Value) -> (value: Value)
    ensures
        json(value) == config_json(json(*config)),
{
    let keys = supported_config_keys();
    let mut entries: Vec<(String, Value)> = Vec::new();
    for i in 0..keys.len()
        invariant
            keys@.map_values(|key: &'static str| key@) == config_keys(),
            entries.len() == i,
            forall|k: int|
                0 <= k < i ==> members(entries@)[k] == (
                    #[trigger] keys@[k]@,
                    told_value(json(*config), keys@[k]@),
                ),
    {
        let key = keys[i];
        let found = value_at_path(config, key);
        let told = if is_auth(key) && !is_null(found) {
            text_value("<redacted>")
        } else {
            copy(found)
        };
        entries.push((key.to_owned(), told));
    }
    proof {
        let listed = keys@.map_values(|key: &'static str| key@);
        assert forall|k: int| 0 <= k < listed.len() implies #[trigger] listed[k] == keys@[k]@ by {}
        assert(members(entries@) =~= config_json(json(*config))->Object_0);
        lemma_config_keys_distinct();
        let told = config_json(json(*config))->Object_0;
        assert forall|i: int, j: int| 0 <= i < j < told.len() implies #[trigger] told[i].0
            != #[trigger] told[j].0 by {
            assert(told[i].0 == config_keys()[i]);
            assert(told[j].0 == config_keys()[j]);
        }
    }
    object(entries)
}

} // verus!
