//! The configuration, read by name.
use serde_json::Value;
use vstd::prelude::*;

use crate::config::{config_values, supported_config_keys};
use crate::config::{
    at_path, before_dot, config_json, config_keys, is_auth_key, lemma_config_keys_distinct,
    told_value,
};
use crate::json::{distinct_names, json, lemma_member_found, member_of, members_of, Json};

verus! {

/// What a value holds under a name in a group.
pub open spec fn setting(config: Json, group: Seq<char>, name: Seq<char>) -> Json {
    member_of(member_of(config, group), name)
}

/// What a value holds under a name in a part of a group.
pub open spec fn setting_in(
    config: Json,
    group: Seq<char>,
    part: Seq<char>,
    name: Seq<char>,
) -> Json {
    member_of(setting(config, group, part), name)
}

/// Whether a credential is told as it should be: not at all but for whether it is set.
pub open spec fn hides(told: Json, credential: Json) -> bool {
    &&& credential is Null ==> told is Null
    &&& credential !is Null ==> told == Json::Text("<redacted>"@)
}

/// The key of three names.
spec fn key_in(group: Seq<char>, part: Seq<char>, name: Seq<char>) -> Seq<char> {
    group + seq!['.'] + (part + seq!['.'] + name)
}

/// The number of characters before the first dot, where that dot is known.
proof fn lemma_before_dot(name: Seq<char>, rest: Seq<char>)
    requires
        !name.contains('.'),
    ensures
        before_dot(name) == name.len(),
        before_dot(name + seq!['.'] + rest) == name.len(),
    decreases name.len(),
{
    let all = name + seq!['.'] + rest;
    if name.len() > 0 {
        assert(name.contains(name[0]));
        assert(all.drop_first() =~= name.drop_first() + seq!['.'] + rest);
        assert forall|i: int| 0 <= i < name.len() - 1 implies name.drop_first()[i] != '.' by {
            assert(name.contains(name[i + 1]));
        }
        lemma_before_dot(name.drop_first(), rest);
    }
}

/// A path leads through the member that it begins with.
proof fn lemma_at_path(contents: Json, name: Seq<char>, rest: Seq<char>)
    requires
        !name.contains('.'),
    ensures
        at_path(contents, name) == member_of(contents, name),
        at_path(contents, name + seq!['.'] + rest) == at_path(member_of(contents, name), rest),
{
    let all = name + seq!['.'] + rest;
    lemma_before_dot(name, rest);
    assert(all.take(name.len() as int) =~= name);
    assert(all.skip(name.len() as int + 1) =~= rest);
}

/// The key at a position is told.
proof fn lemma_key_is_told(config: &Value, value: Value, i: int)
    requires
        call_ensures(config_values, (config,), value),
        0 <= i < config_keys().len(),
    ensures
        member_of(json(value), config_keys()[i]) == told_value(json(*config), config_keys()[i]),
{
    let told = config_json(json(*config))->Object_0;
    lemma_config_keys_distinct();
    assert(distinct_names(told)) by {
        assert forall|k: int, j: int| 0 <= k < j < told.len() implies #[trigger] told[k].0
            != #[trigger] told[j].0 by {
            assert(told[k].0 == config_keys()[k] && told[j].0 == config_keys()[j]);
        }
    }
    assert(told[i].0 == config_keys()[i]);
    lemma_member_found(told, i);
}

/// A setting in a group is told by the key of the two names.
proof fn lemma_setting(
    config: &Value,
    value: Value,
    i: int,
    group: Seq<char>,
    name: Seq<char>,
)
    requires
        call_ensures(config_values, (config,), value),
        0 <= i < config_keys().len(),
        config_keys()[i] == group + seq!['.'] + name,
        !group.contains('.'),
        !name.contains('.'),
        group.len() != 4,
    ensures
        member_of(json(value), config_keys()[i]) == setting(json(*config), group, name),
{
    lemma_key_is_told(config, value, i);
    lemma_at_path(json(*config), group, name);
    lemma_at_path(member_of(json(*config), group), name, seq![]);
    lemma_no_credential(group, name);
}

/// A setting in a part of a group is told by the key of the three names.
proof fn lemma_setting_in(
    config: &Value,
    value: Value,
    i: int,
    group: Seq<char>,
    part: Seq<char>,
    name: Seq<char>,
)
    requires
        call_ensures(config_values, (config,), value),
        0 <= i < config_keys().len(),
        config_keys()[i] == key_in(group, part, name),
        !group.contains('.'),
        !part.contains('.'),
        !name.contains('.'),
    ensures
        group.len() != 4 ==> member_of(json(value), config_keys()[i]) == setting_in(
            json(*config),
            group,
            part,
            name,
        ),
        group == seq!['a', 'u', 't', 'h'] ==> hides(
            member_of(json(value), config_keys()[i]),
            setting_in(json(*config), group, part, name),
        ),
{
    lemma_key_is_told(config, value, i);
    let inner = part + seq!['.'] + name;
    lemma_at_path(json(*config), group, inner);
    lemma_at_path(member_of(json(*config), group), part, name);
    lemma_at_path(setting(json(*config), group, part), name, seq![]);
    if group.len() != 4 {
        lemma_no_credential(group, inner);
    }
    if group == seq!['a', 'u', 't', 'h'] {
        assert(config_keys()[i].take(5) =~= seq!['a', 'u', 't', 'h', '.']);
    }
}

proof fn lemma_no_credential(group: Seq<char>, rest: Seq<char>)
    requires
        !group.contains('.'),
        group.len() != 4,
    ensures
        !is_auth_key(group + seq!['.'] + rest),
{
    let key = group + seq!['.'] + rest;
    if is_auth_key(key) {
        let start = key.take(5);
        assert(start[0] == 'a' && start[1] == 'u' && start[2] == 't' && start[3] == 'h' && start[4]
            == '.');
        if group.len() < 4 {
            assert(key[group.len() as int] == '.');
            assert(start[group.len() as int] == '.');
        } else {
            assert(key[4] == group[4]);
            assert(group.contains(group[4]));
        }
    }
}

/// The parts of keys have no dots in them.
proof fn lemma_parts()
    ensures
        !"access_key_id"@.contains('.'),
        !"allowed_gpus"@.contains('.'),
        !"ami"@.contains('.'),
        !"api_key"@.contains('.'),
        !"auth"@.contains('.'),
        !"aws"@.contains('.'),
        !"boot_disk_gb"@.contains('.'),
        !"cloud"@.contains('.'),
        !"default"@.contains('.'),
        !"gcp"@.contains('.'),
        !"image_family"@.contains('.'),
        !"image_project"@.contains('.'),
        !"key_name"@.contains('.'),
        !"max_price_per_hr"@.contains('.'),
        !"min_cpus"@.contains('.'),
        !"min_ram_gb"@.contains('.'),
        !"project"@.contains('.'),
        !"region"@.contains('.'),
        !"root_disk_gb"@.contains('.'),
        !"runtime_hours"@.contains('.'),
        !"secret_access_key"@.contains('.'),
        !"security_group_id"@.contains('.'),
        !"service_account_json"@.contains('.'),
        !"ssh_key_path"@.contains('.'),
        !"ssh_user"@.contains('.'),
        !"subnet_id"@.contains('.'),
        !"vast_ai"@.contains('.'),
        !"zone"@.contains('.'),
        "default"@.len() == 7,
        "auth"@ == seq!['a', 'u', 't', 'h'],
{
    reveal_strlit("access_key_id");
    reveal_strlit("allowed_gpus");
    reveal_strlit("ami");
    reveal_strlit("api_key");
    reveal_strlit("auth");
    reveal_strlit("aws");
    reveal_strlit("boot_disk_gb");
    reveal_strlit("cloud");
    reveal_strlit("default");
    reveal_strlit("gcp");
    reveal_strlit("image_family");
    reveal_strlit("image_project");
    reveal_strlit("key_name");
    reveal_strlit("max_price_per_hr");
    reveal_strlit("min_cpus");
    reveal_strlit("min_ram_gb");
    reveal_strlit("project");
    reveal_strlit("region");
    reveal_strlit("root_disk_gb");
    reveal_strlit("runtime_hours");
    reveal_strlit("secret_access_key");
    reveal_strlit("security_group_id");
    reveal_strlit("service_account_json");
    reveal_strlit("ssh_key_path");
    reveal_strlit("ssh_user");
    reveal_strlit("subnet_id");
    reveal_strlit("vast_ai");
    reveal_strlit("zone");
    assert("auth"@ =~= seq!['a', 'u', 't', 'h']);
}

proof fn lemma_default_keys()
    ensures
        "default.cloud"@ == "default"@ + seq!['.'] + "cloud"@,
        "default.runtime_hours"@ == "default"@ + seq!['.'] + "runtime_hours"@,
{
    reveal_strlit("cloud");
    reveal_strlit("default");
    reveal_strlit("runtime_hours");
    reveal_strlit("default.cloud");
    assert("default.cloud"@ =~= "default"@ + seq!['.'] + "cloud"@);
    reveal_strlit("default.runtime_hours");
    assert("default.runtime_hours"@ =~= "default"@ + seq!['.'] + "runtime_hours"@);
}

/// The general settings are told by their keys, as they are configured.
pub proof fn law_default(config: &Value, value: Value)
    requires
        call_ensures(config_values, (config,), value),
    ensures
        member_of(json(value), "default.cloud"@) == setting(json(*config), "default"@, "cloud"@),
        member_of(json(value), "default.runtime_hours"@) == setting(
            json(*config),
            "default"@,
            "runtime_hours"@,
        ),
{
    lemma_parts();
    lemma_default_keys();
    lemma_setting(config, value, 0, "default"@, "cloud"@);
    lemma_setting(config, value, 1, "default"@, "runtime_hours"@);
}

proof fn lemma_default_vast_ai_keys()
    ensures
        "default.vast_ai.min_cpus"@ == key_in("default"@, "vast_ai"@, "min_cpus"@),
        "default.vast_ai.min_ram_gb"@ == key_in("default"@, "vast_ai"@, "min_ram_gb"@),
        "default.vast_ai.allowed_gpus"@ == key_in("default"@, "vast_ai"@, "allowed_gpus"@),
        "default.vast_ai.max_price_per_hr"@ == key_in("default"@, "vast_ai"@, "max_price_per_hr"@),
{
    reveal_strlit("allowed_gpus");
    reveal_strlit("default");
    reveal_strlit("max_price_per_hr");
    reveal_strlit("min_cpus");
    reveal_strlit("min_ram_gb");
    reveal_strlit("vast_ai");
    reveal_strlit("default.vast_ai.min_cpus");
    assert("default.vast_ai.min_cpus"@ =~= key_in("default"@, "vast_ai"@, "min_cpus"@));
    reveal_strlit("default.vast_ai.min_ram_gb");
    assert("default.vast_ai.min_ram_gb"@ =~= key_in("default"@, "vast_ai"@, "min_ram_gb"@));
    reveal_strlit("default.vast_ai.allowed_gpus");
    assert("default.vast_ai.allowed_gpus"@ =~= key_in("default"@, "vast_ai"@, "allowed_gpus"@));
    reveal_strlit("default.vast_ai.max_price_per_hr");
    assert("default.vast_ai.max_price_per_hr"@ =~= key_in(
        "default"@,
        "vast_ai"@,
        "max_price_per_hr"@,
    ));
}

/// The settings for Vast machines are told by their keys, as they are configured.
pub proof fn law_default_vast_ai(config: &Value, value: Value)
    requires
        call_ensures(config_values, (config,), value),
    ensures
        member_of(json(value), "default.vast_ai.min_cpus"@) == setting_in(
            json(*config),
            "default"@,
            "vast_ai"@,
            "min_cpus"@,
        ),
        member_of(json(value), "default.vast_ai.min_ram_gb"@) == setting_in(
            json(*config),
            "default"@,
            "vast_ai"@,
            "min_ram_gb"@,
        ),
        member_of(json(value), "default.vast_ai.allowed_gpus"@) == setting_in(
            json(*config),
            "default"@,
            "vast_ai"@,
            "allowed_gpus"@,
        ),
        member_of(json(value), "default.vast_ai.max_price_per_hr"@) == setting_in(
            json(*config),
            "default"@,
            "vast_ai"@,
            "max_price_per_hr"@,
        ),
{
    lemma_parts();
    lemma_default_vast_ai_keys();
    lemma_setting_in(config, value, 2, "default"@, "vast_ai"@, "min_cpus"@);
    lemma_setting_in(config, value, 3, "default"@, "vast_ai"@, "min_ram_gb"@);
    lemma_setting_in(config, value, 4, "default"@, "vast_ai"@, "allowed_gpus"@);
    lemma_setting_in(config, value, 5, "default"@, "vast_ai"@, "max_price_per_hr"@);
}

proof fn lemma_default_gcp_keys()
    ensures
        "default.gcp.min_cpus"@ == key_in("default"@, "gcp"@, "min_cpus"@),
        "default.gcp.min_ram_gb"@ == key_in("default"@, "gcp"@, "min_ram_gb"@),
        "default.gcp.allowed_gpus"@ == key_in("default"@, "gcp"@, "allowed_gpus"@),
        "default.gcp.max_price_per_hr"@ == key_in("default"@, "gcp"@, "max_price_per_hr"@),
        "default.gcp.region"@ == key_in("default"@, "gcp"@, "region"@),
        "default.gcp.zone"@ == key_in("default"@, "gcp"@, "zone"@),
        "default.gcp.image_family"@ == key_in("default"@, "gcp"@, "image_family"@),
        "default.gcp.image_project"@ == key_in("default"@, "gcp"@, "image_project"@),
        "default.gcp.boot_disk_gb"@ == key_in("default"@, "gcp"@, "boot_disk_gb"@),
{
    reveal_strlit("allowed_gpus");
    reveal_strlit("boot_disk_gb");
    reveal_strlit("default");
    reveal_strlit("gcp");
    reveal_strlit("image_family");
    reveal_strlit("image_project");
    reveal_strlit("max_price_per_hr");
    reveal_strlit("min_cpus");
    reveal_strlit("min_ram_gb");
    reveal_strlit("region");
    reveal_strlit("zone");
    reveal_strlit("default.gcp.min_cpus");
    assert("default.gcp.min_cpus"@ =~= key_in("default"@, "gcp"@, "min_cpus"@));
    reveal_strlit("default.gcp.min_ram_gb");
    assert("default.gcp.min_ram_gb"@ =~= key_in("default"@, "gcp"@, "min_ram_gb"@));
    reveal_strlit("default.gcp.allowed_gpus");
    assert("default.gcp.allowed_gpus"@ =~= key_in("default"@, "gcp"@, "allowed_gpus"@));
    reveal_strlit("default.gcp.max_price_per_hr");
    assert("default.gcp.max_price_per_hr"@ =~= key_in("default"@, "gcp"@, "max_price_per_hr"@));
    reveal_strlit("default.gcp.region");
    assert("default.gcp.region"@ =~= key_in("default"@, "gcp"@, "region"@));
    reveal_strlit("default.gcp.zone");
    assert("default.gcp.zone"@ =~= key_in("default"@, "gcp"@, "zone"@));
    reveal_strlit("default.gcp.image_family");
    assert("default.gcp.image_family"@ =~= key_in("default"@, "gcp"@, "image_family"@));
    reveal_strlit("default.gcp.image_project");
    assert("default.gcp.image_project"@ =~= key_in("default"@, "gcp"@, "image_project"@));
    reveal_strlit("default.gcp.boot_disk_gb");
    assert("default.gcp.boot_disk_gb"@ =~= key_in("default"@, "gcp"@, "boot_disk_gb"@));
}

/// The settings for Google Cloud machines are told by their keys, as they are configured.
pub proof fn law_default_gcp(config: &Value, value: Value)
    requires
        call_ensures(config_values, (config,), value),
    ensures
        member_of(json(value), "default.gcp.min_cpus"@) == setting_in(
            json(*config),
            "default"@,
            "gcp"@,
            "min_cpus"@,
        ),
        member_of(json(value), "default.gcp.min_ram_gb"@) == setting_in(
            json(*config),
            "default"@,
            "gcp"@,
            "min_ram_gb"@,
        ),
        member_of(json(value), "default.gcp.allowed_gpus"@) == setting_in(
            json(*config),
            "default"@,
            "gcp"@,
            "allowed_gpus"@,
        ),
        member_of(json(value), "default.gcp.max_price_per_hr"@) == setting_in(
            json(*config),
            "default"@,
            "gcp"@,
            "max_price_per_hr"@,
        ),
        member_of(json(value), "default.gcp.region"@) == setting_in(
            json(*config),
            "default"@,
            "gcp"@,
            "region"@,
        ),
        member_of(json(value), "default.gcp.zone"@) == setting_in(
            json(*config),
            "default"@,
            "gcp"@,
            "zone"@,
        ),
        member_of(json(value), "default.gcp.image_family"@) == setting_in(
            json(*config),
            "default"@,
            "gcp"@,
            "image_family"@,
        ),
        member_of(json(value), "default.gcp.image_project"@) == setting_in(
            json(*config),
            "default"@,
            "gcp"@,
            "image_project"@,
        ),
        member_of(json(value), "default.gcp.boot_disk_gb"@) == setting_in(
            json(*config),
            "default"@,
            "gcp"@,
            "boot_disk_gb"@,
        ),
{
    lemma_parts();
    lemma_default_gcp_keys();
    lemma_setting_in(config, value, 6, "default"@, "gcp"@, "min_cpus"@);
    lemma_setting_in(config, value, 7, "default"@, "gcp"@, "min_ram_gb"@);
    lemma_setting_in(config, value, 8, "default"@, "gcp"@, "allowed_gpus"@);
    lemma_setting_in(config, value, 9, "default"@, "gcp"@, "max_price_per_hr"@);
    lemma_setting_in(config, value, 14, "default"@, "gcp"@, "region"@);
    lemma_setting_in(config, value, 15, "default"@, "gcp"@, "zone"@);
    lemma_setting_in(config, value, 16, "default"@, "gcp"@, "image_family"@);
    lemma_setting_in(config, value, 17, "default"@, "gcp"@, "image_project"@);
    lemma_setting_in(config, value, 18, "default"@, "gcp"@, "boot_disk_gb"@);
}

proof fn lemma_default_aws_keys()
    ensures
        "default.aws.min_cpus"@ == key_in("default"@, "aws"@, "min_cpus"@),
        "default.aws.min_ram_gb"@ == key_in("default"@, "aws"@, "min_ram_gb"@),
        "default.aws.allowed_gpus"@ == key_in("default"@, "aws"@, "allowed_gpus"@),
        "default.aws.max_price_per_hr"@ == key_in("default"@, "aws"@, "max_price_per_hr"@),
        "default.aws.region"@ == key_in("default"@, "aws"@, "region"@),
        "default.aws.ami"@ == key_in("default"@, "aws"@, "ami"@),
        "default.aws.key_name"@ == key_in("default"@, "aws"@, "key_name"@),
        "default.aws.ssh_key_path"@ == key_in("default"@, "aws"@, "ssh_key_path"@),
        "default.aws.ssh_user"@ == key_in("default"@, "aws"@, "ssh_user"@),
        "default.aws.security_group_id"@ == key_in("default"@, "aws"@, "security_group_id"@),
        "default.aws.subnet_id"@ == key_in("default"@, "aws"@, "subnet_id"@),
        "default.aws.root_disk_gb"@ == key_in("default"@, "aws"@, "root_disk_gb"@),
{
    reveal_strlit("allowed_gpus");
    reveal_strlit("ami");
    reveal_strlit("aws");
    reveal_strlit("default");
    reveal_strlit("key_name");
    reveal_strlit("max_price_per_hr");
    reveal_strlit("min_cpus");
    reveal_strlit("min_ram_gb");
    reveal_strlit("region");
    reveal_strlit("root_disk_gb");
    reveal_strlit("security_group_id");
    reveal_strlit("ssh_key_path");
    reveal_strlit("ssh_user");
    reveal_strlit("subnet_id");
    reveal_strlit("default.aws.min_cpus");
    assert("default.aws.min_cpus"@ =~= key_in("default"@, "aws"@, "min_cpus"@));
    reveal_strlit("default.aws.min_ram_gb");
    assert("default.aws.min_ram_gb"@ =~= key_in("default"@, "aws"@, "min_ram_gb"@));
    reveal_strlit("default.aws.allowed_gpus");
    assert("default.aws.allowed_gpus"@ =~= key_in("default"@, "aws"@, "allowed_gpus"@));
    reveal_strlit("default.aws.max_price_per_hr");
    assert("default.aws.max_price_per_hr"@ =~= key_in("default"@, "aws"@, "max_price_per_hr"@));
    reveal_strlit("default.aws.region");
    assert("default.aws.region"@ =~= key_in("default"@, "aws"@, "region"@));
    reveal_strlit("default.aws.ami");
    assert("default.aws.ami"@ =~= key_in("default"@, "aws"@, "ami"@));
    reveal_strlit("default.aws.key_name");
    assert("default.aws.key_name"@ =~= key_in("default"@, "aws"@, "key_name"@));
    reveal_strlit("default.aws.ssh_key_path");
    assert("default.aws.ssh_key_path"@ =~= key_in("default"@, "aws"@, "ssh_key_path"@));
    reveal_strlit("default.aws.ssh_user");
    assert("default.aws.ssh_user"@ =~= key_in("default"@, "aws"@, "ssh_user"@));
    reveal_strlit("default.aws.security_group_id");
    assert("default.aws.security_group_id"@ =~= key_in("default"@, "aws"@, "security_group_id"@));
    reveal_strlit("default.aws.subnet_id");
    assert("default.aws.subnet_id"@ =~= key_in("default"@, "aws"@, "subnet_id"@));
    reveal_strlit("default.aws.root_disk_gb");
    assert("default.aws.root_disk_gb"@ =~= key_in("default"@, "aws"@, "root_disk_gb"@));
}

/// The settings for AWS machines are told by their keys, as they are configured.
pub proof fn law_default_aws(config: &Value, value: Value)
    requires
        call_ensures(config_values, (config,), value),
    ensures
        member_of(json(value), "default.aws.min_cpus"@) == setting_in(
            json(*config),
            "default"@,
            "aws"@,
            "min_cpus"@,
        ),
        member_of(json(value), "default.aws.min_ram_gb"@) == setting_in(
            json(*config),
            "default"@,
            "aws"@,
            "min_ram_gb"@,
        ),
        member_of(json(value), "default.aws.allowed_gpus"@) == setting_in(
            json(*config),
            "default"@,
            "aws"@,
            "allowed_gpus"@,
        ),
        member_of(json(value), "default.aws.max_price_per_hr"@) == setting_in(
            json(*config),
            "default"@,
            "aws"@,
            "max_price_per_hr"@,
        ),
        member_of(json(value), "default.aws.region"@) == setting_in(
            json(*config),
            "default"@,
            "aws"@,
            "region"@,
        ),
        member_of(json(value), "default.aws.ami"@) == setting_in(
            json(*config),
            "default"@,
            "aws"@,
            "ami"@,
        ),
        member_of(json(value), "default.aws.key_name"@) == setting_in(
            json(*config),
            "default"@,
            "aws"@,
            "key_name"@,
        ),
        member_of(json(value), "default.aws.ssh_key_path"@) == setting_in(
            json(*config),
            "default"@,
            "aws"@,
            "ssh_key_path"@,
        ),
        member_of(json(value), "default.aws.ssh_user"@) == setting_in(
            json(*config),
            "default"@,
            "aws"@,
            "ssh_user"@,
        ),
        member_of(json(value), "default.aws.security_group_id"@) == setting_in(
            json(*config),
            "default"@,
            "aws"@,
            "security_group_id"@,
        ),
        member_of(json(value), "default.aws.subnet_id"@) == setting_in(
            json(*config),
            "default"@,
            "aws"@,
            "subnet_id"@,
        ),
        member_of(json(value), "default.aws.root_disk_gb"@) == setting_in(
            json(*config),
            "default"@,
            "aws"@,
            "root_disk_gb"@,
        ),
{
    lemma_parts();
    lemma_default_aws_keys();
    lemma_setting_in(config, value, 10, "default"@, "aws"@, "min_cpus"@);
    lemma_setting_in(config, value, 11, "default"@, "aws"@, "min_ram_gb"@);
    lemma_setting_in(config, value, 12, "default"@, "aws"@, "allowed_gpus"@);
    lemma_setting_in(config, value, 13, "default"@, "aws"@, "max_price_per_hr"@);
    lemma_setting_in(config, value, 19, "default"@, "aws"@, "region"@);
    lemma_setting_in(config, value, 20, "default"@, "aws"@, "ami"@);
    lemma_setting_in(config, value, 21, "default"@, "aws"@, "key_name"@);
    lemma_setting_in(config, value, 22, "default"@, "aws"@, "ssh_key_path"@);
    lemma_setting_in(config, value, 23, "default"@, "aws"@, "ssh_user"@);
    lemma_setting_in(config, value, 24, "default"@, "aws"@, "security_group_id"@);
    lemma_setting_in(config, value, 25, "default"@, "aws"@, "subnet_id"@);
    lemma_setting_in(config, value, 26, "default"@, "aws"@, "root_disk_gb"@);
}

proof fn lemma_auth_vast_ai_keys()
    ensures
        "auth.vast_ai.api_key"@ == key_in("auth"@, "vast_ai"@, "api_key"@),
{
    reveal_strlit("api_key");
    reveal_strlit("auth");
    reveal_strlit("vast_ai");
    reveal_strlit("auth.vast_ai.api_key");
    assert("auth.vast_ai.api_key"@ =~= key_in("auth"@, "vast_ai"@, "api_key"@));
}

/// The credentials for Vast are told by their keys, but not what they are, only
/// whether they are set.
pub proof fn law_auth_vast_ai(config: &Value, value: Value)
    requires
        call_ensures(config_values, (config,), value),
    ensures
        hides(
            member_of(json(value), "auth.vast_ai.api_key"@),
            setting_in(json(*config), "auth"@, "vast_ai"@, "api_key"@),
        ),
{
    lemma_parts();
    lemma_auth_vast_ai_keys();
    lemma_setting_in(config, value, 27, "auth"@, "vast_ai"@, "api_key"@);
}

proof fn lemma_auth_gcp_keys()
    ensures
        "auth.gcp.project"@ == key_in("auth"@, "gcp"@, "project"@),
        "auth.gcp.service_account_json"@ == key_in("auth"@, "gcp"@, "service_account_json"@),
{
    reveal_strlit("auth");
    reveal_strlit("gcp");
    reveal_strlit("project");
    reveal_strlit("service_account_json");
    reveal_strlit("auth.gcp.project");
    assert("auth.gcp.project"@ =~= key_in("auth"@, "gcp"@, "project"@));
    reveal_strlit("auth.gcp.service_account_json");
    assert("auth.gcp.service_account_json"@ =~= key_in("auth"@, "gcp"@, "service_account_json"@));
}

/// The credentials for Google Cloud are told by their keys, but not what they are, only
/// whether they are set.
pub proof fn law_auth_gcp(config: &Value, value: Value)
    requires
        call_ensures(config_values, (config,), value),
    ensures
        hides(
            member_of(json(value), "auth.gcp.project"@),
            setting_in(json(*config), "auth"@, "gcp"@, "project"@),
        ),
        hides(
            member_of(json(value), "auth.gcp.service_account_json"@),
            setting_in(json(*config), "auth"@, "gcp"@, "service_account_json"@),
        ),
{
    lemma_parts();
    lemma_auth_gcp_keys();
    lemma_setting_in(config, value, 28, "auth"@, "gcp"@, "project"@);
    lemma_setting_in(config, value, 29, "auth"@, "gcp"@, "service_account_json"@);
}

proof fn lemma_auth_aws_keys()
    ensures
        "auth.aws.access_key_id"@ == key_in("auth"@, "aws"@, "access_key_id"@),
        "auth.aws.secret_access_key"@ == key_in("auth"@, "aws"@, "secret_access_key"@),
{
    reveal_strlit("access_key_id");
    reveal_strlit("auth");
    reveal_strlit("aws");
    reveal_strlit("secret_access_key");
    reveal_strlit("auth.aws.access_key_id");
    assert("auth.aws.access_key_id"@ =~= key_in("auth"@, "aws"@, "access_key_id"@));
    reveal_strlit("auth.aws.secret_access_key");
    assert("auth.aws.secret_access_key"@ =~= key_in("auth"@, "aws"@, "secret_access_key"@));
}

/// The credentials for AWS are told by their keys, but not what they are, only
/// whether they are set.
pub proof fn law_auth_aws(config: &Value, value: Value)
    requires
        call_ensures(config_values, (config,), value),
    ensures
        hides(
            member_of(json(value), "auth.aws.access_key_id"@),
            setting_in(json(*config), "auth"@, "aws"@, "access_key_id"@),
        ),
        hides(
            member_of(json(value), "auth.aws.secret_access_key"@),
            setting_in(json(*config), "auth"@, "aws"@, "secret_access_key"@),
        ),
{
    lemma_parts();
    lemma_auth_aws_keys();
    lemma_setting_in(config, value, 30, "auth"@, "aws"@, "access_key_id"@);
    lemma_setting_in(config, value, 31, "auth"@, "aws"@, "secret_access_key"@);
}

/// Exactly the keys that are supported are told, in their order, each once.
pub proof fn law_keys(config: &Value, value: Value, keys: Vec<&'static str>)
    requires
        call_ensures(config_values, (config,), value),
        call_ensures(supported_config_keys, (), keys),
    ensures
        json(value) is Object,
        keys@.len() == 32,
        members_of(json(value)).len() == keys@.len(),
        forall|i: int|
            0 <= i < keys@.len() ==> (#[trigger] members_of(json(value))[i]).0 == keys@[i]@,
        forall|i: int, j: int|
            0 <= i < j < keys@.len() ==> #[trigger] keys@[i]@ != #[trigger] keys@[j]@,
{
    lemma_config_keys_distinct();
    let listed = keys@.map_values(|key: &'static str| key@);
    assert(listed.len() == keys@.len());
    assert forall|i: int| 0 <= i < keys@.len() implies (#[trigger] members_of(json(value))[i]).0
        == keys@[i]@ by {
        assert(listed[i] == keys@[i]@);
    }
    assert forall|i: int, j: int| 0 <= i < j < keys@.len() implies #[trigger] keys@[i]@
        != #[trigger] keys@[j]@ by {
        assert(listed[i] == keys@[i]@ && listed[j] == keys@[j]@);
        assert(config_keys()[i] != config_keys()[j]);
    }
}

} // verus!
