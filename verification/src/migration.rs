//! Configuration versions and the migrations between them.
//!
//! A configuration is a JSON object that carries its version under [`VERSION_KEY`]. One without
//! a version counts as version 0.

use crate::json;
use crate::json::{low_u32, Json, JsonNumber, JsonView};
use crate::strmap::StrMap;
use vstd::prelude::*;

verus! {

/// The version that configurations are migrated to.
pub const CURRENT_CONFIG_VERSION: u32 = 2;

/// The key under which a configuration carries its version.
pub const VERSION_KEY: &'static str = "config_version";

/// The version that a configuration carries.
///
/// It is 0 where the value is no object, where the version is missing, and where the version is
/// no non-negative integer. Of a larger integer the low 32 bits count.
pub open spec fn stored_version(config: JsonView) -> u32 {
    match config.get(VERSION_KEY@) {
        Some(version) => match version.unsigned() {
            Some(n) => json::low_bits(n),
            None => 0,
        },
        None => 0,
    }
}

/// A number as the value of a member.
pub open spec fn number(n: u64) -> JsonView {
    JsonView::Number(JsonNumber::PosInt(n))
}

/// The configuration with a version put on it. A value that is no object stays as it is.
pub open spec fn stamped(config: JsonView, version: u64) -> JsonView {
    match config {
        JsonView::Object(members) => JsonView::Object(members.insert(VERSION_KEY@, number(version))),
        _ => config,
    }
}

/// The entry that names the model and the provider of the compacting agent.
pub open spec fn compact_entry(model: Option<Seq<char>>, provider: Option<Seq<char>>) -> Map<
    Seq<char>,
    JsonView,
> {
    let with_model = match model {
        Some(name) => Map::empty().insert("model"@, JsonView::String(name)),
        None => Map::empty(),
    };
    match provider {
        Some(name) => with_model.insert("provider"@, JsonView::String(name)),
        None => with_model,
    }
}

/// The members without the flat model fields of version 1.
pub open spec fn without_flat_models(members: Map<Seq<char>, JsonView>) -> Map<
    Seq<char>,
    JsonView,
> {
    members.remove("model_compact"@).remove("model_compact_provider"@).remove(
        "model_critique"@,
    ).remove("model_critique_provider"@)
}

/// The agents of a configuration: its member of that name, or an empty object.
pub open spec fn agents_of(members: Map<Seq<char>, JsonView>) -> JsonView {
    if members.contains_key("agents"@) {
        members["agents"@]
    } else {
        JsonView::Object(Map::empty())
    }
}

/// The members with an entry for the compacting agent. Agents that are no object stay as they
/// are, and the entry is lost.
pub open spec fn with_compact(
    members: Map<Seq<char>, JsonView>,
    entry: Map<Seq<char>, JsonView>,
) -> Map<Seq<char>, JsonView> {
    match agents_of(members) {
        JsonView::Object(agents) => members.insert(
            "agents"@,
            JsonView::Object(agents.insert("compact"@, JsonView::Object(entry))),
        ),
        _ => members,
    }
}

/// A configuration of version 1 brought to version 2.
pub open spec fn upgraded_from_v1(config: JsonView) -> JsonView {
    match config {
        JsonView::Object(members) => {
            let model = config.get_text("model_compact"@);
            let provider = config.get_text("model_compact_provider"@);
            let kept = without_flat_models(members);
            let moved = if model is Some || provider is Some {
                with_compact(kept, compact_entry(model, provider))
            } else {
                kept
            };
            JsonView::Object(moved.insert(VERSION_KEY@, number(2)))
        },
        _ => config,
    }
}

/// A configuration brought to the current version, and whether a migration was applied.
pub open spec fn migrated(config: JsonView) -> (JsonView, bool) {
    if stored_version(config) >= CURRENT_CONFIG_VERSION {
        (stamped(config, CURRENT_CONFIG_VERSION as u64), false)
    } else if stored_version(config) == 1 {
        (upgraded_from_v1(config), true)
    } else {
        (upgraded_from_v1(stamped(config, 1)), true)
    }
}

/// Put a version on a configuration.
fn stamp(config: Json, version: u64) -> (r: Json)
    ensures
        r@ == stamped(config@, version),
{
    match config {
        Json::Object(members) => {
            let mut members = members;
            members.set_member(VERSION_KEY, Json::unsigned(version));
            Json::Object(members)
        },
        other => other,
    }
}

/// Migrate from version 0 (unversioned) to version 1, which only puts the version on.
pub fn migrate_v0_to_v1(config: Json) -> (r: Json)
    ensures
        r@ == stamped(config@, 1),
{
    stamp(config, 1)
}

/// The text of a member that was taken out, where it is a string.
fn taken_text(member: Option<Json>) -> (r: Option<String>)
    ensures
        match (member, r) {
            (Some(value), Some(text)) => value@.text() == Some(text@),
            (Some(value), None) => value@.text() is None,
            (None, _) => r is None,
        },
{
    match member {
        Some(Json::String(text)) => Some(text),
        _ => None,
    }
}

/// Migrate from version 1 to version 2.
///
/// The flat fields of the compacting agent move into `agents.compact`; those of the critique
/// agent are dropped.
pub fn migrate_v1_to_v2(config: Json) -> (r: Json)
    ensures
        r@ == upgraded_from_v1(config@),
{
    match config {
        Json::Object(members) => {
            let ghost before = json::object_view(members);
            let mut members = members;
            let model = taken_text(members.take_member("model_compact"));
            let provider = taken_text(members.take_member("model_compact_provider"));
            members.take_member("model_critique");
            members.take_member("model_critique_provider");
            proof {
                reveal_strlit("model_compact");
                reveal_strlit("model_compact_provider");
                assert("model_compact"@.len() != "model_compact_provider"@.len());
                assert(json::object_view(members) == without_flat_models(before));
            }

            if model.is_some() || provider.is_some() {
                let mut entry: StrMap<Json> = StrMap::new();
                if let Some(name) = &model {
                    entry.set_member("model", Json::text(name.as_str()));
                }
                if let Some(name) = &provider {
                    entry.set_member("provider", Json::text(name.as_str()));
                }
                let agents = match members.take_member("agents") {
                    Some(value) => value,
                    None => Json::empty_object(),
                };
                let agents = match agents {
                    Json::Object(agents) => {
                        let mut agents = agents;
                        agents.set_member("compact", Json::Object(entry));
                        Json::Object(agents)
                    },
                    other => other,
                };
                members.set_member("agents", agents);
                proof {
                    let kept = without_flat_models(before);
                    assert(json::object_view(members) =~= with_compact(
                        kept,
                        json::object_view(entry),
                    ));
                }
            }
            members.set_member(VERSION_KEY, Json::unsigned(2));
            Json::Object(members)
        },
        other => other,
    }
}

/// Bring a configuration from its stored version to the current one.
///
/// Returns the configuration and whether a migration was applied.
pub fn migrate_config(config: Json) -> (r: (Json, bool))
    ensures
        (r.0@, r.1) == migrated(config@),
{
    let stored = config_version(&config);
    if stored >= CURRENT_CONFIG_VERSION {
        return (stamp(config, CURRENT_CONFIG_VERSION as u64), false);
    }
    let mut version: u32 = stored;
    let mut changed: bool = false;
    let mut value: Json = config;
    while version < CURRENT_CONFIG_VERSION
        invariant
            stored < CURRENT_CONFIG_VERSION,
            stored == stored_version(config@),
            stored <= version <= CURRENT_CONFIG_VERSION,
            version == stored ==> value == config && !changed,
            version > stored ==> changed,
            version == 1 && stored == 0 ==> value@ == stamped(config@, 1),
            version == 2 ==> value@ == migrated(config@).0,
        decreases CURRENT_CONFIG_VERSION - version,
    {
        if version == 0 {
            value = migrate_v0_to_v1(value);
            version = 1;
        } else {
            value = migrate_v1_to_v2(value);
            version = 2;
        }
        changed = true;
    }
    (value, changed)
}

/// Whether a configuration is older than the current version.
pub fn needs_migration(config: &Json) -> (r: bool)
    ensures
        r == (stored_version(config@) < CURRENT_CONFIG_VERSION),
{
    config_version(config) < CURRENT_CONFIG_VERSION
}

/// The version of a configuration.
pub fn config_version(config: &Json) -> (r: u32)
    ensures
        r == stored_version(config@),
{
    match config.get(VERSION_KEY) {
        Some(version) => match version.as_u64() {
            Some(n) => low_u32(n),
            None => 0,
        },
        None => 0,
    }
}

/// The keys that a migration may change are different from each other.
proof fn lemma_keys_differ()
    ensures
        VERSION_KEY@ != "model_compact"@,
        VERSION_KEY@ != "model_compact_provider"@,
        VERSION_KEY@ != "model_critique"@,
        VERSION_KEY@ != "model_critique_provider"@,
        VERSION_KEY@ != "agents"@,
        "agents"@ != "model_compact"@,
        "agents"@ != "model_compact_provider"@,
        "agents"@ != "model_critique"@,
        "agents"@ != "model_critique_provider"@,
        "model"@ != "provider"@,
{
    reveal_strlit("config_version");
    reveal_strlit("model_compact");
    reveal_strlit("model_compact_provider");
    reveal_strlit("model_critique");
    reveal_strlit("model_critique_provider");
    reveal_strlit("agents");
    reveal_strlit("model");
    reveal_strlit("provider");
    assert("config_version"@[0] != "model_critique"@[0]);
    assert("agents"@.len() == 6);
    assert("model_compact"@.len() == 13);
    assert("model_compact_provider"@.len() == 22);
    assert("model_critique"@.len() == 14);
    assert("model_critique_provider"@.len() == 23);
    assert("model"@.len() == 5);
    assert("provider"@.len() == 8);
}

/// Whether a key is one of the flat model fields that version 2 no longer has.
pub open spec fn is_flat_model(key: Seq<char>) -> bool {
    ||| key == "model_compact"@
    ||| key == "model_compact_provider"@
    ||| key == "model_critique"@
    ||| key == "model_critique_provider"@
}

/// A migrated configuration carries the current version.
pub proof fn law_migrated_is_current(config: JsonView)
    requires
        config is Object,
    ensures
        stored_version(migrated(config).0) == CURRENT_CONFIG_VERSION,
{
    lemma_keys_differ();
    assert(json::low_bits(2) == 2);
}

/// Migrating a migrated configuration changes nothing and reports no migration.
pub proof fn law_migration_is_idempotent(config: JsonView)
    requires
        config is Object,
    ensures
        migrated(migrated(config).0) == (migrated(config).0, false),
{
    law_migrated_is_current(config);
    let members = migrated(config).0->Object_0;
    assert(members[VERSION_KEY@] == number(2));
    assert(members.insert(VERSION_KEY@, number(2)) =~= members);
}

/// A migration is reported exactly for a configuration that is older than the current version.
pub proof fn law_migration_is_reported_when_needed(config: JsonView)
    ensures
        migrated(config).1 == (stored_version(config) < CURRENT_CONFIG_VERSION),
{
}

/// A migration keeps every member but the version, the flat model fields and the agents.
pub proof fn law_migration_keeps_other_members(config: JsonView, key: Seq<char>)
    requires
        key != VERSION_KEY@,
        key != "agents"@,
        !is_flat_model(key),
    ensures
        migrated(config).0.get(key) == config.get(key),
{
    lemma_keys_differ();
}

/// A configuration that is current keeps every member but the version.
pub proof fn law_current_config_keeps_members(config: JsonView, key: Seq<char>)
    requires
        stored_version(config) >= CURRENT_CONFIG_VERSION,
        key != VERSION_KEY@,
    ensures
        migrated(config).0.get(key) == config.get(key),
{
}

/// A migration removes the flat model fields.
pub proof fn law_migration_removes_flat_models(config: JsonView, key: Seq<char>)
    requires
        stored_version(config) < CURRENT_CONFIG_VERSION,
        is_flat_model(key),
    ensures
        migrated(config).0.get(key) is None,
{
    lemma_keys_differ();
}

/// A migration moves the model and the provider of the compacting agent into its entry, as far
/// as the agents of the configuration are an object.
pub proof fn law_migration_moves_compact_models(config: JsonView)
    requires
        config is Object,
        stored_version(config) < CURRENT_CONFIG_VERSION,
        agents_of(config->Object_0) is Object,
        config.get_text("model_compact"@) is Some || config.get_text(
            "model_compact_provider"@,
        ) is Some,
    ensures
        match migrated(config).0.get("agents"@) {
            Some(agents) => match agents.get("compact"@) {
                Some(entry) => {
                    &&& entry.get_text("model"@) == config.get_text("model_compact"@)
                    &&& entry.get_text("provider"@) == config.get_text("model_compact_provider"@)
                },
                None => false,
            },
            None => false,
        },
{
    lemma_keys_differ();
}

/// A migration keeps every agent but the compacting one.
pub proof fn law_migration_keeps_other_agents(config: JsonView, agent: Seq<char>)
    requires
        config is Object,
        agent != "compact"@,
    ensures
        match (migrated(config).0.get("agents"@), config.get("agents"@)) {
            (Some(after), Some(before)) => after.get(agent) == before.get(agent),
            (Some(after), None) => after.get(agent) is None,
            (None, before) => before is None,
        },
{
    lemma_keys_differ();
}

/// Without text for the compacting agent, a migration keeps the agents as they are.
pub proof fn law_migration_without_compact_keeps_agents(config: JsonView)
    requires
        config.get_text("model_compact"@) is None,
        config.get_text("model_compact_provider"@) is None,
    ensures
        migrated(config).0.get("agents"@) == config.get("agents"@),
{
    lemma_keys_differ();
}

/// The version of a configuration is the number under its key, of which the low 32 bits count,
/// and zero where there is no such number.
pub proof fn law_version_is_read(config: JsonView)
    ensures
        match config.get("config_version"@) {
            Some(JsonView::Number(JsonNumber::PosInt(n))) => stored_version(config) as int == n as int
                % 0x1_0000_0000,
            _ => stored_version(config) == 0,
        },
{
}

/// A configuration that gets a version carries it under its key, and every other member stays. A
/// value that is no object stays as it is.
pub proof fn law_version_is_put_on(config: JsonView, version: u64, key: Seq<char>)
    ensures
        config is Object ==> stamped(config, version).get("config_version"@) == Some(
            JsonView::Number(JsonNumber::PosInt(version)),
        ),
        key != "config_version"@ ==> stamped(config, version).get(key) == config.get(key),
        !(config is Object) ==> stamped(config, version) == config,
{
}

/// Every migrated object says that it is of version 2; what is no object stays as it is. A
/// migration is reported for the versions below.
pub proof fn law_migration_ends_at_version_two(config: JsonView)
    ensures
        config is Object ==> migrated(config).0.get("config_version"@) == Some(
            JsonView::Number(JsonNumber::PosInt(2)),
        ),
        !(config is Object) ==> migrated(config).0 == config,
        migrated(config).1 <==> stored_version(config) < 2,
{
}

/// Version 2 has no flat model field: they are gone, and all members but these, the agents and
/// the version stay.
pub proof fn law_upgrade_drops_flat_fields_only(config: JsonView, key: Seq<char>)
    ensures
        upgraded_from_v1(config).get("model_compact"@) is None,
        upgraded_from_v1(config).get("model_compact_provider"@) is None,
        upgraded_from_v1(config).get("model_critique"@) is None,
        upgraded_from_v1(config).get("model_critique_provider"@) is None,
        config is Object ==> upgraded_from_v1(config).get("config_version"@) == Some(
            JsonView::Number(JsonNumber::PosInt(2)),
        ),
        upgraded_from_v1(config).get(key) == config.get(key) || key == "config_version"@ || key
            == "agents"@ || key == "model_compact"@ || key == "model_compact_provider"@ || key
            == "model_critique"@ || key == "model_critique_provider"@,
{
    lemma_keys_differ();
}

/// An upgrade writes the entry of the compacting agent anew from the two flat texts, and only
/// where there is one of them and the agents are an object. All other agents stay.
pub proof fn law_upgrade_writes_the_compact_entry(
    config: JsonView,
    agent: Seq<char>,
    key: Seq<char>,
)
    requires
        config is Object,
    ensures
        ({
            let model = config.get_text("model_compact"@);
            let provider = config.get_text("model_compact_provider"@);
            let before = config.get("agents"@);
            let after = upgraded_from_v1(config).get("agents"@);
            let open = before is None || before->Some_0 is Object;
            &&& (model is Some || provider is Some) && open ==> {
                &&& after matches Some(JsonView::Object(agents)) && agents.contains_key(
                    "compact"@,
                ) && {
                    let entry = agents["compact"@];
                    &&& entry is Object
                    &&& entry.get_text("model"@) == model
                    &&& entry.get_text("provider"@) == provider
                    &&& model is None ==> entry.get("model"@) is None
                    &&& provider is None ==> entry.get("provider"@) is None
                    &&& key != "model"@ && key != "provider"@ ==> entry.get(key) is None
                }
                &&& agent != "compact"@ ==> after->Some_0.get(agent) == match before {
                    Some(agents) => agents.get(agent),
                    None => None,
                }
            }
            &&& (model is None && provider is None) || !open ==> after == before
        }),
{
    lemma_keys_differ();
}

/// A configuration of version 1 is upgraded, and one without a version, or of version 0, just as
/// if it were of version 1.
pub proof fn law_unversioned_config_is_upgraded_alike(config: JsonView, key: Seq<char>)
    requires
        stored_version(config) < 2,
    ensures
        migrated(config).0.get(key) == upgraded_from_v1(config).get(key),
{
    lemma_keys_differ();
}

} // verus!
