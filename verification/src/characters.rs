//! Characters: their records, the templates they come from, and the checks
//! before they change.

use vstd::prelude::*;
use crate::error;
use crate::error::KokoroError;
use crate::json::{json_opt_text, json_text, JsonObject, JsonValue, JsonView};
use crate::json;
use crate::text;
use crate::text::{concat2, concat3, is_blank, same_text};

verus! {

broadcast use vstd::string::group_string_axioms;

/// A character as it is stored.
#[derive(Debug)]
pub struct CharacterRecord {
    pub id: String,
    pub name: String,
    pub persona: String,
    pub user_nickname: String,
    pub source_format: String,
    pub created_at: i64,
    pub updated_at: i64,
    pub template_id: Option<String>,
    pub template_version: Option<String>,
    pub template_snapshot_json: Option<String>,
    pub description: String,
    pub avatar_path: Option<String>,
    pub greeting: String,
    pub greeting_consumed_at: Option<i64>,
    pub greeting_message_id: Option<i64>,
    pub example_dialogue: String,
    pub runtime_profile_json: String,
    pub user_modified_at: Option<i64>,
}

/// A character to be stored.
#[derive(Debug)]
pub struct CreateCharacterRequest {
    pub id: String,
    pub name: String,
    pub persona: String,
    pub user_nickname: String,
    pub source_format: String,
    pub created_at: i64,
    pub updated_at: i64,
    pub template_id: Option<String>,
    pub template_version: Option<String>,
    pub template_snapshot_json: Option<String>,
    pub description: String,
    pub avatar_path: Option<String>,
    pub greeting: String,
    pub example_dialogue: String,
    pub runtime_profile_json: String,
    pub user_modified_at: Option<i64>,
}

/// A request to store a copy of a character.
#[derive(Debug)]
pub struct DuplicateCharacterRequest {
    pub source_id: String,
    pub new_id: String,
    pub new_name: Option<String>,
    pub created_at: i64,
    pub updated_at: i64,
}

/// The name of a copy: the one that is asked for, else one made from the name
/// of what is copied.
pub open spec fn copy_name(requested: Option<Seq<char>>, name: Seq<char>) -> Seq<char> {
    match requested {
        Some(n) => n,
        None => name + " Copy"@,
    }
}

/// The copy of a character: everything but its id, its name and its times is
/// as in the source.
pub fn duplicate_create_request(source: CharacterRecord, request: DuplicateCharacterRequest) -> (r:
    CreateCharacterRequest)
    ensures
        r.id == request.new_id,
        r.name@ == copy_name(text::opt_view(request.new_name), source.name@),
        r.persona == source.persona,
        r.user_nickname == source.user_nickname,
        r.source_format == source.source_format,
        r.created_at == request.created_at,
        r.updated_at == request.updated_at,
        r.template_id == source.template_id,
        r.template_version == source.template_version,
        r.template_snapshot_json == source.template_snapshot_json,
        r.description == source.description,
        r.avatar_path == source.avatar_path,
        r.greeting == source.greeting,
        r.example_dialogue == source.example_dialogue,
        r.runtime_profile_json == source.runtime_profile_json,
        r.user_modified_at == source.user_modified_at,
{
    let name = match request.new_name {
        Some(name) => name,
        None => concat2(source.name.as_str(), " Copy"),
    };
    CreateCharacterRequest {
        id: request.new_id,
        name,
        persona: source.persona,
        user_nickname: source.user_nickname,
        source_format: source.source_format,
        created_at: request.created_at,
        updated_at: request.updated_at,
        template_id: source.template_id,
        template_version: source.template_version,
        template_snapshot_json: source.template_snapshot_json,
        description: source.description,
        avatar_path: source.avatar_path,
        greeting: source.greeting,
        example_dialogue: source.example_dialogue,
        runtime_profile_json: source.runtime_profile_json,
        user_modified_at: source.user_modified_at,
    }
}

/// A request to change a character. What is optional and not given stays as it
/// is; an avatar that is given may also be taken away.
#[derive(Debug)]
pub struct UpdateCharacterRequest {
    pub id: String,
    pub name: String,
    pub persona: String,
    pub user_nickname: String,
    pub source_format: String,
    pub updated_at: i64,
    pub description: Option<String>,
    pub avatar_path: Option<Option<String>>,
    pub greeting: Option<String>,
    pub example_dialogue: Option<String>,
    pub runtime_profile_json: Option<String>,
    pub user_modified_at: Option<i64>,
}

/// What a given value makes of a stored one.
pub open spec fn given_or<T>(given: Option<T>, stored: T) -> T {
    match given {
        Some(value) => value,
        None => stored,
    }
}

/// A character after a change.
pub fn update_character(record: CharacterRecord, request: UpdateCharacterRequest) -> (r:
    CharacterRecord)
    ensures
        r.id == record.id,
        r.name == request.name,
        r.persona == request.persona,
        r.user_nickname == request.user_nickname,
        r.source_format == request.source_format,
        r.created_at == record.created_at,
        r.updated_at == request.updated_at,
        r.template_id == record.template_id,
        r.template_version == record.template_version,
        r.template_snapshot_json == record.template_snapshot_json,
        r.description == given_or(request.description, record.description),
        r.avatar_path == given_or(request.avatar_path, record.avatar_path),
        r.greeting == given_or(request.greeting, record.greeting),
        r.greeting_consumed_at == record.greeting_consumed_at,
        r.greeting_message_id == record.greeting_message_id,
        r.example_dialogue == given_or(request.example_dialogue, record.example_dialogue),
        r.runtime_profile_json == given_or(
            request.runtime_profile_json,
            record.runtime_profile_json,
        ),
        r.user_modified_at == Some(given_or(request.user_modified_at, request.updated_at)),
{
    CharacterRecord {
        id: record.id,
        name: request.name,
        persona: request.persona,
        user_nickname: request.user_nickname,
        source_format: request.source_format,
        created_at: record.created_at,
        updated_at: request.updated_at,
        template_id: record.template_id,
        template_version: record.template_version,
        template_snapshot_json: record.template_snapshot_json,
        description: match request.description {
            Some(value) => value,
            None => record.description,
        },
        avatar_path: match request.avatar_path {
            Some(value) => value,
            None => record.avatar_path,
        },
        greeting: match request.greeting {
            Some(value) => value,
            None => record.greeting,
        },
        greeting_consumed_at: record.greeting_consumed_at,
        greeting_message_id: record.greeting_message_id,
        example_dialogue: match request.example_dialogue {
            Some(value) => value,
            None => record.example_dialogue,
        },
        runtime_profile_json: match request.runtime_profile_json {
            Some(value) => value,
            None => record.runtime_profile_json,
        },
        user_modified_at: match request.user_modified_at {
            Some(at) => Some(at),
            None => Some(request.updated_at),
        },
    }
}

/// What a template says that a character starts with.
#[derive(Debug)]
pub struct TemplateDefaults {
    pub name: String,
    pub description: String,
    pub avatar_path: Option<String>,
    pub persona: String,
    pub greeting: String,
    pub example_dialogue: String,
    pub runtime_profile_json: String,
}

/// A character with what its template says. It no longer counts as changed by
/// the user; what the template says nothing of stays.
pub fn restore_character_defaults(
    record: CharacterRecord,
    defaults: TemplateDefaults,
    updated_at: i64,
) -> (r: CharacterRecord)
    ensures
        r.id == record.id,
        r.name == defaults.name,
        r.persona == defaults.persona,
        r.user_nickname == record.user_nickname,
        r.source_format == record.source_format,
        r.created_at == record.created_at,
        r.updated_at == updated_at,
        r.template_id == record.template_id,
        r.template_version == record.template_version,
        r.template_snapshot_json == record.template_snapshot_json,
        r.description == defaults.description,
        r.avatar_path == defaults.avatar_path,
        r.greeting == defaults.greeting,
        r.greeting_consumed_at == record.greeting_consumed_at,
        r.greeting_message_id == record.greeting_message_id,
        r.example_dialogue == defaults.example_dialogue,
        r.runtime_profile_json == defaults.runtime_profile_json,
        r.user_modified_at is None,
{
    CharacterRecord {
        id: record.id,
        name: defaults.name,
        persona: defaults.persona,
        user_nickname: record.user_nickname,
        source_format: record.source_format,
        created_at: record.created_at,
        updated_at,
        template_id: record.template_id,
        template_version: record.template_version,
        template_snapshot_json: record.template_snapshot_json,
        description: defaults.description,
        avatar_path: defaults.avatar_path,
        greeting: defaults.greeting,
        greeting_consumed_at: record.greeting_consumed_at,
        greeting_message_id: record.greeting_message_id,
        example_dialogue: defaults.example_dialogue,
        runtime_profile_json: defaults.runtime_profile_json,
        user_modified_at: None,
    }
}

/// The words for a character that is not stored.
pub open spec fn unknown_character(id: Seq<char>) -> Seq<char> {
    "character '"@ + id + "' not found"@
}

fn unknown_character_error(id: &str) -> (e: KokoroError)
    ensures
        error::is_not_found(e, unknown_character(id@)),
{
    KokoroError::NotFound(concat3("character '", id, "' not found"))
}

/// A change must have met a character.
pub fn require_affected_character(rows_affected: u64, id: &str) -> (r: Result<(), KokoroError>)
    ensures
        if rows_affected == 0 {
            r matches Err(e) && error::is_not_found(e, unknown_character(id@))
        } else {
            r is Ok
        },
{
    if rows_affected == 0 {
        Err(unknown_character_error(id))
    } else {
        Ok(())
    }
}

/// The character that was looked for.
pub fn require_character(found: Option<CharacterRecord>, id: &str) -> (r: Result<
    CharacterRecord,
    KokoroError,
>)
    ensures
        match found {
            Some(character) => r matches Ok(c) && c == character,
            None => r matches Err(e) && error::is_not_found(e, unknown_character(id@)),
        },
{
    match found {
        Some(character) => Ok(character),
        None => Err(unknown_character_error(id)),
    }
}

/// A character's id must not be blank.
pub fn check_character_id(id: &str) -> (r: Result<(), KokoroError>)
    ensures
        if text::blank(id@) {
            r matches Err(e) && error::is_validation(e, "character id cannot be empty"@)
        } else {
            r is Ok
        },
{
    if is_blank(id) {
        Err(KokoroError::Validation("character id cannot be empty".to_owned()))
    } else {
        Ok(())
    }
}

/// A template that characters are made from.
#[derive(Debug)]
pub struct CharacterTemplateManifest {
    pub id: String,
    pub version: String,
    /// Everything that the template says.
    pub content: JsonValue,
}

/// A template in the catalog.
#[derive(Debug)]
pub struct CatalogEntry {
    pub manifest: CharacterTemplateManifest,
}

/// The catalog as it was read.
pub fn discover_catalog(read: Result<Vec<CatalogEntry>, String>) -> (r: Result<
    Vec<CatalogEntry>,
    KokoroError,
>)
    ensures
        match read {
            Ok(entries) => r matches Ok(e) && e == entries,
            Err(reason) => r matches Err(e) && error::is_validation(
                e,
                "failed to read character catalog: "@ + reason@,
            ),
        },
{
    match read {
        Ok(entries) => Ok(entries),
        Err(reason) => Err(
            KokoroError::Validation(concat2("failed to read character catalog: ", reason.as_str())),
        ),
    }
}

/// The templates in the order of the catalog, without the one that only
/// documents the format.
pub open spec fn offered(entries: Seq<CatalogEntry>, documentation_id: Seq<char>) -> Seq<
    CharacterTemplateManifest,
>
    decreases entries.len(),
{
    if entries.len() == 0 {
        Seq::empty()
    } else if entries.last().manifest.id@ != documentation_id {
        offered(entries.drop_last(), documentation_id).push(entries.last().manifest)
    } else {
        offered(entries.drop_last(), documentation_id)
    }
}

pub fn list_character_templates_from_catalog(
    read: Result<Vec<CatalogEntry>, String>,
    documentation_id: &str,
) -> (r: Result<Vec<CharacterTemplateManifest>, KokoroError>)
    ensures
        match read {
            Ok(entries) => r matches Ok(templates) && templates@ == offered(
                entries@,
                documentation_id@,
            ),
            Err(reason) => r matches Err(e) && error::is_validation(
                e,
                "failed to read character catalog: "@ + reason@,
            ),
        },
{
    let mut entries = match discover_catalog(read) {
        Ok(entries) => entries,
        Err(e) => {
            return Err(e);
        },
    };
    let ghost all = entries@;
    let mut templates: Vec<CharacterTemplateManifest> = Vec::new();
    let ghost mut done: int = 0;
    assert(all.take(0) =~= Seq::empty());
    while entries.len() > 0
        invariant
            0 <= done <= all.len(),
            entries@ == all.skip(done),
            templates@ == offered(all.take(done), documentation_id@),
        decreases entries.len(),
    {
        let entry = entries.remove(0);
        proof {
            assert(all.take(done + 1).drop_last() =~= all.take(done));
            assert(all.take(done + 1).last() == entry);
            assert(entries@ =~= all.skip(done + 1));
            done = done + 1;
        }
        if !same_text(entry.manifest.id.as_str(), documentation_id) {
            templates.push(entry.manifest);
        }
    }
    assert(all.take(done) =~= all);
    Ok(templates)
}

/// Where a template of this id and version stands, the first one counting.
pub open spec fn entry_at(entries: Seq<CatalogEntry>, id: Seq<char>, version: Seq<char>) -> Option<int>
    decreases entries.len(),
{
    if entries.len() == 0 {
        None
    } else {
        match entry_at(entries.drop_last(), id, version) {
            Some(i) => Some(i),
            None => if entries.last().manifest.id@ == id && entries.last().manifest.version@
                == version {
                Some(entries.len() - 1)
            } else {
                None
            },
        }
    }
}

pub fn find_catalog_entry(
    read: Result<Vec<CatalogEntry>, String>,
    template_id: &str,
    template_version: &str,
) -> (r: Result<CatalogEntry, KokoroError>)
    ensures
        match read {
            Ok(entries) => match entry_at(entries@, template_id@, template_version@) {
                Some(i) => r matches Ok(entry) && entry == entries@[i],
                None => r matches Err(e) && error::is_not_found(
                    e,
                    "character template '"@ + template_id@ + "' version '"@ + template_version@
                        + "' not found"@,
                ),
            },
            Err(reason) => r matches Err(e) && error::is_validation(
                e,
                "failed to read character catalog: "@ + reason@,
            ),
        },
{
    let mut entries = match discover_catalog(read) {
        Ok(entries) => entries,
        Err(e) => {
            return Err(e);
        },
    };
    let ghost all = entries@;
    let mut i: usize = 0;
    let mut at: Option<usize> = None;
    assert(all.take(0) =~= Seq::empty());
    while i < entries.len()
        invariant
            entries@ == all,
            i <= all.len(),
            match at {
                Some(k) => k < i && entry_at(all.take(i as int), template_id@, template_version@)
                    == Some(k as int),
                None => entry_at(all.take(i as int), template_id@, template_version@) is None,
            },
        decreases entries.len() - i,
    {
        let manifest = &entries[i].manifest;
        assert(all.take(i + 1).drop_last() =~= all.take(i as int));
        assert(all.take(i + 1).last() == all[i as int]);
        if at.is_none() && same_text(manifest.id.as_str(), template_id) && same_text(
            manifest.version.as_str(),
            template_version,
        ) {
            at = Some(i);
        }
        i += 1;
    }
    assert(all.take(i as int) =~= all);
    match at {
        Some(k) => Ok(entries.remove(k)),
        None => {
            let head = concat3("character template '", template_id, "' version '");
            Err(
                KokoroError::NotFound(
                    concat3(head.as_str(), template_version, "' not found"),
                ),
            )
        },
    }
}

/// A character belongs to a template.
pub fn linked_template(character: &CharacterRecord) -> (r: Result<&str, KokoroError>)
    ensures
        match text::opt_view(character.template_id) {
            Some(id) => r matches Ok(t) && t@ == id,
            None => r matches Err(e) && error::is_validation(
                e,
                "character is not linked to a template"@,
            ),
        },
{
    match &character.template_id {
        Some(id) => Ok(id.as_str()),
        None => Err(KokoroError::Validation("character is not linked to a template".to_owned())),
    }
}

/// What is to be named before a template's changes are shown.
pub fn check_reconcile_request(instance_id: &str, template_version: &str) -> (r: Result<
    (),
    KokoroError,
>)
    ensures
        if text::blank(instance_id@) || text::blank(template_version@) {
            r matches Err(e) && error::is_validation(
                e,
                "instance id and template version cannot be empty"@,
            )
        } else {
            r is Ok
        },
{
    if is_blank(instance_id) || is_blank(template_version) {
        Err(
            KokoroError::Validation("instance id and template version cannot be empty".to_owned()),
        )
    } else {
        Ok(())
    }
}

/// A request to take over the changes of a template.
#[derive(Debug)]
pub struct ApplyCharacterTemplateReconciliationRequest {
    pub instance_id: String,
    pub expected_current_template_version: String,
    pub expected_new_template_version: String,
    pub selected: SelectedCharacter,
    pub updated_at: i64,
}

/// What the user chose for the character.
#[derive(Debug)]
pub struct SelectedCharacter {
    pub name: String,
    pub description: String,
    pub avatar: Option<String>,
    pub persona: String,
    pub greeting: String,
    pub example_dialogue: Option<String>,
    /// How the character runs, as JSON, where something was chosen.
    pub runtime: Option<String>,
}

/// What is missing in a request, the first thing counting.
pub open spec fn missing_part(request: ApplyCharacterTemplateReconciliationRequest) -> Option<
    Seq<char>,
> {
    if text::blank(request.instance_id@) {
        Some("instance id"@)
    } else if text::blank(request.expected_current_template_version@) {
        Some("expected current template version"@)
    } else if text::blank(request.expected_new_template_version@) {
        Some("expected new template version"@)
    } else if text::blank(request.selected.name@) {
        Some("selected character name"@)
    } else {
        None
    }
}

pub fn check_reconciliation(request: &ApplyCharacterTemplateReconciliationRequest) -> (r: Result<
    (),
    KokoroError,
>)
    ensures
        match missing_part(*request) {
            Some(part) => r matches Err(e) && error::is_validation(e, part + " cannot be empty"@),
            None => r is Ok,
        },
{
    let missing = if is_blank(request.instance_id.as_str()) {
        "instance id"
    } else if is_blank(request.expected_current_template_version.as_str()) {
        "expected current template version"
    } else if is_blank(request.expected_new_template_version.as_str()) {
        "expected new template version"
    } else if is_blank(request.selected.name.as_str()) {
        "selected character name"
    } else {
        return Ok(());
    };
    Err(KokoroError::Validation(concat2(missing, " cannot be empty")))
}

/// The character must still be at the version that the user saw. `live` is the
/// version it is at, where it still belongs to the template.
pub fn check_live_version(live: Option<&str>, expected: &str) -> (r: Result<(), KokoroError>)
    ensures
        if text::opt_str(live) == Some(expected@) {
            r is Ok
        } else {
            r matches Err(e) && error::is_validation(
                e,
                "character template version changed; preview reconciliation again"@,
            )
        },
{
    let same = match live {
        Some(version) => same_text(version, expected),
        None => false,
    };
    if same {
        Ok(())
    } else {
        Err(
            KokoroError::Validation(
                "character template version changed; preview reconciliation again".to_owned(),
            ),
        )
    }
}

/// A character after the changes of its template were taken over. `snapshot` is
/// the template as it is now, `default_runtime` how a character runs where
/// nothing was chosen.
pub fn apply_character_template_reconciliation(
    record: CharacterRecord,
    request: ApplyCharacterTemplateReconciliationRequest,
    snapshot: String,
    default_runtime: String,
) -> (r: CharacterRecord)
    ensures
        r.id == record.id,
        r.name == request.selected.name,
        r.persona == request.selected.persona,
        r.user_nickname == record.user_nickname,
        r.source_format == record.source_format,
        r.created_at == record.created_at,
        r.updated_at == request.updated_at,
        r.template_id == record.template_id,
        r.template_version == Some(request.expected_new_template_version),
        r.template_snapshot_json == Some(snapshot),
        r.description == request.selected.description,
        r.avatar_path == request.selected.avatar,
        r.greeting == request.selected.greeting,
        r.greeting_consumed_at == record.greeting_consumed_at,
        r.greeting_message_id == record.greeting_message_id,
        r.example_dialogue@ == given_or(
            text::opt_view(request.selected.example_dialogue),
            Seq::empty(),
        ),
        r.runtime_profile_json == given_or(request.selected.runtime, default_runtime),
        r.user_modified_at == record.user_modified_at,
{
    CharacterRecord {
        id: record.id,
        name: request.selected.name,
        persona: request.selected.persona,
        user_nickname: record.user_nickname,
        source_format: record.source_format,
        created_at: record.created_at,
        updated_at: request.updated_at,
        template_id: record.template_id,
        template_version: Some(request.expected_new_template_version),
        template_snapshot_json: Some(snapshot),
        description: request.selected.description,
        avatar_path: request.selected.avatar,
        greeting: request.selected.greeting,
        greeting_consumed_at: record.greeting_consumed_at,
        greeting_message_id: record.greeting_message_id,
        example_dialogue: match request.selected.example_dialogue {
            Some(dialogue) => dialogue,
            None => String::new(),
        },
        runtime_profile_json: match request.selected.runtime {
            Some(runtime) => runtime,
            None => default_runtime,
        },
        user_modified_at: record.user_modified_at,
    }
}

/// A way to speak that runs on the user's machine.
#[derive(Debug)]
pub struct LocalTtsPreset {
    pub id: String,
    pub provider_type: String,
    pub endpoint: String,
}

/// The only way to speak on the user's machine that characters may choose.
pub open spec fn is_sovits_preset(preset: LocalTtsPreset) -> bool {
    &&& preset.id@ == "gpt-sovits-loopback"@
    &&& preset.provider_type@ == "gpt_sovits"@
    &&& preset.endpoint@ == "http://127.0.0.1:9880"@
}

pub fn allowlisted_local_tts_presets() -> (r: Vec<LocalTtsPreset>)
    ensures
        r@.len() == 1,
        is_sovits_preset(r@[0]),
{
    let mut r: Vec<LocalTtsPreset> = Vec::new();
    r.push(
        LocalTtsPreset {
            id: "gpt-sovits-loopback".to_owned(),
            provider_type: "gpt_sovits".to_owned(),
            endpoint: "http://127.0.0.1:9880".to_owned(),
        },
    );
    r
}

/// The ways to speak that an activation allows: all of them, unless it allows
/// none.
pub fn activation_presets(allow_local_preset: Option<bool>) -> (r: Vec<LocalTtsPreset>)
    ensures
        if allow_local_preset == Some(false) {
            r@.len() == 0
        } else {
            r@.len() == 1 && is_sovits_preset(r@[0])
        },
{
    let allowed = match allow_local_preset {
        Some(allow) => allow,
        None => true,
    };
    if allowed {
        allowlisted_local_tts_presets()
    } else {
        Vec::new()
    }
}

/// The names of the character and of the user, as the character's record has
/// them. A blank name of the user is `User`; without a record the character is
/// `Kokoro`.
pub fn runtime_names(record: Option<(String, String)>) -> (r: (String, String))
    ensures
        match record {
            Some(names) => r.0 == names.0 && r.1@ == (if text::blank(names.1@) {
                "User"@
            } else {
                names.1@
            }),
            None => r.0@ == "Kokoro"@ && r.1@ == "User"@,
        },
{
    match record {
        Some(names) => {
            let (name, user) = names;
            if is_blank(user.as_str()) {
                (name, "User".to_owned())
            } else {
                (name, user)
            }
        },
        None => ("Kokoro".to_owned(), "User".to_owned()),
    }
}

/// The active character as it is stored.
pub fn active_character_value(character_id: &str) -> (value: JsonValue)
    ensures
        value@ == JsonView::Object(seq![("character_id"@, JsonView::Text(character_id@))]),
{
    let value = JsonObject::new().with("character_id", json_text(character_id)).done();
    assert(value@->Object_0 =~= seq![("character_id"@, JsonView::Text(character_id@))]);
    value
}

/// The current conversation as it is stored.
pub fn current_conversation_value(conversation_id: &Option<String>) -> (value: JsonValue)
    ensures
        value@ == JsonView::Object(
            seq![("conversation_id"@, json::text_or_null(text::opt_view(*conversation_id)))],
        ),
{
    let value = JsonObject::new().with("conversation_id", json_opt_text(conversation_id)).done();
    assert(value@->Object_0 =~= seq![
        ("conversation_id"@, json::text_or_null(text::opt_view(*conversation_id))),
    ]);
    value
}

} // verus!
