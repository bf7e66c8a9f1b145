//! Characters, their templates and their avatars.

use kokoro::avatar::{
    avatar_directory, avatar_file, check_new_avatar_directory, check_readable_avatar,
    ensure_managed_avatar_root, inspect_avatar_directory, inspect_managed_avatar_root,
    managed_avatar_root, recover_cleanup_failure, recover_managed_avatar_failure, removal_error,
    restoration_error, stage_owned_avatar_if_replaced, ManagedAvatarRemoval,
};
use kokoro::avatar_change::{AvatarChange, ChangePlan, ChangeStage};
use kokoro::characters::{
    activation_presets, active_character_value, allowlisted_local_tts_presets,
    apply_character_template_reconciliation, check_character_id, check_live_version,
    check_reconcile_request, check_reconciliation, current_conversation_value,
    discover_catalog, duplicate_create_request, find_catalog_entry, linked_template,
    list_character_templates_from_catalog, require_affected_character, require_character,
    restore_character_defaults, runtime_names, update_character,
    ApplyCharacterTemplateReconciliationRequest, CatalogEntry, CharacterRecord,
    CharacterTemplateManifest, DuplicateCharacterRequest, SelectedCharacter, TemplateDefaults,
    UpdateCharacterRequest,
};
use kokoro::error::KokoroError;
use kokoro::file_swap::{
    avatar_backup, avatar_temporary, settings_backup, settings_temporary, swap_token, FileRole,
    FileSwap, Found, SwapAction, SwapKind,
};
use kokoro::json::JsonValue;
use kokoro::paths::FilePath;

fn p(text: &str) -> FilePath {
    FilePath::from_text(text)
}

fn shown(path: &FilePath) -> String {
    String::from_utf8(path.bytes().clone()).expect("the path should be text")
}

fn s(text: &str) -> String {
    text.to_string()
}

fn record() -> CharacterRecord {
    CharacterRecord {
        id: s("c1"),
        name: s("Mia"),
        persona: s("kind"),
        user_nickname: s("you"),
        source_format: s("native"),
        created_at: 1,
        updated_at: 2,
        template_id: Some(s("t1")),
        template_version: Some(s("1.0")),
        template_snapshot_json: Some(s("{}")),
        description: s("d"),
        avatar_path: Some(s("avatar://c1")),
        greeting: s("hi"),
        greeting_consumed_at: Some(5),
        greeting_message_id: Some(6),
        example_dialogue: s("e"),
        runtime_profile_json: s("{}"),
        user_modified_at: Some(4),
    }
}

fn words<T>(result: Result<T, KokoroError>) -> String {
    match result {
        Ok(_) => panic!("expected an error"),
        Err(KokoroError::Config(w)) => format!("config: {w}"),
        Err(KokoroError::Database(w)) => format!("database: {w}"),
        Err(KokoroError::Validation(w)) => format!("validation: {w}"),
        Err(KokoroError::NotFound(w)) => format!("not found: {w}"),
        Err(KokoroError::Chat(w)) => format!("chat: {w}"),
        Err(KokoroError::ExternalService(w)) => format!("external: {w}"),
        Err(KokoroError::Internal(w)) => format!("internal: {w}"),
        Err(KokoroError::Io(w)) => format!("io: {w}"),
    }
}

#[test]
fn a_copy_has_its_own_id_and_name() {
    let request = |new_name: Option<&str>| DuplicateCharacterRequest {
        source_id: s("c1"),
        new_id: s("c2"),
        new_name: new_name.map(str::to_string),
        created_at: 10,
        updated_at: 11,
    };
    let copy = duplicate_create_request(record(), request(None));
    assert_eq!(copy.id, "c2");
    assert_eq!(copy.name, "Mia Copy");
    assert_eq!(copy.created_at, 10);
    assert_eq!(copy.updated_at, 11);
    assert_eq!(copy.persona, "kind");
    assert_eq!(copy.user_modified_at, Some(4));
    assert_eq!(duplicate_create_request(record(), request(Some("Zoe"))).name, "Zoe");
}

#[test]
fn an_update_keeps_what_is_not_given() {
    let updated = update_character(
        record(),
        UpdateCharacterRequest {
            id: s("c1"),
            name: s("Mila"),
            persona: s("p"),
            user_nickname: s("u"),
            source_format: s("f"),
            updated_at: 20,
            description: None,
            avatar_path: Some(None),
            greeting: Some(s("hello")),
            example_dialogue: None,
            runtime_profile_json: None,
            user_modified_at: None,
        },
    );
    assert_eq!(updated.name, "Mila");
    assert_eq!(updated.description, "d");
    assert_eq!(updated.avatar_path, None);
    assert_eq!(updated.greeting, "hello");
    assert_eq!(updated.user_modified_at, Some(20));
    assert_eq!(updated.created_at, 1);
}

#[test]
fn defaults_come_back_from_the_template() {
    let restored = restore_character_defaults(
        record(),
        TemplateDefaults {
            name: s("T"),
            description: s("td"),
            avatar_path: None,
            persona: s("tp"),
            greeting: s("tg"),
            example_dialogue: s("te"),
            runtime_profile_json: s("{\"a\":1}"),
        },
        30,
    );
    assert_eq!(restored.name, "T");
    assert_eq!(restored.user_nickname, "you");
    assert_eq!(restored.user_modified_at, None);
    assert_eq!(restored.updated_at, 30);
}

fn entry(id: &str, version: &str) -> CatalogEntry {
    CatalogEntry {
        manifest: CharacterTemplateManifest {
            id: s(id),
            version: s(version),
            content: JsonValue::Null,
        },
    }
}

#[test]
fn templates_are_listed_and_found() {
    let entries = || vec![entry("a", "1"), entry("doc", "1"), entry("a", "2")];
    let listed = list_character_templates_from_catalog(Ok(entries()), "doc").unwrap();
    let names: Vec<String> = listed.iter().map(|m| format!("{}@{}", m.id, m.version)).collect();
    assert_eq!(names, vec!["a@1", "a@2"]);
    let found = find_catalog_entry(Ok(entries()), "a", "2").unwrap();
    assert_eq!(found.manifest.version, "2");
    assert_eq!(
        words(find_catalog_entry(Ok(entries()), "a", "3")),
        "not found: character template 'a' version '3' not found"
    );
    assert_eq!(
        words(discover_catalog(Err(s("no disk")))),
        "validation: failed to read character catalog: no disk"
    );
    assert!(list_character_templates_from_catalog(Err(s("x")), "doc").is_err());
}

#[test]
fn characters_are_checked_before_they_change() {
    assert!(check_character_id("c").is_ok());
    assert_eq!(
        words(check_character_id("  ")),
        "validation: character id cannot be empty"
    );
    assert_eq!(
        words(require_affected_character(0, "c9")),
        "not found: character 'c9' not found"
    );
    assert!(require_affected_character(1, "c9").is_ok());
    assert_eq!(
        words(require_character(None, "c9")),
        "not found: character 'c9' not found"
    );
    assert_eq!(linked_template(&record()).unwrap(), "t1");
    let mut loose = record();
    loose.template_id = None;
    assert_eq!(
        words(linked_template(&loose)),
        "validation: character is not linked to a template"
    );
    assert_eq!(
        words(check_reconcile_request("c", " ")),
        "validation: instance id and template version cannot be empty"
    );
    assert!(check_live_version(Some("1.0"), "1.0").is_ok());
    assert_eq!(
        words(check_live_version(None, "1.0")),
        "validation: character template version changed; preview reconciliation again"
    );
}

fn reconciliation(name: &str) -> ApplyCharacterTemplateReconciliationRequest {
    ApplyCharacterTemplateReconciliationRequest {
        instance_id: s("c1"),
        expected_current_template_version: s("1.0"),
        expected_new_template_version: s("2.0"),
        selected: SelectedCharacter {
            name: s(name),
            description: s("nd"),
            avatar: None,
            persona: s("np"),
            greeting: s("ng"),
            example_dialogue: None,
            runtime: None,
        },
        updated_at: 40,
    }
}

#[test]
fn a_reconciliation_names_what_is_missing_and_takes_the_rest() {
    assert!(check_reconciliation(&reconciliation("N")).is_ok());
    assert_eq!(
        words(check_reconciliation(&reconciliation(" "))),
        "validation: selected character name cannot be empty"
    );
    let mut request = reconciliation(" ");
    request.expected_new_template_version = s("");
    assert_eq!(
        words(check_reconciliation(&request)),
        "validation: expected new template version cannot be empty"
    );
    request.expected_current_template_version = s("");
    assert_eq!(
        words(check_reconciliation(&request)),
        "validation: expected current template version cannot be empty"
    );
    request.instance_id = s("");
    assert_eq!(
        words(check_reconciliation(&request)),
        "validation: instance id cannot be empty"
    );
    let changed = apply_character_template_reconciliation(
        record(),
        reconciliation("N"),
        s("{\"v\":2}"),
        s("{\"r\":0}"),
    );
    assert_eq!(changed.name, "N");
    assert_eq!(changed.template_version.as_deref(), Some("2.0"));
    assert_eq!(changed.template_snapshot_json.as_deref(), Some("{\"v\":2}"));
    assert_eq!(changed.runtime_profile_json, "{\"r\":0}");
    assert_eq!(changed.example_dialogue, "");
    assert_eq!(changed.user_modified_at, Some(4));
}

#[test]
fn presets_and_runtime_values() {
    let presets = allowlisted_local_tts_presets();
    assert_eq!(presets.len(), 1);
    assert_eq!(presets[0].id, "gpt-sovits-loopback");
    assert_eq!(presets[0].provider_type, "gpt_sovits");
    assert_eq!(presets[0].endpoint, "http://127.0.0.1:9880");
    assert_eq!(activation_presets(None).len(), 1);
    assert_eq!(activation_presets(Some(false)).len(), 0);
    assert_eq!(runtime_names(None), (s("Kokoro"), s("User")));
    assert_eq!(runtime_names(Some((s("Mia"), s(" ")))), (s("Mia"), s("User")));
    assert_eq!(
        active_character_value("c1").get_str("character_id"),
        Some("c1")
    );
    assert!(matches!(
        current_conversation_value(&None).get("conversation_id"),
        Some(JsonValue::Null)
    ));
}

/// Replaces a file in a small store, failing at the given steps, and returns
/// what is in the target's place, what was put aside, and the result.
fn run_swap(
    kind: SwapKind,
    old: Option<&str>,
    fails: &[usize],
) -> (Option<String>, Option<String>, Result<(), String>) {
    let mut target = old.map(str::to_string);
    let mut temporary: Option<String> = None;
    let mut backup: Option<String> = None;
    let mut swap = FileSwap::new(kind, "a.json");
    let mut step = 0;
    loop {
        if let Some(result) = swap.result() {
            return (target, backup, result);
        }
        let action = swap.action();
        if action == SwapAction::Look {
            swap.looked(if target.is_some() {
                Found::Present
            } else {
                Found::Missing
            });
            continue;
        }
        if fails.contains(&step) {
            swap.done(Err(format!("e{step}")));
            step += 1;
            continue;
        }
        match action {
            SwapAction::Write => temporary = Some(s("new")),
            SwapAction::Rename(from, to) => {
                let moved = match from {
                    FileRole::Target => target.take(),
                    FileRole::Temporary => temporary.take(),
                    FileRole::Backup => backup.take(),
                };
                match to {
                    FileRole::Target => target = moved,
                    FileRole::Temporary => temporary = moved,
                    FileRole::Backup => backup = moved,
                }
            }
            SwapAction::Remove(FileRole::Target) => target = None,
            SwapAction::Remove(FileRole::Temporary) => temporary = None,
            SwapAction::Remove(FileRole::Backup) => backup = None,
            SwapAction::Look | SwapAction::Nothing => {}
        }
        swap.done(Ok(()));
        step += 1;
    }
}

#[test]
fn files_are_replaced_or_kept() {
    let new = Some(s("new"));
    let old = Some(s("old"));
    assert_eq!(run_swap(SwapKind::Settings, None, &[]), (new.clone(), None, Ok(())));
    assert_eq!(
        run_swap(SwapKind::Settings, Some("old"), &[]),
        (new.clone(), None, Ok(()))
    );
    assert_eq!(
        run_swap(SwapKind::Settings, Some("old"), &[0]),
        (old.clone(), None, Err(s("failed to write a.json: e0")))
    );
    assert_eq!(
        run_swap(SwapKind::Settings, Some("old"), &[1]),
        (old.clone(), None, Err(s("failed to stage existing a.json: e1")))
    );
    assert_eq!(
        run_swap(SwapKind::Settings, Some("old"), &[2]),
        (old.clone(), None, Err(s("failed to persist a.json: e2")))
    );
    assert_eq!(
        run_swap(SwapKind::Settings, Some("old"), &[2, 3]),
        (None, old.clone(), Err(s("failed to persist a.json: e2")))
    );
    assert_eq!(
        run_swap(SwapKind::Settings, Some("old"), &[3]),
        (new.clone(), old.clone(), Err(s("failed to finalize a.json: e3")))
    );
    assert_eq!(
        run_swap(SwapKind::Settings, None, &[1]),
        (None, None, Err(s("failed to persist a.json: e1")))
    );
    assert_eq!(
        run_swap(SwapKind::Avatar, Some("old"), &[2, 4]),
        (
            old.clone(),
            None,
            Err(s("failed to replace character avatar: e2; restoration: ok; cleanup: e4"))
        )
    );
    assert_eq!(
        run_swap(SwapKind::Avatar, None, &[1]),
        (None, None, Err(s("e1")))
    );
}

#[test]
fn a_restoration_is_told_of_even_where_its_error_is_empty() {
    let mut swap = FileSwap::new(SwapKind::Avatar, "avatar.png");
    swap.done(Ok(()));
    swap.looked(Found::Present);
    swap.done(Ok(()));
    swap.done(Err(s("full")));
    swap.done(Err(s("")));
    swap.done(Ok(()));
    assert_eq!(
        swap.result(),
        Some(Err(s(
            "failed to replace character avatar: full; restoration: ; cleanup: ok"
        )))
    );
}

#[test]
fn an_unsafe_avatar_is_not_replaced() {
    let mut swap = FileSwap::new(SwapKind::Avatar, "avatar.png");
    swap.done(Ok(()));
    swap.looked(Found::Unsafe);
    assert_eq!(
        swap.result(),
        Some(Err(s("character avatar resource file is unsafe")))
    );
    let mut swap = FileSwap::new(SwapKind::Avatar, "avatar.png");
    swap.done(Ok(()));
    swap.looked(Found::Unknown(s("denied")));
    assert_eq!(swap.result(), Some(Err(s("denied"))));
    assert_eq!(
        shown(&settings_temporary(&p("/d"), "a.json", "T")),
        "/d/.a.json.T.tmp"
    );
    assert_eq!(
        shown(&settings_backup(&p("/d"), "a.json", "T")),
        "/d/.a.json.T.backup"
    );
    assert_eq!(shown(&avatar_temporary(&p("/d"), "T")), "/d/.avatar-T.tmp");
    assert_eq!(shown(&avatar_backup(&p("/d"), "T")), "/d/.avatar-T.backup");
    assert_ne!(swap_token(), swap_token());
}

#[test]
fn avatar_places_are_inspected() {
    let root = managed_avatar_root(&p("/data"));
    assert_eq!(shown(&root), "/data/character-instance-resources");
    let directory = avatar_directory(&root, "c1");
    assert_eq!(
        shown(&avatar_file(&directory)),
        "/data/character-instance-resources/c1/avatar.png"
    );
    assert!(inspect_managed_avatar_root(Found::Present).unwrap());
    assert!(!inspect_managed_avatar_root(Found::Missing).unwrap());
    assert_eq!(
        words(inspect_managed_avatar_root(Found::Unsafe)),
        "validation: managed character avatar resource root is unsafe"
    );
    assert_eq!(
        words(inspect_avatar_directory(Found::Unknown(s("denied")))),
        "io: denied"
    );
    assert_eq!(
        words(ensure_managed_avatar_root(Found::Missing)),
        "internal: managed character avatar resource root disappeared"
    );
    assert!(ensure_managed_avatar_root(Found::Present).is_ok());
    assert!(check_new_avatar_directory(Found::Missing, "c1").is_ok());
    assert_eq!(
        words(check_new_avatar_directory(Found::Present, "c1")),
        "validation: managed avatar resource already exists for character 'c1'"
    );
    assert_eq!(
        words(check_readable_avatar(Found::Missing, Ok(true), Ok(true))),
        "not found: managed avatar resource directory not found"
    );
    assert_eq!(
        words(check_readable_avatar(Found::Present, Ok(false), Ok(true))),
        "validation: character avatar resource directory is unsafe"
    );
    assert_eq!(
        words(check_readable_avatar(Found::Present, Ok(true), Err(s("gone")))),
        "io: gone"
    );
    assert!(check_readable_avatar(Found::Present, Ok(true), Ok(true)).is_ok());
}

#[test]
fn a_staged_avatar_goes_or_comes_back() {
    let data = p("/data");
    for root in [Found::Missing, Found::Present] {
        assert!(ManagedAvatarRemoval::stage(&data, "c1", root, Found::Missing)
            .unwrap()
            .is_none());
    }
    let (original, backup) =
        ManagedAvatarRemoval::stage(&data, "c1", Found::Present, Found::Present)
            .unwrap()
            .unwrap();
    assert_eq!(shown(&original), "/data/character-instance-resources/c1");
    assert!(shown(&backup).starts_with("/data/character-instance-resources/.c1.delete-backup-"));
    let mut removal = ManagedAvatarRemoval::staged(original.copy(), backup.copy());
    let (from, to) = removal.rollback().unwrap();
    assert_eq!((shown(&from), shown(&to)), (shown(&backup), shown(&original)));
    removal.rolled_back(false);
    assert!(removal.rollback().is_some());
    removal.rolled_back(true);
    assert!(removal.rollback().is_none());
    assert!(removal.finalize().is_none());

    let mut removal = ManagedAvatarRemoval::staged(original, backup.copy());
    assert_eq!(shown(&removal.finalize().unwrap()), shown(&backup));
    assert!(removal.rollback().is_none());
    assert!(ManagedAvatarRemoval::empty().rollback().is_none());
}

#[test]
fn avatar_errors_tell_how_they_were_undone() {
    let own = || KokoroError::Validation(s("bad"));
    let error = |e: KokoroError| words::<()>(Err(e));
    assert_eq!(error(recover_cleanup_failure(own(), "bad", Ok(()))), "validation: bad");
    assert_eq!(
        error(recover_cleanup_failure(own(), "bad", Err(s("stuck")))),
        "internal: avatar operation failed: bad; cleanup also failed: stuck"
    );
    assert_eq!(
        error(recover_managed_avatar_failure(own(), "bad", Ok(()), Ok(()))),
        "validation: bad"
    );
    assert_eq!(
        error(recover_managed_avatar_failure(own(), "bad", Ok(()), Err(s("lost")))),
        "internal: avatar operation failed: bad; cleanup: ok; restoration: lost"
    );
    assert_eq!(
        error(removal_error("/b", "busy")),
        "io: failed to remove deleted character resource backup '/b': busy"
    );
    assert_eq!(
        error(restoration_error("/o", "busy")),
        "io: failed to restore managed avatar resource '/o': busy"
    );
    assert!(stage_owned_avatar_if_replaced("c1", Some("a"), Some("c1"), Some("b")));
    assert!(stage_owned_avatar_if_replaced("c1", Some("a"), Some("c1"), None));
    assert!(!stage_owned_avatar_if_replaced("c1", Some("a"), Some("c1"), Some("a")));
    assert!(!stage_owned_avatar_if_replaced("c1", Some("a"), Some("c2"), Some("b")));
}

fn failure(words: &str) -> Option<(KokoroError, String)> {
    Some((KokoroError::Io(s(words)), s(words)))
}

#[test]
fn a_failed_change_is_undone_step_by_step() {
    let plan = ChangePlan {
        creates: false,
        stages: true,
        writes: true,
    };
    let change = AvatarChange::new(plan);
    assert_eq!(change.stage(), ChangeStage::Staging);
    let change = change.step(None);
    assert_eq!(change.stage(), ChangeStage::Writing);
    let change = change.step(None);
    assert_eq!(change.stage(), ChangeStage::Storing);
    let change = change.step(failure("db"));
    assert_eq!(change.stage(), ChangeStage::Clearing);
    let change = change.step(None);
    assert_eq!(change.stage(), ChangeStage::Restoring);
    let change = change.step(failure("lost"));
    assert_eq!(change.stage(), ChangeStage::Failed);
    assert_eq!(
        words(change.result().unwrap()),
        "internal: avatar operation failed: db; cleanup: ok; restoration: lost"
    );

    let change = AvatarChange::new(plan).step(None).step(None).step(None);
    assert_eq!(change.stage(), ChangeStage::Removing);
    assert!(change.step(None).result().unwrap().is_ok());

    let created = AvatarChange::new(ChangePlan {
        creates: true,
        stages: false,
        writes: true,
    });
    let failed = created.step(failure("full")).step(failure("stuck"));
    assert_eq!(
        words(failed.result().unwrap()),
        "internal: avatar operation failed: full; cleanup also failed: stuck"
    );
    let plain = AvatarChange::new(ChangePlan {
        creates: false,
        stages: false,
        writes: false,
    });
    assert!(plain.result().is_none());
}
