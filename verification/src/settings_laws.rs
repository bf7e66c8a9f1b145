//! What holds of the bots' settings and of the characters' catalog, whatever they
//! hold.

use vstd::prelude::*;
use crate::bot_config;
use crate::bot_config::{BotConfigView, QQBotConfigView, TelegramConfigView};
use crate::bot_runtime;
use crate::bot_runtime::{KnownSecrets, PlatformRuntime, RuntimeView};
use crate::characters;
use crate::characters::{
    ApplyCharacterTemplateReconciliationRequest, CatalogEntry, LocalTtsPreset,
};
use crate::text;
use crate::text_laws;

verus! {

broadcast use vstd::string::group_string_axioms;

/// All templates of the catalog but the one that documents the format are offered,
/// in their order.
pub proof fn lemma_offered(entries: Seq<CatalogEntry>, documentation_id: Seq<char>)
    ensures
        characters::offered(entries, documentation_id) == entries.filter(
            |entry: CatalogEntry| entry.manifest.id@ != documentation_id,
        ).map_values(|entry: CatalogEntry| entry.manifest),
    decreases entries.len(),
{
    reveal(Seq::filter);
    let shown = |entry: CatalogEntry| entry.manifest.id@ != documentation_id;
    let named = |entry: CatalogEntry| entry.manifest;
    if entries.len() > 0 {
        lemma_offered(entries.drop_last(), documentation_id);
    }
    assert(characters::offered(entries, documentation_id) =~= entries.filter(shown).map_values(
        named,
    ));
}

/// A template is found where the first entry with its id and version stands, and is
/// not found where there is none.
pub proof fn lemma_entry_at(
    before: Seq<CatalogEntry>,
    entry: CatalogEntry,
    after: Seq<CatalogEntry>,
    id: Seq<char>,
    version: Seq<char>,
)
    requires
        entry.manifest.id@ == id,
        entry.manifest.version@ == version,
        forall|k: int|
            0 <= k < before.len() ==> (#[trigger] before[k]).manifest.id@ != id
                || before[k].manifest.version@ != version,
    ensures
        characters::entry_at(before, id, version) is None,
        characters::entry_at(before.push(entry) + after, id, version) == Some(before.len() as int),
    decreases before.len() + after.len(),
{
    let all = before.push(entry) + after;
    if after.len() > 0 {
        lemma_entry_at(before, entry, after.drop_last(), id, version);
        assert(all.drop_last() =~= before.push(entry) + after.drop_last());
    } else {
        assert(all =~= before.push(entry));
        assert(all.drop_last() =~= before);
        lemma_no_entry(before, id, version);
    }
}

proof fn lemma_no_entry(entries: Seq<CatalogEntry>, id: Seq<char>, version: Seq<char>)
    requires
        forall|k: int|
            0 <= k < entries.len() ==> (#[trigger] entries[k]).manifest.id@ != id
                || entries[k].manifest.version@ != version,
    ensures
        characters::entry_at(entries, id, version) is None,
    decreases entries.len(),
{
    if entries.len() > 0 {
        let rest = entries.drop_last();
        assert(entries[entries.len() - 1].manifest.id@ != id || entries[entries.len()
            - 1].manifest.version@ != version);
        assert forall|k: int| 0 <= k < rest.len() implies (#[trigger] rest[k]).manifest.id@ != id
            || rest[k].manifest.version@ != version by {
            assert(rest[k] == entries[k]);
        }
        lemma_no_entry(rest, id, version);
    }
}

/// A copy has the name that was asked for, else that of what is copied with a mark
/// behind it.
pub proof fn lemma_copy_name(asked: Seq<char>, name: Seq<char>)
    ensures
        characters::copy_name(Some(asked), name) == asked,
        characters::copy_name(None, name) == name + " Copy"@,
{
}

/// A request to bring a character up to its template is complete just where all of
/// its four names are more than white space; else the first of them that is not is
/// told of.
pub proof fn lemma_missing_part(request: ApplyCharacterTemplateReconciliationRequest)
    ensures
        ({
            let names = seq![
                request.instance_id@,
                request.expected_current_template_version@,
                request.expected_new_template_version@,
                request.selected.name@,
            ];
            let words = seq![
                "instance id"@,
                "expected current template version"@,
                "expected new template version"@,
                "selected character name"@,
            ];
            &&& characters::missing_part(request) is None <==> forall|i: int|
                0 <= i < 4 ==> !text_laws::all_white(#[trigger] names[i])
            &&& forall|i: int|
                0 <= i < 4 && text_laws::all_white(#[trigger] names[i]) && (forall|j: int|
                    0 <= j < i ==> !text_laws::all_white(#[trigger] names[j]))
                    ==> characters::missing_part(request) == Some(words[i])
        }),
{
    let names = seq![
        request.instance_id@,
        request.expected_current_template_version@,
        request.expected_new_template_version@,
        request.selected.name@,
    ];
    text_laws::lemma_blank_is_white(names[0]);
    text_laws::lemma_blank_is_white(names[1]);
    text_laws::lemma_blank_is_white(names[2]);
    text_laws::lemma_blank_is_white(names[3]);
}

/// Setting the fixed environment variables touches nothing else: what the user set
/// up stays.
pub proof fn lemma_envs_touch_nothing_else(config: BotConfigView)
    ensures
        ({
            let r = bot_config::with_fixed_envs(config);
            &&& r.revision == config.revision
            &&& r.selected_platform == config.selected_platform
            &&& r.telegram.enabled == config.telegram.enabled
            &&& r.telegram.bot_token == config.telegram.bot_token
            &&& r.telegram.allowed_chat_ids == config.telegram.allowed_chat_ids
            &&& r.telegram.send_voice_reply == config.telegram.send_voice_reply
            &&& r.telegram.character_id == config.telegram.character_id
            &&& r.qq.enabled == config.qq.enabled
            &&& r.qq.app_id == config.qq.app_id
            &&& r.qq.app_secret == config.qq.app_secret
            &&& r.qq.allowed_group_openids == config.qq.allowed_group_openids
            &&& r.qq.allowed_user_openids == config.qq.allowed_user_openids
            &&& r.discord.enabled == config.discord.enabled
            &&& r.discord.bot_token == config.discord.bot_token
            &&& r.discord.allowed_channel_ids == config.discord.allowed_channel_ids
            &&& r.discord.allow_direct_messages == config.discord.allow_direct_messages
            &&& r.discord.send_voice_reply == config.discord.send_voice_reply
            &&& r.discord.character_id == config.discord.character_id
            &&& r.line.enabled == config.line.enabled
            &&& r.line.channel_access_token == config.line.channel_access_token
            &&& r.line.channel_secret == config.line.channel_secret
            &&& r.line.webhook_path == config.line.webhook_path
            &&& r.line.allowed_user_ids == config.line.allowed_user_ids
            &&& r.line.character_id == config.line.character_id
            &&& r.webhook.enabled == config.webhook.enabled
            &&& r.webhook.bind_host == config.webhook.bind_host
            &&& r.webhook.port == config.webhook.port
            &&& r.webhook.endpoint_path == config.webhook.endpoint_path
            &&& r.webhook.bearer_token == config.webhook.bearer_token
            &&& r.webhook.send_voice_reply == config.webhook.send_voice_reply
            &&& r.webhook.character_id == config.webhook.character_id
        }),
{
}

/// The fixed environment variables are those of the platforms' secrets.
pub proof fn lemma_fixed_envs(config: BotConfigView)
    ensures
        ({
            let r = bot_config::with_fixed_envs(config);
            &&& r.telegram.bot_token_env == Some("TELEGRAM_BOT_TOKEN"@)
            &&& r.qq.app_id_env == Some("QQ_APP_ID"@)
            &&& r.qq.app_secret_env == Some("QQ_APP_SECRET"@)
            &&& r.discord.bot_token_env == Some("DISCORD_BOT_TOKEN"@)
            &&& r.line.channel_access_token_env == Some("LINE_CHANNEL_ACCESS_TOKEN"@)
            &&& r.line.channel_secret_env == Some("LINE_CHANNEL_SECRET"@)
            &&& r.webhook.bearer_token_env == Some("KOKORO_WEBHOOK_TOKEN"@)
        }),
{
}

/// What an earlier file held of the Telegram bot is taken over just where the user
/// has set up nothing for it since; all other settings stay.
pub proof fn lemma_taken_over(config: BotConfigView, legacy: TelegramConfigView)
    ensures
        bot_config::loaded(false, config, Some(legacy)).1,
        bot_config::loaded(false, config, Some(legacy)).0.telegram.bot_token == legacy.bot_token,
        bot_config::loaded(false, config, Some(legacy)).0.telegram.allowed_chat_ids
            == legacy.allowed_chat_ids,
        bot_config::loaded(false, config, Some(legacy)).0.telegram.enabled == legacy.enabled,
        bot_config::loaded(false, config, Some(legacy)).0.telegram.send_voice_reply
            == legacy.send_voice_reply,
        bot_config::loaded(false, config, Some(legacy)).0.telegram.character_id
            == legacy.character_id,
        bot_config::loaded(true, config, Some(legacy)).1 <==> (!config.telegram.enabled && (
        config.telegram.bot_token matches Some(token) ==> token.len() == 0)
            && config.telegram.allowed_chat_ids.len() == 0 && !config.telegram.send_voice_reply && (
        config.telegram.character_id matches Some(id) ==> id.len() == 0)),
        bot_config::loaded(true, config, Some(legacy)).1 ==> bot_config::loaded(
            true,
            config,
            Some(legacy),
        ).0.telegram == bot_config::loaded(false, config, Some(legacy)).0.telegram,
        !bot_config::loaded(true, config, None).1 && !bot_config::loaded(false, config, None).1,
        bot_config::loaded(true, config, None).0 == bot_config::with_fixed_envs(config),
        bot_config::loaded(false, config, None).0 == bot_config::with_fixed_envs(config),
        forall|there: bool|
            #![trigger bot_config::loaded(there, config, Some(legacy))]
            bot_config::loaded(there, config, Some(legacy)).0 == (BotConfigView {
                telegram: bot_config::loaded(there, config, Some(legacy)).0.telegram,
                ..bot_config::with_fixed_envs(config)
            }),
{
}

/// Adding an entry to a list keeps all that is in it, in its order, adds nothing else,
/// and adds it only once.
pub proof fn lemma_entry_added(list: Seq<Seq<char>>, entry: Seq<char>)
    ensures
        list.is_prefix_of(bot_runtime::with_entry(list, entry)),
        bot_runtime::with_entry(list, entry).contains(entry),
        bot_runtime::with_entry(list, entry).len() == (if list.contains(entry) {
            list.len()
        } else {
            list.len() + 1
        }),
        list.no_duplicates() ==> bot_runtime::with_entry(list, entry).no_duplicates(),
{
    let r = bot_runtime::with_entry(list, entry);
    assert(list =~= r.take(list.len() as int));
    if !list.contains(entry) {
        assert(r[list.len() as int] == entry);
    }
}

/// What an approval changes: a request from a group adds the group, and the user only
/// where users are listed; a private one adds the user; and nothing else of the
/// settings changes but the revision.
pub proof fn lemma_approval(config: BotConfigView, user: Seq<char>, group: Seq<char>)
    ensures
        ({
            let users = config.qq.allowed_user_openids;
            let groups = config.qq.allowed_group_openids;
            let private = bot_runtime::approved_config(config, user, None);
            let shared = bot_runtime::approved_config(config, user, Some(group));
            &&& private.qq.allowed_user_openids == (if users.contains(user) {
                users
            } else {
                users + seq![user]
            })
            &&& private.qq.allowed_group_openids == groups
            &&& shared.qq.allowed_group_openids == (if groups.contains(group) {
                groups
            } else {
                groups + seq![group]
            })
            &&& shared.qq.allowed_user_openids == (if users.len() == 0 || users.contains(user) {
                users
            } else {
                users + seq![user]
            })
            &&& private == (BotConfigView {
                revision: private.revision,
                qq: QQBotConfigView {
                    allowed_user_openids: private.qq.allowed_user_openids,
                    ..config.qq
                },
                ..config
            })
            &&& shared == (BotConfigView {
                revision: shared.revision,
                qq: QQBotConfigView {
                    allowed_user_openids: shared.qq.allowed_user_openids,
                    allowed_group_openids: shared.qq.allowed_group_openids,
                    ..config.qq
                },
                ..config
            })
            &&& bot_runtime::approved_user(config.qq, user, None) == Some(user)
            &&& bot_runtime::approved_user(config.qq, user, Some(group)) == (if users.len() > 0 {
                Some(user)
            } else {
                None
            })
            &&& users.contains(user) ==> private.revision == config.revision
            &&& !users.contains(user) && config.revision < u64::MAX ==> private.revision
                == config.revision + 1
        }),
{
    let users = config.qq.allowed_user_openids;
    let groups = config.qq.allowed_group_openids;
    assert(users.push(user) =~= users + seq![user]);
    assert(groups.push(group) =~= groups + seq![group]);
    assert(users.push(user).len() != users.len());
}

/// A save counts the revision up and takes all else as it is given.
pub proof fn lemma_saved(current: BotConfigView, config: BotConfigView)
    ensures
        bot_runtime::accepts_save(current, config) <==> config.revision == current.revision,
        current.revision < u64::MAX ==> bot_runtime::saved_config(current, config).revision
            == current.revision + 1,
        bot_runtime::saved_config(current, config) == (BotConfigView {
            revision: bot_runtime::saved_config(current, config).revision,
            ..config
        }),
{
}

/// The names in an answer are good just where the request has an id of up to 256
/// bytes, and the user and the group, if there is one, are named by up to 128 letters
/// of the alphabet, digits, underscores and hyphens; white space around them does not
/// count.
pub proof fn lemma_authorization(request: Seq<char>, user: Seq<char>, group: Option<Seq<char>>)
    ensures
        ({
            let fault = bot_runtime::authorization_fault(request, user, group);
            let good_request = !text_laws::all_white(request) && vstd::utf8::encode_utf8(
                text::trim(request),
            ).len() <= 256;
            let good_user = !text_laws::all_white(user) && bot_runtime::openid(text::trim(user));
            let good_group = group matches Some(g) ==> text_laws::all_white(g)
                || bot_runtime::openid(text::trim(g));
            &&& fault is None <==> good_request && good_user && good_group
            &&& !good_request ==> fault == Some("invalid QQ authorization request ID"@)
            &&& good_request && !good_user ==> fault == Some("invalid QQ user OpenID"@)
            &&& good_request && good_user && !good_group ==> fault == Some(
                "invalid QQ group OpenID"@,
            )
        }),
{
    text_laws::lemma_blank_is_white(request);
    text_laws::lemma_blank_is_white(user);
    if let Some(g) = group {
        text_laws::lemma_blank_is_white(g);
    }
}

/// Which characters name a user or a group.
pub proof fn lemma_openid(s: Seq<char>, k: int)
    requires
        0 <= k < s.len(),
    ensures
        bot_runtime::openid(s) ==> vstd::utf8::encode_utf8(s).len() <= 128 && ('0' <= s[k] <= '9'
            || 'a' <= s[k] <= 'z' || 'A' <= s[k] <= 'Z' || s[k] == '_' || s[k] == '-'),
        vstd::utf8::encode_utf8(s).len() <= 128 && (forall|i: int|
            0 <= i < s.len() ==> '0' <= #[trigger] s[i] <= '9' || 'a' <= s[i] <= 'z' || 'A' <= s[i]
                <= 'Z' || s[i] == '_' || s[i] == '-') ==> bot_runtime::openid(s),
{
    if bot_runtime::openid(s) {
        assert(bot_runtime::openid_char(s[k]));
    }
}

/// The platforms that can be started, each by its name.
pub proof fn lemma_runtimes(platform: Seq<char>)
    ensures
        bot_runtime::runtime_of("qq"@) == Some(PlatformRuntime::Qq),
        bot_runtime::runtime_of("discord"@) == Some(PlatformRuntime::Discord),
        bot_runtime::runtime_of("line"@) == Some(PlatformRuntime::Http),
        bot_runtime::runtime_of("webhook"@) == Some(PlatformRuntime::Http),
        platform != "qq"@ && platform != "discord"@ && platform != "line"@ && platform
            != "webhook"@ ==> bot_runtime::runtime_of(platform) is None,
{
    reveal_strlit("qq");
    reveal_strlit("discord");
    reveal_strlit("line");
    reveal_strlit("webhook");
    assert("qq"@.len() == 2 && "discord"@.len() == 7 && "line"@.len() == 4 && "webhook"@.len() == 7);
    assert("discord"@[0] == 'd' && "webhook"@[0] == 'w');
}

/// When the runtimes start: a platform that is switched on, whose secrets are known,
/// and that does not run yet.
pub proof fn lemma_starts(runtime: RuntimeView, secrets: KnownSecrets, known: bool)
    ensures
        bot_runtime::qq_start_fault(runtime, secrets) is None <==> runtime.config.qq.enabled
            && secrets.qq_app_id && secrets.qq_app_secret && runtime.qq_runtime is None,
        bot_runtime::discord_start_fault(runtime, known) is None <==> !runtime.discord_running
            && runtime.config.discord.enabled && known,
        bot_runtime::http_start_fault(runtime, None) is None <==> !runtime.http_running && (
        runtime.config.line.enabled || runtime.config.webhook.enabled),
        forall|error: Seq<char>|
            #![trigger bot_runtime::http_start_fault(runtime, Some(error))]
            bot_runtime::http_start_fault(runtime, Some(error)) is Some,
{
}

/// A connection to QQ is shown as running from its start to its end, and as connected
/// just while the one that runs has said so; the end of another one changes nothing.
pub proof fn lemma_qq_connection(
    runtime: RuntimeView,
    id: u64,
    other: u64,
    enabled: bool,
    running: bool,
    secrets: KnownSecrets,
)
    requires
        other != id,
        runtime.qq_runtime == Some(id),
    ensures
        bot_runtime::with_qq_ended(runtime, id).qq_runtime is None,
        bot_runtime::with_qq_ended(runtime, other).qq_runtime == Some(id),
        bot_runtime::with_qq_ended(runtime, other).config == runtime.config,
        bot_runtime::status_of(runtime, enabled, running, secrets).qq.running,
        bot_runtime::status_of(runtime, enabled, running, secrets).qq.connected <==> runtime.qq_connected
            == id,
        !bot_runtime::status_of(
            bot_runtime::with_qq_ended(runtime, id),
            enabled,
            running,
            secrets,
        ).qq.running,
        !bot_runtime::status_of(
            bot_runtime::with_qq_ended(runtime, id),
            enabled,
            running,
            secrets,
        ).qq.connected,
        runtime.qq_connected != other ==> bot_runtime::with_qq_ended(runtime, other) == runtime,
{
}

/// What the settings show of each platform: whether it is switched on, whether its
/// secrets are known, and whether it runs.
pub proof fn lemma_status(
    runtime: RuntimeView,
    enabled: bool,
    running: bool,
    secrets: KnownSecrets,
)
    ensures
        ({
            let status = bot_runtime::status_of(runtime, enabled, running, secrets);
            let config = runtime.config;
            &&& status.telegram.enabled == enabled
            &&& status.telegram.configured == secrets.telegram_token
            &&& status.telegram.running == running && status.telegram.connected == running
            &&& status.qq.enabled == config.qq.enabled
            &&& status.qq.configured == (secrets.qq_app_id && secrets.qq_app_secret)
            &&& status.discord.enabled == config.discord.enabled
            &&& status.discord.configured == secrets.discord_token
            &&& status.discord.running == runtime.discord_running && status.discord.connected
                == runtime.discord_running
            &&& status.line.enabled == config.line.enabled
            &&& status.line.configured == (secrets.line_access_token && secrets.line_secret)
            &&& status.line.running == (runtime.http_running && config.line.enabled)
            &&& status.line.connected == status.line.running
            &&& status.webhook.enabled == config.webhook.enabled
            &&& status.webhook.configured == !text_laws::all_white(config.webhook.endpoint_path)
            &&& status.webhook.running == (runtime.http_running && config.webhook.enabled)
            &&& status.webhook.connected == status.webhook.running
        }),
{
    text_laws::lemma_blank_is_white(runtime.config.webhook.endpoint_path);
}

/// What is given replaces what is stored, and nothing else does.
pub proof fn lemma_given_or<T>(given: T, stored: T)
    ensures
        characters::given_or(Some(given), stored) == given,
        characters::given_or(None, stored) == stored,
{
}

/// A character that is not stored is told of by its id; and characters may speak on
/// the user's machine in one way only.
pub proof fn lemma_character_words(id: Seq<char>, preset: LocalTtsPreset)
    ensures
        characters::unknown_character(id) == "character '"@ + id + "' not found"@,
        characters::is_sovits_preset(preset) <==> preset.id@ == "gpt-sovits-loopback"@
            && preset.provider_type@ == "gpt_sovits"@ && preset.endpoint@
            == "http://127.0.0.1:9880"@,
{
}

/// What is set before the user sets anything: no platform is switched on, nobody is
/// listed, no secret is known, and the server listens on this machine alone.
pub proof fn lemma_defaults()
    ensures
        !bot_config::default_telegram().enabled && !bot_config::default_qq().enabled
            && !bot_config::default_discord().enabled && !bot_config::default_line().enabled
            && !bot_config::default_webhook().enabled,
        bot_config::default_telegram().bot_token is None,
        bot_config::default_telegram().allowed_chat_ids.len() == 0,
        bot_config::default_telegram().character_id is None,
        !bot_config::default_telegram().send_voice_reply,
        bot_config::default_qq().app_id is None && bot_config::default_qq().app_secret is None,
        bot_config::default_qq().allowed_group_openids.len() == 0
            && bot_config::default_qq().allowed_user_openids.len() == 0,
        bot_config::default_discord().bot_token is None,
        bot_config::default_discord().allowed_channel_ids.len() == 0,
        bot_config::default_discord().allow_direct_messages,
        !bot_config::default_discord().send_voice_reply,
        bot_config::default_discord().character_id is None,
        bot_config::default_line().channel_access_token is None
            && bot_config::default_line().channel_secret is None,
        bot_config::default_line().webhook_path == "/line/webhook"@,
        bot_config::default_line().allowed_user_ids.len() == 0,
        bot_config::default_line().character_id is None,
        bot_config::default_webhook().bind_host == "127.0.0.1"@,
        bot_config::default_webhook().port == 8787,
        bot_config::default_webhook().endpoint_path == "/webhook/message"@,
        bot_config::default_webhook().bearer_token is None,
        !bot_config::default_webhook().send_voice_reply,
        bot_config::default_webhook().character_id is None,
{
}

} // verus!
