//! The configuration of the bot platforms.

use vstd::prelude::*;
use crate::text;
use crate::text::{copy_opt, copy_texts};

verus! {

broadcast use vstd::string::group_string_axioms;

/// The Telegram bot.
#[derive(Debug)]
pub struct TelegramConfig {
    pub enabled: bool,
    pub bot_token: Option<String>,
    pub bot_token_env: Option<String>,
    pub allowed_chat_ids: Vec<i64>,
    pub send_voice_reply: bool,
    pub character_id: Option<String>,
}

/// The QQ bot.
#[derive(Debug)]
pub struct QQBotConfig {
    pub enabled: bool,
    pub app_id: Option<String>,
    pub app_id_env: Option<String>,
    pub app_secret: Option<String>,
    pub app_secret_env: Option<String>,
    pub allowed_group_openids: Vec<String>,
    pub allowed_user_openids: Vec<String>,
}

/// The Discord bot.
#[derive(Debug)]
pub struct DiscordBotConfig {
    pub enabled: bool,
    pub bot_token: Option<String>,
    pub bot_token_env: Option<String>,
    pub allowed_channel_ids: Vec<String>,
    pub allow_direct_messages: bool,
    pub send_voice_reply: bool,
    pub character_id: Option<String>,
}

/// The LINE bot.
#[derive(Debug)]
pub struct LineBotConfig {
    pub enabled: bool,
    pub channel_access_token: Option<String>,
    pub channel_access_token_env: Option<String>,
    pub channel_secret: Option<String>,
    pub channel_secret_env: Option<String>,
    pub webhook_path: String,
    pub allowed_user_ids: Vec<String>,
    pub character_id: Option<String>,
}

/// The bot behind a generic webhook.
#[derive(Debug)]
pub struct WebhookBotConfig {
    pub enabled: bool,
    pub bind_host: String,
    pub port: u16,
    pub endpoint_path: String,
    pub bearer_token: Option<String>,
    pub bearer_token_env: Option<String>,
    pub send_voice_reply: bool,
    pub character_id: Option<String>,
}

/// All bot platforms. `revision` counts the changes that were saved.
#[derive(Debug)]
pub struct BotConfig {
    pub revision: u64,
    pub selected_platform: String,
    pub telegram: TelegramConfig,
    pub qq: QQBotConfig,
    pub discord: DiscordBotConfig,
    pub line: LineBotConfig,
    pub webhook: WebhookBotConfig,
}

pub ghost struct TelegramConfigView {
    pub enabled: bool,
    pub bot_token: Option<Seq<char>>,
    pub bot_token_env: Option<Seq<char>>,
    pub allowed_chat_ids: Seq<i64>,
    pub send_voice_reply: bool,
    pub character_id: Option<Seq<char>>,
}

pub ghost struct QQBotConfigView {
    pub enabled: bool,
    pub app_id: Option<Seq<char>>,
    pub app_id_env: Option<Seq<char>>,
    pub app_secret: Option<Seq<char>>,
    pub app_secret_env: Option<Seq<char>>,
    pub allowed_group_openids: Seq<Seq<char>>,
    pub allowed_user_openids: Seq<Seq<char>>,
}

pub ghost struct DiscordBotConfigView {
    pub enabled: bool,
    pub bot_token: Option<Seq<char>>,
    pub bot_token_env: Option<Seq<char>>,
    pub allowed_channel_ids: Seq<Seq<char>>,
    pub allow_direct_messages: bool,
    pub send_voice_reply: bool,
    pub character_id: Option<Seq<char>>,
}

pub ghost struct LineBotConfigView {
    pub enabled: bool,
    pub channel_access_token: Option<Seq<char>>,
    pub channel_access_token_env: Option<Seq<char>>,
    pub channel_secret: Option<Seq<char>>,
    pub channel_secret_env: Option<Seq<char>>,
    pub webhook_path: Seq<char>,
    pub allowed_user_ids: Seq<Seq<char>>,
    pub character_id: Option<Seq<char>>,
}

pub ghost struct WebhookBotConfigView {
    pub enabled: bool,
    pub bind_host: Seq<char>,
    pub port: u16,
    pub endpoint_path: Seq<char>,
    pub bearer_token: Option<Seq<char>>,
    pub bearer_token_env: Option<Seq<char>>,
    pub send_voice_reply: bool,
    pub character_id: Option<Seq<char>>,
}

pub ghost struct BotConfigView {
    pub revision: u64,
    pub selected_platform: Seq<char>,
    pub telegram: TelegramConfigView,
    pub qq: QQBotConfigView,
    pub discord: DiscordBotConfigView,
    pub line: LineBotConfigView,
    pub webhook: WebhookBotConfigView,
}

impl View for TelegramConfig {
    type V = TelegramConfigView;

    open spec fn view(&self) -> TelegramConfigView {
        TelegramConfigView {
            enabled: self.enabled,
            bot_token: text::opt_view(self.bot_token),
            bot_token_env: text::opt_view(self.bot_token_env),
            allowed_chat_ids: self.allowed_chat_ids@,
            send_voice_reply: self.send_voice_reply,
            character_id: text::opt_view(self.character_id),
        }
    }
}

impl View for QQBotConfig {
    type V = QQBotConfigView;

    open spec fn view(&self) -> QQBotConfigView {
        QQBotConfigView {
            enabled: self.enabled,
            app_id: text::opt_view(self.app_id),
            app_id_env: text::opt_view(self.app_id_env),
            app_secret: text::opt_view(self.app_secret),
            app_secret_env: text::opt_view(self.app_secret_env),
            allowed_group_openids: text::views(self.allowed_group_openids@),
            allowed_user_openids: text::views(self.allowed_user_openids@),
        }
    }
}

impl View for DiscordBotConfig {
    type V = DiscordBotConfigView;

    open spec fn view(&self) -> DiscordBotConfigView {
        DiscordBotConfigView {
            enabled: self.enabled,
            bot_token: text::opt_view(self.bot_token),
            bot_token_env: text::opt_view(self.bot_token_env),
            allowed_channel_ids: text::views(self.allowed_channel_ids@),
            allow_direct_messages: self.allow_direct_messages,
            send_voice_reply: self.send_voice_reply,
            character_id: text::opt_view(self.character_id),
        }
    }
}

impl View for LineBotConfig {
    type V = LineBotConfigView;

    open spec fn view(&self) -> LineBotConfigView {
        LineBotConfigView {
            enabled: self.enabled,
            channel_access_token: text::opt_view(self.channel_access_token),
            channel_access_token_env: text::opt_view(self.channel_access_token_env),
            channel_secret: text::opt_view(self.channel_secret),
            channel_secret_env: text::opt_view(self.channel_secret_env),
            webhook_path: self.webhook_path@,
            allowed_user_ids: text::views(self.allowed_user_ids@),
            character_id: text::opt_view(self.character_id),
        }
    }
}

impl View for WebhookBotConfig {
    type V = WebhookBotConfigView;

    open spec fn view(&self) -> WebhookBotConfigView {
        WebhookBotConfigView {
            enabled: self.enabled,
            bind_host: self.bind_host@,
            port: self.port,
            endpoint_path: self.endpoint_path@,
            bearer_token: text::opt_view(self.bearer_token),
            bearer_token_env: text::opt_view(self.bearer_token_env),
            send_voice_reply: self.send_voice_reply,
            character_id: text::opt_view(self.character_id),
        }
    }
}

impl View for BotConfig {
    type V = BotConfigView;

    open spec fn view(&self) -> BotConfigView {
        BotConfigView {
            revision: self.revision,
            selected_platform: self.selected_platform@,
            telegram: self.telegram@,
            qq: self.qq@,
            discord: self.discord@,
            line: self.line@,
            webhook: self.webhook@,
        }
    }
}

pub open spec fn default_telegram() -> TelegramConfigView {
    TelegramConfigView {
        enabled: false,
        bot_token: None,
        bot_token_env: Some("TELEGRAM_BOT_TOKEN"@),
        allowed_chat_ids: Seq::empty(),
        send_voice_reply: false,
        character_id: None,
    }
}

pub open spec fn default_qq() -> QQBotConfigView {
    QQBotConfigView {
        enabled: false,
        app_id: None,
        app_id_env: Some("QQ_APP_ID"@),
        app_secret: None,
        app_secret_env: Some("QQ_APP_SECRET"@),
        allowed_group_openids: Seq::empty(),
        allowed_user_openids: Seq::empty(),
    }
}

pub open spec fn default_discord() -> DiscordBotConfigView {
    DiscordBotConfigView {
        enabled: false,
        bot_token: None,
        bot_token_env: Some("DISCORD_BOT_TOKEN"@),
        allowed_channel_ids: Seq::empty(),
        allow_direct_messages: true,
        send_voice_reply: false,
        character_id: None,
    }
}

pub open spec fn default_line() -> LineBotConfigView {
    LineBotConfigView {
        enabled: false,
        channel_access_token: None,
        channel_access_token_env: Some("LINE_CHANNEL_ACCESS_TOKEN"@),
        channel_secret: None,
        channel_secret_env: Some("LINE_CHANNEL_SECRET"@),
        webhook_path: "/line/webhook"@,
        allowed_user_ids: Seq::empty(),
        character_id: None,
    }
}

pub open spec fn default_webhook() -> WebhookBotConfigView {
    WebhookBotConfigView {
        enabled: false,
        bind_host: "127.0.0.1"@,
        port: 8787,
        endpoint_path: "/webhook/message"@,
        bearer_token: None,
        bearer_token_env: Some("KOKORO_WEBHOOK_TOKEN"@),
        send_voice_reply: false,
        character_id: None,
    }
}

impl Default for TelegramConfig {
    fn default() -> (config: Self)
        ensures
            config@ == default_telegram(),
    {
        TelegramConfig {
            enabled: false,
            bot_token: None,
            bot_token_env: Some("TELEGRAM_BOT_TOKEN".to_owned()),
            allowed_chat_ids: Vec::new(),
            send_voice_reply: false,
            character_id: None,
        }
    }
}

impl Default for QQBotConfig {
    fn default() -> (config: Self)
        ensures
            config@ == default_qq(),
    {
        let config = QQBotConfig {
            enabled: false,
            app_id: None,
            app_id_env: Some("QQ_APP_ID".to_owned()),
            app_secret: None,
            app_secret_env: Some("QQ_APP_SECRET".to_owned()),
            allowed_group_openids: Vec::new(),
            allowed_user_openids: Vec::new(),
        };
        assert(text::views(config.allowed_group_openids@) =~= Seq::empty());
        assert(text::views(config.allowed_user_openids@) =~= Seq::empty());
        config
    }
}

impl Default for DiscordBotConfig {
    fn default() -> (config: Self)
        ensures
            config@ == default_discord(),
    {
        let config = DiscordBotConfig {
            enabled: false,
            bot_token: None,
            bot_token_env: Some("DISCORD_BOT_TOKEN".to_owned()),
            allowed_channel_ids: Vec::new(),
            allow_direct_messages: true,
            send_voice_reply: false,
            character_id: None,
        };
        assert(text::views(config.allowed_channel_ids@) =~= Seq::empty());
        config
    }
}

impl Default for LineBotConfig {
    fn default() -> (config: Self)
        ensures
            config@ == default_line(),
    {
        let config = LineBotConfig {
            enabled: false,
            channel_access_token: None,
            channel_access_token_env: Some("LINE_CHANNEL_ACCESS_TOKEN".to_owned()),
            channel_secret: None,
            channel_secret_env: Some("LINE_CHANNEL_SECRET".to_owned()),
            webhook_path: "/line/webhook".to_owned(),
            allowed_user_ids: Vec::new(),
            character_id: None,
        };
        assert(text::views(config.allowed_user_ids@) =~= Seq::empty());
        config
    }
}

impl Default for WebhookBotConfig {
    fn default() -> (config: Self)
        ensures
            config@ == default_webhook(),
    {
        WebhookBotConfig {
            enabled: false,
            bind_host: "127.0.0.1".to_owned(),
            port: 8787,
            endpoint_path: "/webhook/message".to_owned(),
            bearer_token: None,
            bearer_token_env: Some("KOKORO_WEBHOOK_TOKEN".to_owned()),
            send_voice_reply: false,
            character_id: None,
        }
    }
}

impl Default for BotConfig {
    fn default() -> (config: Self)
        ensures
            config@ == (BotConfigView {
                revision: 0,
                selected_platform: "telegram"@,
                telegram: default_telegram(),
                qq: default_qq(),
                discord: default_discord(),
                line: default_line(),
                webhook: default_webhook(),
            }),
    {
        BotConfig {
            revision: 0,
            selected_platform: "telegram".to_owned(),
            telegram: TelegramConfig::default(),
            qq: QQBotConfig::default(),
            discord: DiscordBotConfig::default(),
            line: LineBotConfig::default(),
            webhook: WebhookBotConfig::default(),
        }
    }
}

fn copy_ids(ids: &Vec<i64>) -> (r: Vec<i64>)
    ensures
        r@ == ids@,
{
    let mut r: Vec<i64> = Vec::new();
    let mut i: usize = 0;
    while i < ids.len()
        invariant
            i <= ids.len(),
            r@ == ids@.take(i as int),
        decreases ids.len() - i,
    {
        r.push(ids[i]);
        assert(ids@.take(i + 1) =~= ids@.take(i as int).push(ids@[i as int]));
        i += 1;
    }
    assert(ids@.take(i as int) =~= ids@);
    r
}

impl TelegramConfig {
    pub fn copy(&self) -> (r: Self)
        ensures
            r@ == self@,
    {
        TelegramConfig {
            enabled: self.enabled,
            bot_token: copy_opt(&self.bot_token),
            bot_token_env: copy_opt(&self.bot_token_env),
            allowed_chat_ids: copy_ids(&self.allowed_chat_ids),
            send_voice_reply: self.send_voice_reply,
            character_id: copy_opt(&self.character_id),
        }
    }
}

impl BotConfig {
    pub fn copy(&self) -> (r: Self)
        ensures
            r@ == self@,
    {
        BotConfig {
            revision: self.revision,
            selected_platform: self.selected_platform.clone(),
            telegram: self.telegram.copy(),
            qq: QQBotConfig {
                enabled: self.qq.enabled,
                app_id: copy_opt(&self.qq.app_id),
                app_id_env: copy_opt(&self.qq.app_id_env),
                app_secret: copy_opt(&self.qq.app_secret),
                app_secret_env: copy_opt(&self.qq.app_secret_env),
                allowed_group_openids: copy_texts(&self.qq.allowed_group_openids),
                allowed_user_openids: copy_texts(&self.qq.allowed_user_openids),
            },
            discord: DiscordBotConfig {
                enabled: self.discord.enabled,
                bot_token: copy_opt(&self.discord.bot_token),
                bot_token_env: copy_opt(&self.discord.bot_token_env),
                allowed_channel_ids: copy_texts(&self.discord.allowed_channel_ids),
                allow_direct_messages: self.discord.allow_direct_messages,
                send_voice_reply: self.discord.send_voice_reply,
                character_id: copy_opt(&self.discord.character_id),
            },
            line: LineBotConfig {
                enabled: self.line.enabled,
                channel_access_token: copy_opt(&self.line.channel_access_token),
                channel_access_token_env: copy_opt(&self.line.channel_access_token_env),
                channel_secret: copy_opt(&self.line.channel_secret),
                channel_secret_env: copy_opt(&self.line.channel_secret_env),
                webhook_path: self.line.webhook_path.clone(),
                allowed_user_ids: copy_texts(&self.line.allowed_user_ids),
                character_id: copy_opt(&self.line.character_id),
            },
            webhook: WebhookBotConfig {
                enabled: self.webhook.enabled,
                bind_host: self.webhook.bind_host.clone(),
                port: self.webhook.port,
                endpoint_path: self.webhook.endpoint_path.clone(),
                bearer_token: copy_opt(&self.webhook.bearer_token),
                bearer_token_env: copy_opt(&self.webhook.bearer_token_env),
                send_voice_reply: self.webhook.send_voice_reply,
                character_id: copy_opt(&self.webhook.character_id),
            },
        }
    }
}

pub open spec fn given(v: Option<Seq<char>>) -> bool {
    match v {
        Some(s) => s.len() > 0,
        None => false,
    }
}

/// The user has set something up.
pub open spec fn has_user_values(config: TelegramConfigView) -> bool {
    config.enabled || given(config.bot_token) || config.allowed_chat_ids.len() > 0
        || config.send_voice_reply || given(config.character_id)
}

fn is_given(v: &Option<String>) -> (b: bool)
    ensures
        b == given(text::opt_view(*v)),
{
    match v {
        Some(s) => !s.as_str().is_empty(),
        None => false,
    }
}

pub fn telegram_config_has_user_values(config: &TelegramConfig) -> (b: bool)
    ensures
        b == has_user_values(config@),
{
    config.enabled || is_given(&config.bot_token) || config.allowed_chat_ids.len() > 0
        || config.send_voice_reply || is_given(&config.character_id)
}

/// The configuration with the environment variable that a bot token may come
/// from set to the fixed one.
pub open spec fn with_telegram_env(config: TelegramConfigView) -> TelegramConfigView {
    TelegramConfigView { bot_token_env: Some("TELEGRAM_BOT_TOKEN"@), ..config }
}

/// The configuration with every environment variable set to the fixed one.
pub open spec fn with_fixed_envs(config: BotConfigView) -> BotConfigView {
    BotConfigView {
        telegram: with_telegram_env(config.telegram),
        qq: QQBotConfigView {
            app_id_env: Some("QQ_APP_ID"@),
            app_secret_env: Some("QQ_APP_SECRET"@),
            ..config.qq
        },
        discord: DiscordBotConfigView {
            bot_token_env: Some("DISCORD_BOT_TOKEN"@),
            ..config.discord
        },
        line: LineBotConfigView {
            channel_access_token_env: Some("LINE_CHANNEL_ACCESS_TOKEN"@),
            channel_secret_env: Some("LINE_CHANNEL_SECRET"@),
            ..config.line
        },
        webhook: WebhookBotConfigView {
            bearer_token_env: Some("KOKORO_WEBHOOK_TOKEN"@),
            ..config.webhook
        },
        ..config
    }
}

pub fn normalize_telegram_config_env(config: TelegramConfig) -> (r: TelegramConfig)
    ensures
        r@ == with_telegram_env(config@),
{
    let mut config = config;
    config.bot_token_env = Some("TELEGRAM_BOT_TOKEN".to_owned());
    config
}

pub fn normalize_bot_config_envs(config: BotConfig) -> (r: BotConfig)
    ensures
        r@ == with_fixed_envs(config@),
{
    let mut config = config;
    config.telegram.bot_token_env = Some("TELEGRAM_BOT_TOKEN".to_owned());
    config.qq.app_id_env = Some("QQ_APP_ID".to_owned());
    config.qq.app_secret_env = Some("QQ_APP_SECRET".to_owned());
    config.discord.bot_token_env = Some("DISCORD_BOT_TOKEN".to_owned());
    config.line.channel_access_token_env = Some("LINE_CHANNEL_ACCESS_TOKEN".to_owned());
    config.line.channel_secret_env = Some("LINE_CHANNEL_SECRET".to_owned());
    config.webhook.bearer_token_env = Some("KOKORO_WEBHOOK_TOKEN".to_owned());
    config
}

/// Setting the environment variables twice is setting them once.
pub proof fn lemma_fixed_envs_idempotent(config: BotConfigView)
    ensures
        with_fixed_envs(with_fixed_envs(config)) == with_fixed_envs(config),
{
}

/// The default configuration already names the fixed environment variables.
pub proof fn lemma_default_envs_fixed(config: BotConfigView)
    requires
        config.telegram == default_telegram(),
        config.qq == default_qq(),
        config.discord == default_discord(),
        config.line == default_line(),
        config.webhook == default_webhook(),
    ensures
        with_fixed_envs(config) == config,
{
}

/// The legacy Telegram configuration is looked for where there is no bot
/// configuration file, or where its Telegram part holds nothing of the user's.
pub open spec fn wants_legacy(bot_file_exists: bool, config: BotConfigView) -> bool {
    !bot_file_exists || !has_user_values(config.telegram)
}

/// The configuration in effect, given what the two files hold, and whether its
/// Telegram part was taken over from the legacy file.
pub open spec fn loaded(
    bot_file_exists: bool,
    config: BotConfigView,
    legacy: Option<TelegramConfigView>,
) -> (BotConfigView, bool) {
    match legacy {
        Some(telegram) if wants_legacy(bot_file_exists, config) => (
            with_fixed_envs(BotConfigView { telegram, ..config }),
            true,
        ),
        _ => (with_fixed_envs(config), false),
    }
}

/// What was taken over and saved is found again: loading it, once the legacy file
/// is gone, gives the same configuration, and nothing is taken over a second time.
/// Values of the user in the bot configuration are never replaced.
pub proof fn lemma_loaded_again(
    bot_file_exists: bool,
    config: BotConfigView,
    legacy: Option<TelegramConfigView>,
)
    ensures
        loaded(true, loaded(bot_file_exists, config, legacy).0, None) == (
            loaded(bot_file_exists, config, legacy).0,
            false,
        ),
        bot_file_exists && has_user_values(config.telegram) ==> loaded(
            bot_file_exists,
            config,
            legacy,
        ) == (with_fixed_envs(config), false),
{
}

pub fn needs_legacy_telegram_config(bot_file_exists: bool, config: &BotConfig) -> (b: bool)
    ensures
        b == wants_legacy(bot_file_exists, config@),
{
    !bot_file_exists || !telegram_config_has_user_values(&config.telegram)
}

/// The bot configuration in effect, and whether the Telegram part was taken
/// over from `legacy` and is to be saved. `config` is what the bot
/// configuration file holds, `legacy` what the legacy file holds, if it is
/// there and could be read.
pub fn load_bot_config_from_paths(
    bot_file_exists: bool,
    config: BotConfig,
    legacy: Option<TelegramConfig>,
) -> (r: (BotConfig, bool))
    ensures
        (r.0@, r.1) == loaded(
            bot_file_exists,
            config@,
            match legacy {
                Some(telegram) => Some(telegram@),
                None => None,
            },
        ),
{
    let mut config = config;
    let mut migrated = false;
    if needs_legacy_telegram_config(bot_file_exists, &config) {
        if let Some(telegram) = legacy {
            config.telegram = telegram;
            migrated = true;
        }
    }
    (normalize_bot_config_envs(config), migrated)
}

/// One bot platform as the settings show it.
#[derive(Debug)]
pub struct BotPlatformStatus {
    pub enabled: bool,
    pub configured: bool,
    pub running: bool,
    pub connected: bool,
}

/// All bot platforms as the settings show them.
#[derive(Debug)]
pub struct BotStatus {
    pub telegram: BotPlatformStatus,
    pub qq: BotPlatformStatus,
    pub discord: BotPlatformStatus,
    pub line: BotPlatformStatus,
    pub webhook: BotPlatformStatus,
}

} // verus!
