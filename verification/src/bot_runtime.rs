//! Which bot platforms run, and how their configuration changes while they do.

use vstd::prelude::*;
use crate::bot_config::{
    BotConfig, BotConfigView, BotPlatformStatus, BotStatus,
    QQBotConfigView, TelegramConfig,
};
use crate::text;
use crate::text::{concat2, contains_entry, is_blank, same_text, to_chars, trim_text};

verus! {

broadcast use vstd::string::group_string_axioms;

/// The bots that run, with the configuration that they run under.
pub struct BotRuntimeService {
    config: BotConfig,
    qq_runtime: Option<u64>,
    qq_runtime_generation: u64,
    qq_connected_generation: u64,
    discord_running: bool,
    http_running: bool,
}

/// The view of the runtime: `qq_runtime` is the id of the QQ connection that
/// was started, `qq_connected` the id of the one that reported itself
/// connected.
pub ghost struct RuntimeView {
    pub config: BotConfigView,
    pub qq_runtime: Option<u64>,
    pub qq_generation: u64,
    pub qq_connected: u64,
    pub discord_running: bool,
    pub http_running: bool,
}

impl View for BotRuntimeService {
    type V = RuntimeView;

    closed spec fn view(&self) -> RuntimeView {
        RuntimeView {
            config: self.config@,
            qq_runtime: self.qq_runtime,
            qq_generation: self.qq_runtime_generation,
            qq_connected: self.qq_connected_generation,
            discord_running: self.discord_running,
            http_running: self.http_running,
        }
    }
}

/// The runtime that serves a platform.
#[derive(Debug, Clone, Copy, PartialEq, Eq, Structural)]
pub enum PlatformRuntime {
    Qq,
    Discord,
    Http,
}

/// The runtime of the platform named `platform`.
pub open spec fn runtime_of(platform: Seq<char>) -> Option<PlatformRuntime> {
    if platform == "qq"@ {
        Some(PlatformRuntime::Qq)
    } else if platform == "discord"@ {
        Some(PlatformRuntime::Discord)
    } else if platform == "line"@ || platform == "webhook"@ {
        Some(PlatformRuntime::Http)
    } else {
        None
    }
}

pub fn platform_runtime(platform: &str) -> (r: Result<PlatformRuntime, String>)
    ensures
        match r {
            Ok(runtime) => runtime_of(platform@) == Some(runtime),
            Err(error) => runtime_of(platform@) is None && error@
                == "Unsupported bot platform runtime: "@ + platform@,
        },
{
    if same_text(platform, "qq") {
        Ok(PlatformRuntime::Qq)
    } else if same_text(platform, "discord") {
        Ok(PlatformRuntime::Discord)
    } else if same_text(platform, "line") || same_text(platform, "webhook") {
        Ok(PlatformRuntime::Http)
    } else {
        Err(concat2("Unsupported bot platform runtime: ", platform))
    }
}

/// A number one higher, unless it is the highest.
pub open spec fn bumped(revision: u64) -> u64 {
    if revision == u64::MAX {
        u64::MAX
    } else {
        (revision + 1) as u64
    }
}

/// The secrets that are at hand, in the configuration or in the environment.
#[derive(Debug, Clone, Copy)]
pub struct KnownSecrets {
    pub telegram_token: bool,
    pub qq_app_id: bool,
    pub qq_app_secret: bool,
    pub discord_token: bool,
    pub line_access_token: bool,
    pub line_secret: bool,
}

/// A QQ user's request to talk to the bot, as the answer to it names it.
#[derive(Debug)]
pub struct QqAuthorization {
    pub request_id: String,
    pub user_openid: String,
    pub group_openid: Option<String>,
}

/// What an answer to a QQ authorization request comes to. `persist` is the
/// configuration to save, where the answer changes it.
#[derive(Debug)]
pub struct QqResponse {
    pub persist: Option<BotConfig>,
    pub revision: u64,
    pub approved_user_openid: Option<String>,
    pub approved_group_openid: Option<String>,
}

/// A character of an OpenID.
pub open spec fn openid_char(c: char) -> bool {
    '0' <= c <= '9' || 'a' <= c <= 'z' || 'A' <= c <= 'Z' || c == '_' || c == '-'
}

pub open spec fn openid_chars(s: Seq<char>) -> bool {
    forall|i: int| 0 <= i < s.len() ==> openid_char(#[trigger] s[i])
}

/// At most 128 characters that an OpenID may hold.
pub open spec fn openid(s: Seq<char>) -> bool {
    vstd::utf8::encode_utf8(s).len() <= 128 && openid_chars(s)
}

/// The trimmed text, where something is left of it.
pub open spec fn some_trimmed(v: Option<Seq<char>>) -> Option<Seq<char>> {
    match v {
        Some(s) => if text::blank(s) {
            None
        } else {
            Some(text::trim(s))
        },
        None => None,
    }
}

/// What is wrong with the names in an answer, if anything.
pub open spec fn authorization_fault(
    request_id: Seq<char>,
    user_openid: Seq<char>,
    group_openid: Option<Seq<char>>,
) -> Option<Seq<char>> {
    if text::blank(request_id) || vstd::utf8::encode_utf8(text::trim(request_id)).len() > 256 {
        Some("invalid QQ authorization request ID"@)
    } else if text::blank(user_openid) || !openid(text::trim(user_openid)) {
        Some("invalid QQ user OpenID"@)
    } else if some_trimmed(group_openid) matches Some(group) && !openid(group) {
        Some("invalid QQ group OpenID"@)
    } else {
        None
    }
}

fn is_openid(s: &str) -> (b: bool)
    ensures
        b == openid(s@),
{
    if s.as_bytes().len() > 128 {
        return false;
    }
    let chars = to_chars(s);
    let mut i: usize = 0;
    while i < chars.len()
        invariant
            i <= chars.len(),
            chars@ == s@,
            forall|k: int| 0 <= k < i ==> openid_char(#[trigger] s@[k]),
        decreases chars.len() - i,
    {
        let c = chars[i];
        if !(('0' <= c && c <= '9') || ('a' <= c && c <= 'z') || ('A' <= c && c <= 'Z') || c == '_'
            || c == '-') {
            assert(!openid_char(s@[i as int]));
            return false;
        }
        i += 1;
    }
    true
}

impl QqAuthorization {
    /// The request with its names trimmed and checked.
    pub fn new(request_id: &str, user_openid: &str, group_openid: Option<&str>) -> (r: Result<
        QqAuthorization,
        String,
    >)
        ensures
            match r {
                Ok(request) => {
                    &&& authorization_fault(
                        request_id@,
                        user_openid@,
                        text::opt_str(group_openid),
                    ) is None
                    &&& request.request_id@ == text::trim(request_id@)
                    &&& request.user_openid@ == text::trim(user_openid@)
                    &&& text::opt_view(request.group_openid) == some_trimmed(text::opt_str(group_openid))
                },
                Err(error) => authorization_fault(request_id@, user_openid@, text::opt_str(group_openid))
                    == Some(error@),
            },
    {
        let request_id = trim_text(request_id);
        let user_openid = trim_text(user_openid);
        if request_id.as_str().is_empty() || request_id.as_str().as_bytes().len() > 256 {
            return Err("invalid QQ authorization request ID".to_owned());
        }
        if user_openid.as_str().is_empty() || !is_openid(user_openid.as_str()) {
            return Err("invalid QQ user OpenID".to_owned());
        }
        let group_openid = match group_openid {
            Some(group) => {
                let group = trim_text(group);
                if group.as_str().is_empty() {
                    None
                } else {
                    Some(group)
                }
            },
            None => None,
        };
        if let Some(group) = &group_openid {
            if !is_openid(group.as_str()) {
                return Err("invalid QQ group OpenID".to_owned());
            }
        }
        Ok(QqAuthorization { request_id, user_openid, group_openid })
    }
}

/// `list` with `entry` at its end, unless it is in it.
pub open spec fn with_entry(list: Seq<Seq<char>>, entry: Seq<char>) -> Seq<Seq<char>> {
    if list.contains(entry) {
        list
    } else {
        list.push(entry)
    }
}

/// The QQ configuration once a request is approved: a group request lets the
/// group in, and the user too where users are listed; a private request lets
/// the user in.
pub open spec fn with_approved(
    config: QQBotConfigView,
    user: Seq<char>,
    group: Option<Seq<char>>,
) -> QQBotConfigView {
    match group {
        Some(group) => QQBotConfigView {
            allowed_group_openids: with_entry(config.allowed_group_openids, group),
            allowed_user_openids: if config.allowed_user_openids.len() > 0 {
                with_entry(config.allowed_user_openids, user)
            } else {
                config.allowed_user_openids
            },
            ..config
        },
        None => QQBotConfigView {
            allowed_user_openids: with_entry(config.allowed_user_openids, user),
            ..config
        },
    }
}

/// The user whom an approval lets in by name.
pub open spec fn approved_user(
    config: QQBotConfigView,
    user: Seq<char>,
    group: Option<Seq<char>>,
) -> Option<Seq<char>> {
    if group is None || config.allowed_user_openids.len() > 0 {
        Some(user)
    } else {
        None
    }
}

/// The whole configuration once a request is approved; the revision counts on
/// where something changed.
pub open spec fn approved_config(
    config: BotConfigView,
    user: Seq<char>,
    group: Option<Seq<char>>,
) -> BotConfigView {
    let qq = with_approved(config.qq, user, group);
    if qq == config.qq {
        config
    } else {
        BotConfigView { qq, revision: bumped(config.revision), ..config }
    }
}

/// A configuration may replace the current one where it was made from it.
pub open spec fn accepts_save(current: BotConfigView, config: BotConfigView) -> bool {
    config.revision == current.revision
}

/// The configuration that replaces the current one.
pub open spec fn saved_config(current: BotConfigView, config: BotConfigView) -> BotConfigView {
    BotConfigView { revision: bumped(current.revision), ..config }
}

fn add_entry(list: &mut Vec<String>, entry: &str) -> (added: bool)
    ensures
        text::views(final(list)@) == with_entry(text::views(old(list)@), entry@),
        added == (text::views(final(list)@) != text::views(old(list)@)),
{
    if contains_entry(list, entry) {
        false
    } else {
        list.push(entry.to_owned());
        proof {
            assert(text::views(list@) =~= text::views(old(list)@).push(entry@));
            assert(text::views(list@).len() != text::views(old(list)@).len());
        }
        true
    }
}

impl BotRuntimeService {
    /// Nothing runs yet.
    pub fn new(config: BotConfig) -> (r: Self)
        ensures
            r@ == (RuntimeView {
                config: config@,
                qq_runtime: None,
                qq_generation: 0,
                qq_connected: 0,
                discord_running: false,
                http_running: false,
            }),
    {
        BotRuntimeService {
            config,
            qq_runtime: None,
            qq_runtime_generation: 0,
            qq_connected_generation: 0,
            discord_running: false,
            http_running: false,
        }
    }

    /// Takes over a configuration that was saved.
    pub fn update_config(&mut self, config: BotConfig)
        ensures
            final(self)@ == (RuntimeView { config: config@, ..old(self)@ }),
    {
        self.config = config;
    }

    pub fn current_config(&self) -> (config: BotConfig)
        ensures
            config@ == self@.config,
    {
        self.config.copy()
    }

    /// The configuration to save when `config` is to replace the current one:
    /// `config` under the next revision. It is refused where it was made from
    /// another revision than the current one. Once it is saved,
    /// `update_config` takes it over.
    pub fn save_config(&self, config: BotConfig) -> (r: Result<BotConfig, String>)
        ensures
            match r {
                Ok(next) => {
                    &&& accepts_save(self@.config, config@)
                    &&& next@ == saved_config(self@.config, config@)
                },
                Err(error) => {
                    &&& !accepts_save(self@.config, config@)
                    &&& error@ == "Bot configuration changed; reload settings before saving"@
                },
            },
    {
        if config.revision != self.config.revision {
            return Err("Bot configuration changed; reload settings before saving".to_owned());
        }
        let mut config = config;
        config.revision = self.config.revision.saturating_add(1);
        Ok(config)
    }

    /// The answer to a QQ authorization request. `pending` says whether the
    /// request still waits for one.
    pub fn respond_to_qq_authorization(
        &self,
        request: &QqAuthorization,
        pending: bool,
        approved: bool,
    ) -> (r: Result<QqResponse, String>)
        ensures
            match r {
                Ok(response) => {
                    let user = request.user_openid@;
                    let group = text::opt_view(request.group_openid);
                    let next = approved_config(self@.config, user, group);
                    &&& pending
                    &&& approved ==> {
                        &&& response.revision == next.revision
                        &&& text::opt_view(response.approved_user_openid) == approved_user(
                            self@.config.qq,
                            user,
                            group,
                        )
                        &&& text::opt_view(response.approved_group_openid) == group
                        &&& match response.persist {
                            Some(config) => config@ == next && next.qq != self@.config.qq,
                            None => next == self@.config,
                        }
                    }
                    &&& !approved ==> {
                        &&& response.revision == self@.config.revision
                        &&& response.approved_user_openid is None
                        &&& response.approved_group_openid is None
                        &&& response.persist is None
                    }
                },
                Err(error) => !pending && error@
                    == "QQ authorization request is no longer pending"@,
            },
    {
        if !pending {
            return Err("QQ authorization request is no longer pending".to_owned());
        }
        if !approved {
            return Ok(
                QqResponse {
                    persist: None,
                    revision: self.config.revision,
                    approved_user_openid: None,
                    approved_group_openid: None,
                },
            );
        }
        let ghost user = request.user_openid@;
        let ghost group = text::opt_view(request.group_openid);
        let mut next = self.config.copy();
        let mut changed = false;
        let mut approved_user_openid: Option<String> = None;
        let mut approved_group_openid: Option<String> = None;
        let list_user = match &request.group_openid {
            Some(group) => {
                approved_group_openid = Some(group.clone());
                changed = add_entry(&mut next.qq.allowed_group_openids, group.as_str());
                next.qq.allowed_user_openids.len() > 0
            },
            None => true,
        };
        if list_user {
            approved_user_openid = Some(request.user_openid.clone());
            let added = add_entry(
                &mut next.qq.allowed_user_openids,
                request.user_openid.as_str(),
            );
            changed = changed || added;
        }
        assert(next@.qq == with_approved(self@.config.qq, user, group));
        assert(changed == (next@.qq != self@.config.qq));
        if changed {
            next.revision = self.config.revision.saturating_add(1);
            let revision = next.revision;
            Ok(
                QqResponse {
                    persist: Some(next),
                    revision,
                    approved_user_openid,
                    approved_group_openid,
                },
            )
        } else {
            Ok(
                QqResponse {
                    persist: None,
                    revision: self.config.revision,
                    approved_user_openid,
                    approved_group_openid,
                },
            )
        }
    }

    pub fn is_discord_running(&self) -> (b: bool)
        ensures
            b == self@.discord_running,
    {
        self.discord_running
    }

    pub fn is_qq_started(&self) -> (b: bool)
        ensures
            b == (self@.qq_runtime is Some),
    {
        self.qq_runtime.is_some()
    }

    pub fn is_qq_connected(&self) -> (b: bool)
        ensures
            b == (self@.qq_runtime == Some(self@.qq_connected)),
    {
        match self.qq_runtime {
            Some(id) => id == self.qq_connected_generation,
            None => false,
        }
    }

    pub fn is_http_running(&self) -> (b: bool)
        ensures
            b == self@.http_running,
    {
        self.http_running
    }

    /// The runtimes to start with the application, in this order: QQ, Discord
    /// and the HTTP server, each where a platform that it serves is enabled.
    pub fn start_enabled(&self) -> (r: (bool, bool, bool))
        ensures
            r.0 == self@.config.qq.enabled,
            r.1 == self@.config.discord.enabled,
            r.2 == (self@.config.line.enabled || self@.config.webhook.enabled),
    {
        (
            self.config.qq.enabled,
            self.config.discord.enabled,
            self.config.line.enabled || self.config.webhook.enabled,
        )
    }

    /// Starts the QQ runtime; returns the id of the new connection.
    pub fn start_qq(&mut self, secrets: KnownSecrets) -> (r: Result<u64, String>)
        ensures
            match r {
                Ok(id) => {
                    &&& qq_start_fault(old(self)@, secrets) is None
                    &&& id == bumped(old(self)@.qq_generation)
                    &&& final(self)@ == with_qq_started(old(self)@)
                },
                Err(error) => {
                    &&& qq_start_fault(old(self)@, secrets) == Some(error@)
                    &&& final(self)@ == old(self)@
                },
            },
    {
        if !self.config.qq.enabled {
            return Err("QQ bot is not enabled".to_owned());
        }
        if !secrets.qq_app_id {
            return Err("No QQ AppID configured".to_owned());
        }
        if !secrets.qq_app_secret {
            return Err("No QQ AppSecret configured".to_owned());
        }
        if self.qq_runtime.is_some() {
            return Err("QQ bot is already running or connecting".to_owned());
        }
        let id = self.qq_runtime_generation.saturating_add(1);
        self.qq_runtime_generation = self.qq_runtime_generation.wrapping_add(1);
        self.qq_runtime = Some(id);
        Ok(id)
    }

    /// The QQ connection `id` reports that it is up.
    pub fn qq_connected(&mut self, id: u64)
        ensures
            final(self)@ == (RuntimeView { qq_connected: id, ..old(self)@ }),
    {
        self.qq_connected_generation = id;
    }

    /// The QQ connection `id` has ended. A connection that was started after
    /// it is left alone.
    pub fn qq_finished(&mut self, id: u64)
        ensures
            final(self)@ == with_qq_ended(old(self)@, id),
    {
        if self.qq_connected_generation == id {
            self.qq_connected_generation = 0;
        }
        if let Some(current) = self.qq_runtime {
            if current == id {
                self.qq_runtime = None;
            }
        }
    }

    /// Stops the QQ runtime; returns the id of the connection to shut down.
    pub fn stop_qq(&mut self) -> (r: Result<u64, String>)
        ensures
            match r {
                Ok(id) => {
                    &&& old(self)@.qq_runtime == Some(id)
                    &&& final(self)@ == (RuntimeView { qq_runtime: None, ..old(self)@ })
                },
                Err(error) => {
                    &&& old(self)@.qq_runtime is None
                    &&& error@ == "QQ bot is not running"@
                    &&& final(self)@ == old(self)@
                },
            },
    {
        match self.qq_runtime {
            Some(id) => {
                self.qq_runtime = None;
                Ok(id)
            },
            None => Err("QQ bot is not running".to_owned()),
        }
    }

    /// Starts the Discord runtime with the bot token `token`.
    pub fn start_discord(&mut self, token: Option<String>) -> (r: Result<String, String>)
        ensures
            match r {
                Ok(token_in_use) => {
                    &&& discord_start_fault(old(self)@, token is Some) is None
                    &&& text::opt_view(token) == Some(token_in_use@)
                    &&& final(self)@ == (RuntimeView { discord_running: true, ..old(self)@ })
                },
                Err(error) => {
                    &&& discord_start_fault(old(self)@, token is Some) == Some(error@)
                    &&& final(self)@ == old(self)@
                },
            },
    {
        if self.discord_running {
            return Err("Discord bot is already running".to_owned());
        }
        if !self.config.discord.enabled {
            return Err("Discord bot is not enabled".to_owned());
        }
        match token {
            Some(token) => {
                self.discord_running = true;
                Ok(token)
            },
            None => Err("No Discord bot token configured".to_owned()),
        }
    }

    /// Stops the Discord runtime.
    pub fn stop_discord(&mut self) -> (r: Result<(), String>)
        ensures
            match r {
                Ok(_) => {
                    &&& old(self)@.discord_running
                    &&& final(self)@ == (RuntimeView { discord_running: false, ..old(self)@ })
                },
                Err(error) => {
                    &&& !old(self)@.discord_running
                    &&& error@ == "Discord bot is not running"@
                    &&& final(self)@ == old(self)@
                },
            },
    {
        if self.discord_running {
            self.discord_running = false;
            Ok(())
        } else {
            Err("Discord bot is not running".to_owned())
        }
    }

    /// The Discord gateway has ended.
    pub fn discord_finished(&mut self)
        ensures
            final(self)@ == (RuntimeView { discord_running: false, ..old(self)@ }),
    {
        self.discord_running = false;
    }

    /// Starts the HTTP server. `host` is the error that reading the bind
    /// address gave, if it gave one.
    pub fn start_http(&mut self, host_error: Option<&str>) -> (r: Result<u16, String>)
        ensures
            match r {
                Ok(port) => {
                    &&& http_start_fault(old(self)@, text::opt_str(host_error)) is None
                    &&& port == old(self)@.config.webhook.port
                    &&& final(self)@ == (RuntimeView { http_running: true, ..old(self)@ })
                },
                Err(error) => {
                    &&& http_start_fault(old(self)@, text::opt_str(host_error)) == Some(error@)
                    &&& final(self)@ == old(self)@
                },
            },
    {
        if self.http_running {
            return Err("Bot HTTP server is already running".to_owned());
        }
        if !self.config.line.enabled && !self.config.webhook.enabled {
            return Err("LINE and Webhook bots are not enabled".to_owned());
        }
        if let Some(error) = host_error {
            return Err(concat2("Invalid bind host: ", error));
        }
        self.http_running = true;
        Ok(self.config.webhook.port)
    }

    /// Stops the HTTP server.
    pub fn stop_http(&mut self) -> (r: Result<(), String>)
        ensures
            match r {
                Ok(_) => {
                    &&& old(self)@.http_running
                    &&& final(self)@ == (RuntimeView { http_running: false, ..old(self)@ })
                },
                Err(error) => {
                    &&& !old(self)@.http_running
                    &&& error@ == "Bot HTTP server is not running"@
                    &&& final(self)@ == old(self)@
                },
            },
    {
        if self.http_running {
            self.http_running = false;
            Ok(())
        } else {
            Err("Bot HTTP server is not running".to_owned())
        }
    }

    /// The HTTP server has ended.
    pub fn http_finished(&mut self)
        ensures
            final(self)@ == (RuntimeView { http_running: false, ..old(self)@ }),
    {
        self.http_running = false;
    }

    /// The platforms as the settings show them. `telegram` is the
    /// configuration that the Telegram bot runs under.
    pub fn get_bot_status(
        &self,
        telegram: &TelegramConfig,
        telegram_running: bool,
        secrets: KnownSecrets,
    ) -> (status: BotStatus)
        ensures
            status == status_of(self@, telegram.enabled, telegram_running, secrets),
    {
        let http = self.http_running;
        BotStatus {
            telegram: BotPlatformStatus {
                enabled: telegram.enabled,
                configured: secrets.telegram_token,
                running: telegram_running,
                connected: telegram_running,
            },
            qq: BotPlatformStatus {
                enabled: self.config.qq.enabled,
                configured: secrets.qq_app_id && secrets.qq_app_secret,
                running: self.is_qq_started(),
                connected: self.is_qq_connected(),
            },
            discord: BotPlatformStatus {
                enabled: self.config.discord.enabled,
                configured: secrets.discord_token,
                running: self.discord_running,
                connected: self.discord_running,
            },
            line: BotPlatformStatus {
                enabled: self.config.line.enabled,
                configured: secrets.line_access_token && secrets.line_secret,
                running: http && self.config.line.enabled,
                connected: http && self.config.line.enabled,
            },
            webhook: BotPlatformStatus {
                enabled: self.config.webhook.enabled,
                configured: !is_blank(self.config.webhook.endpoint_path.as_str()),
                running: http && self.config.webhook.enabled,
                connected: http && self.config.webhook.enabled,
            },
        }
    }
}

/// The runtimes after a QQ connection was started.
pub open spec fn with_qq_started(runtime: RuntimeView) -> RuntimeView {
    RuntimeView {
        qq_runtime: Some(bumped(runtime.qq_generation)),
        qq_generation: runtime.qq_generation.wrapping_add(1),
        ..runtime
    }
}

/// The runtimes after the QQ connection `id` has ended.
pub open spec fn with_qq_ended(runtime: RuntimeView, id: u64) -> RuntimeView {
    RuntimeView {
        qq_connected: if runtime.qq_connected == id {
            0
        } else {
            runtime.qq_connected
        },
        qq_runtime: if runtime.qq_runtime == Some(id) {
            None
        } else {
            runtime.qq_runtime
        },
        ..runtime
    }
}

/// A connection that ends late does not stop the one that was started after it:
/// their ids differ. (They would not where the counter has run out.)
pub proof fn lemma_new_connection_stays(runtime: RuntimeView, earlier: u64)
    requires
        runtime.qq_generation < u64::MAX,
        earlier <= runtime.qq_generation,
    ensures
        with_qq_ended(with_qq_started(runtime), earlier).qq_runtime == with_qq_started(
            runtime,
        ).qq_runtime,
        with_qq_started(runtime).qq_runtime is Some,
{
}

/// A platform that runs is not started a second time.
pub proof fn lemma_started_once(
    runtime: RuntimeView,
    secrets: KnownSecrets,
    token_known: bool,
    host_error: Option<Seq<char>>,
)
    ensures
        qq_start_fault(with_qq_started(runtime), secrets) is Some,
        discord_start_fault(
            (RuntimeView { discord_running: true, ..runtime }),
            token_known,
        ) is Some,
        http_start_fault((RuntimeView { http_running: true, ..runtime }), host_error) is Some,
{
}

/// Why the QQ runtime cannot be started, if it cannot.
pub open spec fn qq_start_fault(runtime: RuntimeView, secrets: KnownSecrets) -> Option<Seq<char>> {
    if !runtime.config.qq.enabled {
        Some("QQ bot is not enabled"@)
    } else if !secrets.qq_app_id {
        Some("No QQ AppID configured"@)
    } else if !secrets.qq_app_secret {
        Some("No QQ AppSecret configured"@)
    } else if runtime.qq_runtime is Some {
        Some("QQ bot is already running or connecting"@)
    } else {
        None
    }
}

/// Why the Discord runtime cannot be started, if it cannot.
pub open spec fn discord_start_fault(runtime: RuntimeView, token_known: bool) -> Option<Seq<char>> {
    if runtime.discord_running {
        Some("Discord bot is already running"@)
    } else if !runtime.config.discord.enabled {
        Some("Discord bot is not enabled"@)
    } else if !token_known {
        Some("No Discord bot token configured"@)
    } else {
        None
    }
}

/// Why the HTTP server cannot be started, if it cannot.
pub open spec fn http_start_fault(
    runtime: RuntimeView,
    host_error: Option<Seq<char>>,
) -> Option<Seq<char>> {
    if runtime.http_running {
        Some("Bot HTTP server is already running"@)
    } else if !runtime.config.line.enabled && !runtime.config.webhook.enabled {
        Some("LINE and Webhook bots are not enabled"@)
    } else {
        match host_error {
            Some(error) => Some("Invalid bind host: "@ + error),
            None => None,
        }
    }
}

pub open spec fn platform_status(
    enabled: bool,
    configured: bool,
    running: bool,
    connected: bool,
) -> BotPlatformStatus {
    BotPlatformStatus { enabled, configured, running, connected }
}

/// The platforms as the settings show them.
pub open spec fn status_of(
    runtime: RuntimeView,
    telegram_enabled: bool,
    telegram_running: bool,
    secrets: KnownSecrets,
) -> BotStatus {
    let config = runtime.config;
    let line = runtime.http_running && config.line.enabled;
    let webhook = runtime.http_running && config.webhook.enabled;
    BotStatus {
        telegram: platform_status(
            telegram_enabled,
            secrets.telegram_token,
            telegram_running,
            telegram_running,
        ),
        qq: platform_status(
            config.qq.enabled,
            secrets.qq_app_id && secrets.qq_app_secret,
            runtime.qq_runtime is Some,
            runtime.qq_runtime == Some(runtime.qq_connected),
        ),
        discord: platform_status(
            config.discord.enabled,
            secrets.discord_token,
            runtime.discord_running,
            runtime.discord_running,
        ),
        line: platform_status(
            config.line.enabled,
            secrets.line_access_token && secrets.line_secret,
            line,
            line,
        ),
        webhook: platform_status(
            config.webhook.enabled,
            !text::blank(config.webhook.endpoint_path),
            webhook,
            webhook,
        ),
    }
}

/// A configuration that was made from one that has been replaced since is never
/// saved: after a save, what was made from the configuration before it is
/// refused. This is so as long as the revisions do not run out.
pub proof fn lemma_stale_save_refused(
    current: BotConfigView,
    config: BotConfigView,
    stale: BotConfigView,
)
    requires
        accepts_save(current, config),
        accepts_save(current, stale),
        current.revision < u64::MAX,
    ensures
        !accepts_save(saved_config(current, config), stale),
        accepts_save(saved_config(current, config), saved_config(current, config)),
{
}

/// Approving the same request again changes nothing.
pub proof fn lemma_approval_idempotent(
    config: BotConfigView,
    user: Seq<char>,
    group: Option<Seq<char>>,
)
    ensures
        approved_config(approved_config(config, user, group), user, group) == approved_config(
            config,
            user,
            group,
        ),
{
    let once = with_approved(config.qq, user, group);
    let users = config.qq.allowed_user_openids;
    lemma_with_entry(users, user);
    if let Some(g) = group {
        lemma_with_entry(config.qq.allowed_group_openids, g);
    }
    assert(with_approved(once, user, group) == once);
}

/// An entry that was added is in the list.
proof fn lemma_with_entry(list: Seq<Seq<char>>, entry: Seq<char>)
    ensures
        with_entry(list, entry).contains(entry),
        with_entry(list, entry).len() >= list.len(),
        with_entry(with_entry(list, entry), entry) == with_entry(list, entry),
{
    if !list.contains(entry) {
        assert(list.push(entry)[list.len() as int] == entry);
    }
}

/// An approved request lets its sender in: the group of a group request, the
/// user of a private one, and the user of a group request where users are
/// listed at all.
pub proof fn lemma_approval_admits(
    config: BotConfigView,
    user: Seq<char>,
    group: Option<Seq<char>>,
)
    ensures
        group matches Some(g) ==> approved_config(
            config,
            user,
            group,
        ).qq.allowed_group_openids.contains(g),
        approved_user(config.qq, user, group) is Some ==> approved_config(
            config,
            user,
            group,
        ).qq.allowed_user_openids.contains(user),
{
    lemma_with_entry(config.qq.allowed_user_openids, user);
    if let Some(g) = group {
        lemma_with_entry(config.qq.allowed_group_openids, g);
    }
}

} // verus!
