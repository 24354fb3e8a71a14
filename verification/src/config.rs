//! Project configuration (`.orion/config.toml`) and what is derived from it.
//! Paths are Unix paths held as text.

use vstd::prelude::*;

use crate::text::{join_path, path_join, to_lowercase, unicode_lowercase};

verus! {

/// Name of the project directory.
pub const PROJECT_DIR: &'static str = ".orion";

/// Name of the configuration file inside the project directory.
pub const CONFIG_FILE: &'static str = "config.toml";

/// Agent identity.
#[derive(Debug, Clone, Default)]
pub struct IdentityConfig {
    pub name: Option<String>,
    pub emoji: Option<String>,
    pub soul: Option<String>,
}

impl IdentityConfig {
    /// The configured name, or `"Orion"`.
    pub fn display_name(&self) -> (s: &str)
        ensures
            s@ == match self.name {
                Some(n) => n@,
                None => "Orion"@,
            },
    {
        match &self.name {
            Some(n) => n.as_str(),
            None => "Orion",
        }
    }
}

/// The user the agent works for.
#[derive(Debug, Clone, Default)]
pub struct UserConfig {
    pub name: Option<String>,
    pub timezone: Option<String>,
}

/// Reasoning effort.
#[derive(Debug, Clone, Copy, PartialEq, Eq, Structural)]
pub enum ReasoningEffort {
    Low,
    Medium,
    High,
}

/// What happens to messages that arrive while the agent is busy.
#[derive(Debug, Clone, Copy, PartialEq, Eq, Structural)]
pub enum FollowupMode {
    Inject,
    Queue,
}

impl Default for FollowupMode {
    fn default() -> (m: FollowupMode)
        ensures
            m == FollowupMode::Inject,
    {
        FollowupMode::Inject
    }
}

/// Default of boolean flags that are on unless set.
pub fn default_true() -> (b: bool)
    ensures
        b,
{
    true
}

/// Settings of one LLM provider.
#[derive(Debug, Clone)]
pub struct ProviderConfig {
    pub enabled: bool,
    pub api_key: Option<String>,
    pub base_url: Option<String>,
    pub models: Vec<String>,
}

/// Settings of every supported provider.
#[derive(Debug, Clone, Default)]
pub struct ProvidersConfig {
    pub anthropic: Option<ProviderConfig>,
    pub openai: Option<ProviderConfig>,
    pub gemini: Option<ProviderConfig>,
    pub groq: Option<ProviderConfig>,
    pub deepseek: Option<ProviderConfig>,
    pub openrouter: Option<ProviderConfig>,
    pub ollama: Option<ProviderConfig>,
}

/// An allowed Telegram user: by numeric id or by username.
#[derive(Debug, Clone)]
pub enum AllowedUser {
    Id(u64),
    Username(String),
}

/// Telegram settings.
#[derive(Debug, Clone)]
pub struct TelegramConfig {
    pub bot_token: Option<String>,
    pub allowed_users: Vec<AllowedUser>,
    pub stream_mode: String,
}

/// Default stream mode of the Telegram bot.
pub fn default_stream_mode() -> (s: String)
    ensures
        s@ == "final_only"@,
{
    "final_only".to_owned()
}

impl Default for TelegramConfig {
    fn default() -> (c: TelegramConfig)
        ensures
            c.bot_token is None,
            c.allowed_users@.len() == 0,
            c.stream_mode@ == "final_only"@,
    {
        TelegramConfig { bot_token: None, allowed_users: Vec::new(), stream_mode: default_stream_mode() }
    }
}

/// Numeric ids among allowed users, in order.
pub open spec fn ids_of(us: Seq<AllowedUser>) -> Seq<u64>
    decreases us.len(),
{
    if us.len() == 0 {
        Seq::empty()
    } else {
        ids_of(us.drop_last()) + match us.last() {
            AllowedUser::Id(i) => seq![i],
            _ => Seq::empty(),
        }
    }
}

/// Lowercased usernames among allowed users, in order.
pub open spec fn usernames_of(us: Seq<AllowedUser>) -> Seq<Seq<char>>
    decreases us.len(),
{
    if us.len() == 0 {
        Seq::empty()
    } else {
        usernames_of(us.drop_last()) + match us.last() {
            AllowedUser::Username(n) => seq![unicode_lowercase(n@)],
            _ => Seq::empty(),
        }
    }
}

impl TelegramConfig {
    /// The allowed numeric user ids.
    pub fn allowed_user_ids(&self) -> (r: Vec<u64>)
        ensures
            r@ == ids_of(self.allowed_users@),
    {
        let mut r: Vec<u64> = Vec::new();
        let mut i: usize = 0;
        while i < self.allowed_users.len()
            invariant
                0 <= i <= self.allowed_users@.len(),
                r@ == ids_of(self.allowed_users@.take(i as int)),
            decreases self.allowed_users@.len() - i,
        {
            assert(self.allowed_users@.take(i + 1).drop_last() =~= self.allowed_users@.take(i as int));
            if let AllowedUser::Id(id) = &self.allowed_users[i] {
                r.push(*id);
            }
            assert(r@ =~= ids_of(self.allowed_users@.take(i + 1)));
            i += 1;
        }
        assert(self.allowed_users@.take(i as int) =~= self.allowed_users@);
        r
    }

    /// The allowed usernames, lowercased.
    pub fn allowed_usernames(&self) -> (r: Vec<String>)
        ensures
            r.deep_view() == usernames_of(self.allowed_users@),
    {
        let mut r: Vec<String> = Vec::new();
        let mut i: usize = 0;
        while i < self.allowed_users.len()
            invariant
                0 <= i <= self.allowed_users@.len(),
                r.deep_view() == usernames_of(self.allowed_users@.take(i as int)),
            decreases self.allowed_users@.len() - i,
        {
            assert(self.allowed_users@.take(i + 1).drop_last() =~= self.allowed_users@.take(i as int));
            if let AllowedUser::Username(n) = &self.allowed_users[i] {
                r.push(to_lowercase(n.as_str()));
            }
            assert(r.deep_view() =~= usernames_of(self.allowed_users@.take(i + 1)));
            i += 1;
        }
        assert(self.allowed_users@.take(i as int) =~= self.allowed_users@);
        r
    }
}

/// Default address of the HTTP server.
pub fn default_server_addr() -> (s: String)
    ensures
        s@ == "127.0.0.1:3000"@,
{
    "127.0.0.1:3000".to_owned()
}

/// Default provider.
pub fn default_provider() -> (s: String)
    ensures
        s@ == "anthropic"@,
{
    "anthropic".to_owned()
}

/// Default turn limit.
pub fn default_max_turns() -> (n: u32)
    ensures
        n == 30,
{
    30
}

/// The whole configuration.
#[derive(Debug, Clone)]
pub struct OrionConfig {
    pub data_dir: String,
    pub db_path: Option<String>,
    pub server_addr: String,
    pub provider: String,
    pub model: String,
    pub max_turns: u32,
    pub reasoning_effort: Option<ReasoningEffort>,
    pub identity: IdentityConfig,
    pub user: UserConfig,
    pub providers: ProvidersConfig,
    pub telegram: TelegramConfig,
    pub followup_mode: FollowupMode,
    pub instance_backend_url: Option<String>,
    pub project_root: String,
}

/// A value set in the configuration wins over one from the environment.
pub open spec fn config_or_env(config: Option<String>, env: Option<String>) -> Option<String> {
    match config {
        Some(v) => Some(v),
        None => env,
    }
}

impl OrionConfig {
    /// The defaults, with the given default model.
    pub fn with_defaults(model: String) -> (c: OrionConfig)
        ensures
            c.data_dir@.len() == 0,
            c.db_path is None,
            c.server_addr@ == "127.0.0.1:3000"@,
            c.provider@ == "anthropic"@,
            c.model == model,
            c.max_turns == 30,
            c.reasoning_effort is None,
            c.followup_mode == FollowupMode::Inject,
            c.telegram.bot_token is None,
            c.telegram.allowed_users@.len() == 0,
            c.telegram.stream_mode@ == "final_only"@,
            c.instance_backend_url is None,
            c.project_root@.len() == 0,
    {
        OrionConfig {
            data_dir: String::new(),
            db_path: None,
            server_addr: default_server_addr(),
            provider: default_provider(),
            model,
            max_turns: default_max_turns(),
            reasoning_effort: None,
            identity: IdentityConfig { name: None, emoji: None, soul: None },
            user: UserConfig { name: None, timezone: None },
            providers: ProvidersConfig {
                anthropic: None,
                openai: None,
                gemini: None,
                groq: None,
                deepseek: None,
                openrouter: None,
                ollama: None,
            },
            telegram: TelegramConfig::default(),
            followup_mode: FollowupMode::Inject,
            instance_backend_url: None,
            project_root: String::new(),
        }
    }

    /// The Anthropic API key: the configured one, else `ANTHROPIC_API_KEY`
    /// (read by the caller).
    pub fn resolved_api_key(&self, env_key: Option<String>) -> (r: Option<String>)
        ensures
            r == config_or_env(
                match self.providers.anthropic {
                    Some(p) => p.api_key,
                    None => None,
                },
                env_key,
            ),
    {
        match &self.providers.anthropic {
            Some(p) => match &p.api_key {
                Some(k) => Some(k.clone()),
                None => env_key,
            },
            None => env_key,
        }
    }

    /// The Telegram token: configured, else `TELEGRAM_BOT_TOKEN`.
    pub fn resolved_telegram_token(&self, env_token: Option<String>) -> (r: Option<String>)
        ensures
            r == config_or_env(self.telegram.bot_token, env_token),
    {
        match &self.telegram.bot_token {
            Some(t) => Some(t.clone()),
            None => env_token,
        }
    }

    /// The instance backend URL: configured, else `ORION_INSTANCE_BACKEND_URL`.
    pub fn resolved_instance_backend_url(&self, env_url: Option<String>) -> (r: Option<String>)
        ensures
            r == config_or_env(self.instance_backend_url, env_url),
    {
        match &self.instance_backend_url {
            Some(u) => Some(u.clone()),
            None => env_url,
        }
    }

    /// Allowed Telegram user ids.
    pub fn resolved_telegram_allowed_user_ids(&self) -> (r: Vec<u64>)
        ensures
            r@ == ids_of(self.telegram.allowed_users@),
    {
        self.telegram.allowed_user_ids()
    }

    /// Allowed Telegram usernames, lowercased.
    pub fn resolved_telegram_allowed_usernames(&self) -> (r: Vec<String>)
        ensures
            r.deep_view() == usernames_of(self.telegram.allowed_users@),
    {
        self.telegram.allowed_usernames()
    }

    /// The database path: `db_path` when set, else `<data_dir>/memory.db`.
    pub fn resolved_db_path(&self) -> (p: String)
        ensures
            p@ == match self.db_path {
                Some(d) => d@,
                None => path_join(self.data_dir@, "memory.db"@),
            },
    {
        match &self.db_path {
            Some(d) => d.clone(),
            None => join_path(self.data_dir.as_str(), "memory.db"),
        }
    }

    /// The `.orion/` directory of the project.
    pub fn orion_dir(&self) -> (p: String)
        ensures
            p@ == path_join(self.project_root@, PROJECT_DIR@),
    {
        join_path(self.project_root.as_str(), PROJECT_DIR)
    }

    /// Where data lives once the project root is known: `.orion/data` when
    /// unset, relative paths taken from the project root.
    pub fn resolve_data_dir(&mut self, project_root: String)
        ensures
            final(self).project_root == project_root,
            final(self).data_dir@ == if old(self).data_dir@.len() == 0 {
                path_join(path_join(project_root@, PROJECT_DIR@), "data"@)
            } else if old(self).data_dir@[0] != '/' {
                path_join(project_root@, old(self).data_dir@)
            } else {
                old(self).data_dir@
            },
    {
        let dd = crate::text::chars_of(self.data_dir.as_str());
        if dd.len() == 0 {
            let o = join_path(project_root.as_str(), PROJECT_DIR);
            self.data_dir = join_path(o.as_str(), "data");
        } else if dd[0] != '/' {
            self.data_dir = join_path(project_root.as_str(), self.data_dir.as_str());
        }
        self.project_root = project_root;
    }
}

} // verus!
