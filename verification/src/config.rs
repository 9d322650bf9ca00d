//! Typed configuration for the runtime, with its documented defaults.

use vstd::prelude::*;

verus! {

/// How direct messages map to sessions.
#[derive(Clone, Copy, Debug, PartialEq, Eq, Structural)]
pub enum DmScope {
    Main,
    PerChannelPeer,
}

impl Default for DmScope {
    fn default() -> (r: Self)
        ensures
            r == DmScope::Main,
    {
        DmScope::Main
    }
}

/// When a session is reset automatically.
#[derive(Clone, Copy, Debug, PartialEq, Eq, Structural)]
pub enum ResetMode {
    Daily,
    Idle,
    Both,
}

impl Default for ResetMode {
    fn default() -> (r: Self)
        ensures
            r == ResetMode::Daily,
    {
        ResetMode::Daily
    }
}

/// The gateway's bind address.
pub fn default_bind() -> (r: String)
    ensures
        r@ == "127.0.0.1:3000"@,
{
    "127.0.0.1:3000".to_owned()
}

/// The default workspace path.
pub fn default_workspace() -> (r: String)
    ensures
        r@ == "~/.neko/workspace"@,
{
    "~/.neko/workspace".to_owned()
}

/// The default model name.
pub fn default_model() -> (r: String)
    ensures
        r@ == "gpt-5-mini"@,
{
    "gpt-5-mini".to_owned()
}

/// The default provider name.
pub fn default_provider() -> (r: String)
    ensures
        r@ == "openai"@,
{
    "openai".to_owned()
}

/// The default output-token budget per request.
pub fn default_max_tokens() -> (r: u32)
    ensures
        r == 4096,
{
    4096
}

/// The default history length at which compaction is considered.
pub fn default_compaction_threshold() -> (r: u32)
    ensures
        r == 50,
{
    50
}

/// The default bound on kept history items.
pub fn default_max_history() -> (r: u32)
    ensures
        r == 100,
{
    100
}

/// The default bound on model iterations per turn.
pub fn default_max_iterations() -> (r: u32)
    ensures
        r == 10,
{
    10
}

/// The default ceiling for a command's run time, in seconds.
pub fn default_exec_timeout() -> (r: u64)
    ensures
        r == 1800,
{
    1800
}

/// The default time a command may take before it is backgrounded.
pub fn default_exec_yield_ms() -> (r: u64)
    ensures
        r == 10000,
{
    10000
}

/// The default script time budget, in seconds.
pub fn default_python_timeout() -> (r: u64)
    ensures
        r == 10,
{
    10
}

/// The default script memory budget, in bytes.
pub fn default_python_max_memory() -> (r: usize)
    ensures
        r == 16777216,
{
    16777216
}

/// The default script allocation budget.
pub fn default_python_max_allocations() -> (r: usize)
    ensures
        r == 100000,
{
    100000
}

/// The default script recursion budget.
pub fn default_python_max_recursion() -> (r: usize)
    ensures
        r == 100,
{
    100
}

/// The default heartbeat interval, in seconds.
pub fn default_interval() -> (r: u64)
    ensures
        r == 3600,
{
    3600
}

/// The default local hour after which a daily reset triggers.
pub fn default_reset_at_hour() -> (r: u32)
    ensures
        r == 4,
{
    4
}

/// The default bound on cached sessions.
pub fn default_max_cached() -> (r: usize)
    ensures
        r == 8,
{
    8
}

/// Gateway settings.
#[derive(Debug, Clone)]
pub struct GatewayConfig {
    pub bind: String,
    pub api_token: Option<String>,
    pub workspace: String,
}

impl Default for GatewayConfig {
    fn default() -> (r: Self)
        ensures
            r.bind@ == "127.0.0.1:3000"@,
            r.api_token is None,
            r.workspace@ == "~/.neko/workspace"@,
    {
        GatewayConfig { bind: default_bind(), api_token: None, workspace: default_workspace() }
    }
}

/// Agent settings.
#[derive(Debug, Clone)]
pub struct AgentConfig {
    pub model: String,
    pub provider: String,
    pub max_tokens: u32,
    pub tools: Vec<String>,
    pub compaction_threshold: u32,
    pub max_history: u32,
    pub max_iterations: u32,
    pub instructions: Option<String>,
}

impl Default for AgentConfig {
    fn default() -> (r: Self)
        ensures
            r.model@ == "gpt-5-mini"@,
            r.provider@ == "openai"@,
            r.max_tokens == 4096,
            r.tools@.len() == 6,
            r.compaction_threshold == 50,
            r.max_history == 100,
            r.max_iterations == 10,
            r.instructions is None,
    {
        let mut tools: Vec<String> = Vec::new();
        tools.push("read_file".to_owned());
        tools.push("write_file".to_owned());
        tools.push("list_files".to_owned());
        tools.push("exec".to_owned());
        tools.push("http_request".to_owned());
        tools.push("memory_write".to_owned());
        AgentConfig {
            model: default_model(),
            provider: default_provider(),
            max_tokens: default_max_tokens(),
            tools,
            compaction_threshold: default_compaction_threshold(),
            max_history: default_max_history(),
            max_iterations: default_max_iterations(),
            instructions: None,
        }
    }
}

/// A model provider's endpoint and credentials.
#[derive(Debug, Clone)]
pub struct ProviderConfig {
    pub api_key: Option<String>,
    pub base_url: String,
    pub models: Vec<String>,
}

/// Channel adapters' settings.
#[derive(Debug, Clone, Default)]
pub struct ChannelsConfig {
    pub telegram: Option<TelegramConfig>,
}

/// Settings for a long-poll chat channel.
#[derive(Debug, Clone)]
pub struct TelegramConfig {
    pub enabled: bool,
    pub bot_token: Option<String>,
    pub allowed_users: Vec<i64>,
}

/// Tool settings.
#[derive(Debug, Clone)]
pub struct ToolsConfig {
    pub sandbox: bool,
    pub exec_allowlist: Vec<String>,
    pub http_allowed_domains: Vec<String>,
    pub exec_timeout_secs: u64,
    pub exec_yield_ms: u64,
    pub python: PythonConfig,
}

impl Default for ToolsConfig {
    fn default() -> (r: Self)
        ensures
            !r.sandbox,
            r.exec_allowlist@.len() == 0,
            r.http_allowed_domains@.len() == 0,
            r.exec_timeout_secs == 1800,
            r.exec_yield_ms == 10000,
    {
        ToolsConfig {
            sandbox: false,
            exec_allowlist: Vec::new(),
            http_allowed_domains: Vec::new(),
            exec_timeout_secs: default_exec_timeout(),
            exec_yield_ms: default_exec_yield_ms(),
            python: PythonConfig::default(),
        }
    }
}

/// Settings for the sandboxed script tool.
#[derive(Debug, Clone)]
pub struct PythonConfig {
    pub enabled: bool,
    pub timeout_secs: u64,
    pub max_memory: usize,
    pub max_allocations: usize,
    pub max_recursion: usize,
    pub external_functions: Vec<String>,
}

impl Default for PythonConfig {
    fn default() -> (r: Self)
        ensures
            !r.enabled,
            r.timeout_secs == 10,
            r.max_memory == 16777216,
            r.max_allocations == 100000,
            r.max_recursion == 100,
            r.external_functions@.len() == 0,
    {
        PythonConfig {
            enabled: false,
            timeout_secs: default_python_timeout(),
            max_memory: default_python_max_memory(),
            max_allocations: default_python_max_allocations(),
            max_recursion: default_python_max_recursion(),
            external_functions: Vec::new(),
        }
    }
}

/// Heartbeat settings.
#[derive(Debug, Clone)]
pub struct HeartbeatConfig {
    pub enabled: bool,
    pub interval_secs: u64,
    pub checklist_file: Option<String>,
    pub notify_channels: Vec<String>,
}

impl Default for HeartbeatConfig {
    fn default() -> (r: Self)
        ensures
            !r.enabled,
            r.interval_secs == 3600,
            r.checklist_file is None,
            r.notify_channels@.len() == 0,
    {
        HeartbeatConfig {
            enabled: false,
            interval_secs: default_interval(),
            checklist_file: None,
            notify_channels: Vec::new(),
        }
    }
}

/// Session policy.
#[derive(Debug, Clone)]
pub struct SessionConfig {
    pub dm_scope: DmScope,
    pub reset_mode: ResetMode,
    pub reset_at_hour: u32,
    pub idle_minutes: Option<u32>,
    pub max_history: u32,
    pub max_cached: usize,
}

impl Default for SessionConfig {
    fn default() -> (r: Self)
        ensures
            r.dm_scope == DmScope::Main,
            r.reset_mode == ResetMode::Daily,
            r.reset_at_hour == 4,
            r.idle_minutes is None,
            r.max_history == 100,
            r.max_cached == 8,
    {
        SessionConfig {
            dm_scope: DmScope::Main,
            reset_mode: ResetMode::Daily,
            reset_at_hour: default_reset_at_hour(),
            idle_minutes: None,
            max_history: default_max_history(),
            max_cached: default_max_cached(),
        }
    }
}

/// A stdio-transport tool server's launch description.
#[derive(Debug, Clone)]
pub struct McpServerConfig {
    pub command: String,
    pub args: Vec<String>,
    pub env: Vec<(String, String)>,
}

/// The whole configuration.
#[derive(Debug, Clone)]
pub struct Config {
    pub gateway: GatewayConfig,
    pub agent: AgentConfig,
    pub providers: Vec<(String, ProviderConfig)>,
    pub channels: ChannelsConfig,
    pub session: SessionConfig,
    pub tools: ToolsConfig,
    pub heartbeat: HeartbeatConfig,
    pub mcp: Vec<(String, McpServerConfig)>,
}

impl Default for Config {
    fn default() -> (r: Self)
        ensures
            r.gateway.bind@ == "127.0.0.1:3000"@,
            r.agent.max_tokens == 4096,
            r.session.reset_at_hour == 4,
    {
        Config {
            gateway: GatewayConfig::default(),
            agent: AgentConfig::default(),
            providers: Vec::new(),
            channels: ChannelsConfig { telegram: None },
            session: SessionConfig::default(),
            tools: ToolsConfig::default(),
            heartbeat: HeartbeatConfig::default(),
            mcp: Vec::new(),
        }
    }
}

/// The text of the configuration written by the initial setup.
pub open spec fn spec_default_toml() -> Seq<char> {
    "[gateway]\nbind = \"127.0.0.1:3000\"\nworkspace = \"~/.neko/workspace\"\n\n[agent]\nmodel = \"gpt-5-mini\"\nprovider = \"openai\"\nmax_tokens = 4096\ntools = [\"read_file\", \"write_file\", \"list_files\", \"exec\", \"http_request\", \"memory_write\"]\n\n[providers.openai]\napi_key = \"${OPENAI_API_KEY}\"\nbase_url = \"https://api.openai.com\"\nmodels = [\"gpt-5-mini\", \"gpt-5\"]\n\n[tools]\nsandbox = false\nexec_timeout_secs = 1800\nexec_yield_ms = 10000\n\n[heartbeat]\nenabled = false\ninterval_secs = 3600\n"@
}

impl Config {
    /// The configuration written by the initial setup.
    pub fn default_toml() -> (r: &'static str)
        ensures
            r@ == spec_default_toml(),
    {
        "[gateway]\nbind = \"127.0.0.1:3000\"\nworkspace = \"~/.neko/workspace\"\n\n[agent]\nmodel = \"gpt-5-mini\"\nprovider = \"openai\"\nmax_tokens = 4096\ntools = [\"read_file\", \"write_file\", \"list_files\", \"exec\", \"http_request\", \"memory_write\"]\n\n[providers.openai]\napi_key = \"${OPENAI_API_KEY}\"\nbase_url = \"https://api.openai.com\"\nmodels = [\"gpt-5-mini\", \"gpt-5\"]\n\n[tools]\nsandbox = false\nexec_timeout_secs = 1800\nexec_yield_ms = 10000\n\n[heartbeat]\nenabled = false\ninterval_secs = 3600\n"
    }
}

} // verus!
