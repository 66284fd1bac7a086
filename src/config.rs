//! The structured configuration the gateway runs on, its defaults and its validation.
use vstd::prelude::*;
use vstd::string::*;
use crate::text::str_eq;

verus! {

/// Top-level configuration.
#[derive(Debug)]
pub struct ExoclawConfig {
    pub gateway: GatewayConfig,
    pub agent: AgentDefConfig,
    pub plugins: Vec<PluginConfig>,
    pub bindings: Vec<BindingConfig>,
    pub budgets: BudgetConfig,
    pub memory: MemoryConfig,
}

/// Where the gateway listens.
#[derive(Debug, Clone)]
pub struct GatewayConfig {
    pub port: u16,
    pub bind: String,
}

/// The agent: provider, model and prompt settings.
#[derive(Debug)]
pub struct AgentDefConfig {
    pub id: String,
    pub provider: String,
    pub model: String,
    pub api_key: Option<String>,
    pub max_tokens: u32,
    pub system_prompt: Option<String>,
    pub soul_path: Option<String>,
    pub tools: Vec<String>,
    pub fallback: Option<Box<AgentDefConfig>>,
}

/// A plugin module and the capabilities granted to it.
#[derive(Debug, Clone)]
pub struct PluginConfig {
    pub name: String,
    pub path: String,
    pub capabilities: Vec<String>,
}

/// A routing binding as configured.
#[derive(Debug, Clone)]
pub struct BindingConfig {
    pub agent_id: String,
    pub channel: Option<String>,
    pub account_id: Option<String>,
    pub peer_id: Option<String>,
    pub guild_id: Option<String>,
    pub team_id: Option<String>,
}

/// Token limits; an absent limit never refuses.
#[derive(Debug, Clone)]
pub struct BudgetConfig {
    pub session: Option<u64>,
    pub daily: Option<u64>,
    pub monthly: Option<u64>,
}

/// Memory settings: the episodic window in turns and whether facts are kept.
#[derive(Debug, Clone)]
pub struct MemoryConfig {
    pub episodic_window: u32,
    pub semantic_enabled: bool,
}

pub fn default_port() -> (r: u16)
    ensures
        r == 7200,
{
    7200
}

pub fn default_bind() -> (r: String)
    ensures
        r@ == "127.0.0.1"@,
{
    "127.0.0.1".to_owned()
}

pub fn default_agent_id() -> (r: String)
    ensures
        r@ == "default"@,
{
    "default".to_owned()
}

pub fn default_provider() -> (r: String)
    ensures
        r@ == "anthropic"@,
{
    "anthropic".to_owned()
}

pub fn default_model() -> (r: String)
    ensures
        r@ == "sonnet-4-5-20250929"@,
{
    "sonnet-4-5-20250929".to_owned()
}

pub fn default_max_tokens() -> (r: u32)
    ensures
        r == 4096,
{
    4096
}

pub fn default_episodic_window() -> (r: u32)
    ensures
        r == 5,
{
    5
}

pub fn default_semantic_enabled() -> (r: bool)
    ensures
        r,
{
    true
}

impl Default for GatewayConfig {
    fn default() -> (r: Self)
        ensures
            r.port == 7200,
            r.bind@ == "127.0.0.1"@,
    {
        GatewayConfig { port: default_port(), bind: default_bind() }
    }
}

impl Default for AgentDefConfig {
    fn default() -> (r: Self)
        ensures
            r.id@ == "default"@,
            r.provider@ == "anthropic"@,
            r.model@ == "sonnet-4-5-20250929"@,
            r.api_key is None,
            r.max_tokens == 4096,
            r.system_prompt is None,
            r.soul_path is None,
            r.tools@.len() == 0,
            r.fallback is None,
    {
        AgentDefConfig {
            id: default_agent_id(),
            provider: default_provider(),
            model: default_model(),
            api_key: None,
            max_tokens: default_max_tokens(),
            system_prompt: None,
            soul_path: None,
            tools: Vec::new(),
            fallback: None,
        }
    }
}

impl Default for BudgetConfig {
    fn default() -> (r: Self)
        ensures
            r.session is None,
            r.daily is None,
            r.monthly is None,
    {
        BudgetConfig { session: None, daily: None, monthly: None }
    }
}

impl Default for MemoryConfig {
    fn default() -> (r: Self)
        ensures
            r.episodic_window == 5,
            r.semantic_enabled,
    {
        MemoryConfig {
            episodic_window: default_episodic_window(),
            semantic_enabled: default_semantic_enabled(),
        }
    }
}

impl Default for ExoclawConfig {
    fn default() -> (r: Self)
        ensures
            r.gateway.port == 7200,
            r.gateway.bind@ == "127.0.0.1"@,
            r.agent.provider@ == "anthropic"@,
            r.agent.model@ == "sonnet-4-5-20250929"@,
            r.agent.max_tokens == 4096,
            r.agent.api_key is None,
            r.plugins@.len() == 0,
            r.bindings@.len() == 0,
            r.budgets.session is None && r.budgets.daily is None && r.budgets.monthly is None,
            r.memory.episodic_window == 5,
            r.memory.semantic_enabled,
    {
        ExoclawConfig {
            gateway: GatewayConfig::default(),
            agent: AgentDefConfig::default(),
            plugins: Vec::new(),
            bindings: Vec::new(),
            budgets: BudgetConfig::default(),
            memory: MemoryConfig::default(),
        }
    }
}

/// Why a configuration was refused.
#[derive(Debug, Clone, PartialEq, Eq)]
pub enum ConfigError {
    /// The provider is neither `anthropic` nor `openai`; holds it.
    InvalidProvider(String),
    /// `agent.max_tokens` is zero.
    ZeroMaxTokens,
    /// The binding at this index names none of the five routing fields.
    EmptyBinding(usize),
}

impl ConfigError {
    /// A sentence that says what is wrong.
    pub fn to_string(&self) -> (r: String)
        ensures
            r@ == config_error_message(*self),
    {
        match self {
            ConfigError::InvalidProvider(p) => {
                let mut r = "invalid provider '".to_owned();
                r.append(p.as_str());
                r.append("': must be one of [\"anthropic\", \"openai\"]");
                r
            },
            ConfigError::ZeroMaxTokens => "agent.max_tokens must be > 0".to_owned(),
            ConfigError::EmptyBinding(i) => {
                let mut r = "binding[".to_owned();
                let d = crate::text::u64_to_decimal(*i as u64);
                r.append(d.as_str());
                r.append("] must have at least one of: channel, account_id, peer_id, guild_id, team_id");
                r
            },
        }
    }
}

/// The message of each validation error.
pub open spec fn config_error_message(e: ConfigError) -> Seq<char> {
    match e {
        ConfigError::InvalidProvider(p) => "invalid provider '"@ + p@
            + "': must be one of [\"anthropic\", \"openai\"]"@,
        ConfigError::ZeroMaxTokens => "agent.max_tokens must be > 0"@,
        ConfigError::EmptyBinding(i) => "binding["@ + crate::text::decimal(i as nat)
            + "] must have at least one of: channel, account_id, peer_id, guild_id, team_id"@,
    }
}

/// The providers the gateway can talk to.
pub open spec fn is_known_provider(p: Seq<char>) -> bool {
    p == "anthropic"@ || p == "openai"@
}

/// A binding names at least one routing field.
pub open spec fn binding_has_discriminator(b: BindingConfig) -> bool {
    b.channel is Some || b.account_id is Some || b.peer_id is Some || b.guild_id is Some
        || b.team_id is Some
}

/// Checks the provider, `max_tokens` and every binding, in that order.
pub fn validate(config: &ExoclawConfig) -> (r: Result<(), ConfigError>)
    ensures
        !is_known_provider(config.agent.provider@) <==> r matches Err(
            ConfigError::InvalidProvider(_),
        ),
        (is_known_provider(config.agent.provider@) && config.agent.max_tokens == 0) <==> r
            == Err::<(), ConfigError>(ConfigError::ZeroMaxTokens),
        r is Ok <==> (is_known_provider(config.agent.provider@) && config.agent.max_tokens > 0
            && forall|i: int|
            0 <= i < config.bindings@.len() ==> binding_has_discriminator(
                #[trigger] config.bindings@[i],
            )),
        r matches Err(ConfigError::EmptyBinding(k)) ==> k < config.bindings@.len()
            && !binding_has_discriminator(config.bindings@[k as int]) && forall|i: int|
            0 <= i < k ==> binding_has_discriminator(#[trigger] config.bindings@[i]),
        r matches Err(ConfigError::InvalidProvider(p)) ==> p@ == config.agent.provider@,
{
    let p = config.agent.provider.as_str();
    if !(str_eq(p, "anthropic") || str_eq(p, "openai")) {
        return Err(ConfigError::InvalidProvider(config.agent.provider.clone()));
    }
    if config.agent.max_tokens == 0 {
        return Err(ConfigError::ZeroMaxTokens);
    }
    let mut i: usize = 0;
    while i < config.bindings.len()
        invariant
            is_known_provider(config.agent.provider@),
            config.agent.max_tokens > 0,
            i <= config.bindings@.len(),
            forall|j: int| 0 <= j < i ==> binding_has_discriminator(#[trigger] config.bindings@[j]),
        decreases config.bindings@.len() - i,
    {
        let b = &config.bindings[i];
        if b.channel.is_none() && b.account_id.is_none() && b.peer_id.is_none()
            && b.guild_id.is_none() && b.team_id.is_none() {
            return Err(ConfigError::EmptyBinding(i));
        }
        i = i + 1;
    }
    Ok(())
}

/// Validates a configuration before it is written out, and hands it back when it passes.
pub fn save(config: ExoclawConfig) -> (r: Result<ExoclawConfig, ConfigError>)
    ensures
        r is Ok <==> validate_ok(&config),
{
    match validate(&config) {
        Ok(()) => Ok(config),
        Err(e) => Err(e),
    }
}

/// The configuration passes validation.
pub open spec fn validate_ok(config: &ExoclawConfig) -> bool {
    is_known_provider(config.agent.provider@) && config.agent.max_tokens > 0 && forall|i: int|
        0 <= i < config.bindings@.len() ==> binding_has_discriminator(#[trigger] config.bindings@[i])
}

} // verus!
