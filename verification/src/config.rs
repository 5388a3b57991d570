//! Settings.
use crate::llm::protocol::{infer_protocol, resolve, Protocol};
use crate::text;
use vstd::prelude::*;
use vstd::string::*;

verus! {

broadcast use {vstd::seq_lib::group_seq_properties, vstd::string::group_string_axioms};

/// How to reach a model.
#[derive(Debug, Clone, PartialEq, Eq)]
pub struct LlmConfig {
    /// The base of the service's address; the protocol puts the endpoint together.
    pub base_url: String,
    pub model: String,
    pub api_key: String,
    /// Not set in old configurations, where it is read from the address.
    pub protocol: Option<Protocol>,
    pub enable_thinking: bool,
    pub reasoning_effort: String,
    pub enable_fast_mode: bool,
}

/// How to reach a model at an endpoint of its own.
#[derive(Debug, PartialEq, Eq)]
pub struct OpenAiConfig {
    /// The whole address of the endpoint.
    pub base_url: String,
    pub model: String,
    pub api_key: String,
    pub enable_thinking: bool,
    pub reasoning_effort: String,
}

/// What a configuration holds.
#[verifier::ext_equal]
pub struct ConfigView {
    pub base_url: Seq<char>,
    pub model: Seq<char>,
    pub api_key: Seq<char>,
    pub protocol: Option<Protocol>,
    pub enable_thinking: bool,
    pub reasoning_effort: Seq<char>,
    pub enable_fast_mode: bool,
}

impl View for LlmConfig {
    type V = ConfigView;

    open spec fn view(&self) -> ConfigView {
        ConfigView {
            base_url: self.base_url@,
            model: self.model@,
            api_key: self.api_key@,
            protocol: self.protocol,
            enable_thinking: self.enable_thinking,
            reasoning_effort: self.reasoning_effort@,
            enable_fast_mode: self.enable_fast_mode,
        }
    }
}

impl ConfigView {
    /// The protocol that is set, or else the one that the address points to.
    pub open spec fn spoken(self) -> Protocol {
        match self.protocol {
            Some(protocol) => protocol,
            None => crate::llm::protocol::protocol_of_parts(
                crate::llm::url::url_of(self.base_url),
            ),
        }
    }
}

impl LlmConfig {
    /// The protocol that is set, or else the one that the address points to.
    pub fn protocol(&self) -> (protocol: Protocol)
        ensures
            protocol == self@.spoken(),
    {
        match self.protocol {
            Some(protocol) => protocol,
            None => infer_protocol(self.base_url.as_str()),
        }
    }
}

/// A service and a model to start from.
#[derive(Debug, Clone, PartialEq, Eq)]
pub struct PresetConfig {
    pub base_url: String,
    pub model: String,
}

/// A preset. Choosing it chooses the protocol too.
#[derive(Debug, Clone, PartialEq, Eq)]
pub struct PresetTemplate {
    pub protocol: Protocol,
    pub provider_name: String,
    pub config: PresetConfig,
}

/// What a preset holds.
#[verifier::ext_equal]
pub struct PresetView {
    pub protocol: Protocol,
    pub provider_name: Seq<char>,
    pub base_url: Seq<char>,
    pub model: Seq<char>,
}

impl View for PresetTemplate {
    type V = PresetView;

    open spec fn view(&self) -> PresetView {
        PresetView {
            protocol: self.protocol,
            provider_name: self.provider_name@,
            base_url: self.config.base_url@,
            model: self.config.model@,
        }
    }
}

/// What the presets of a list hold.
pub open spec fn preset_views(presets: Seq<PresetTemplate>) -> Seq<PresetView> {
    presets.map_values(|preset: PresetTemplate| preset@)
}

/// What a login leaves behind.
#[derive(Debug, Clone, PartialEq, Eq)]
pub struct AuthData {
    pub access_token: String,
    pub csrf: String,
    pub mid: String,
    pub cookie: String,
}

/// The effort where none is set.
pub fn default_reasoning_effort() -> (r: String)
    ensures
        r@ == "high"@,
{
    "high".to_owned()
}

/// An old configuration in the new form: with the protocol that its address points to, and
/// the base of that address. A new one is left as it is.
pub open spec fn migrated(config: ConfigView) -> ConfigView {
    match config.protocol {
        Some(_) => config,
        None => ConfigView {
            protocol: Some(config.spoken()),
            base_url: crate::llm::protocol::base_of(config.base_url),
            ..config
        },
    }
}

/// An old configuration in the new form. The protocol is read from the address before that
/// is reduced to its base.
pub fn migrate_legacy(config: LlmConfig) -> (r: LlmConfig)
    ensures
        r@ == migrated(config@),
{
    let mut config = config;
    if config.protocol.is_none() {
        let (inferred, base_url) = resolve(config.base_url.as_str());
        config.protocol = Some(inferred);
        config.base_url = base_url;
    }
    config
}

/// Moving a configuration to the new form keeps the protocol that is spoken, and doing it
/// twice is doing it once.
pub proof fn law_migration_keeps_the_protocol(config: ConfigView)
    ensures
        migrated(config).spoken() == config.spoken(),
        migrated(config).protocol is Some,
        migrated(migrated(config)) == migrated(config),
{
}

/// After a move to the new form the same endpoint is asked, provided that the base of the
/// address is not an endpoint in its turn.
pub proof fn law_migration_keeps_the_endpoint(config: ConfigView)
    requires
        config.protocol is None ==> crate::llm::address::is_base(
            crate::llm::protocol::base_of(config.base_url),
        ),
    ensures
        crate::llm::protocol::endpoint_of(
            config.spoken(),
            migrated(config).base_url,
            migrated(config).model,
        ) == crate::llm::protocol::endpoint_of(config.spoken(), config.base_url, config.model),
{
    if config.protocol is None {
        crate::llm::address::law_base_stands_for_its_address(
            config.spoken(),
            config.base_url,
            config.model,
        );
    }
}

/// How long a login lasts, in seconds.
pub const AUTH_LIFETIME: u64 = 7 * 24 * 3600;

/// Whether a login of so many seconds ago is over.
pub open spec fn login_is_over(elapsed: u64) -> bool {
    elapsed > AUTH_LIFETIME
}

/// A login lasts a week: it is over when more than 604800 seconds have passed, and not before.
pub proof fn law_login_lasts_a_week(elapsed: u64)
    ensures
        login_is_over(elapsed) <==> elapsed > 604800,
{
}

/// Whether a login of so many seconds ago is over.
pub fn auth_expired(elapsed: u64) -> (r: bool)
    ensures
        r == (elapsed > AUTH_LIFETIME),
        r == login_is_over(elapsed),
{
    elapsed > AUTH_LIFETIME
}

/// The directory of the settings, below the home directory.
pub const CONFIG_DIR_NAME: &'static str = ".bili-hardcore";

/// The names on the way from the home directory to a file of the settings.
pub open spec fn path_to(file: Seq<char>) -> Seq<Seq<char>> {
    seq![".bili-hardcore"@, file]
}

fn config_path(file: &str) -> (r: Vec<String>)
    ensures
        text::texts(r@) == path_to(file@),
{
    let mut r: Vec<String> = Vec::new();
    r.push(CONFIG_DIR_NAME.to_owned());
    r.push(file.to_owned());
    assert(text::texts(r@) =~= path_to(file@));
    r
}

/// Where the configuration is stored, from the home directory on.
pub fn openai_config_path() -> (r: Vec<String>)
    ensures
        text::texts(r@) == path_to("openai_config.json"@),
{
    config_path("openai_config.json")
}

/// Where the login is stored, from the home directory on.
pub fn auth_path() -> (r: Vec<String>)
    ensures
        text::texts(r@) == path_to("auth.json"@),
{
    config_path("auth.json")
}

/// Where the selected categories are stored, from the home directory on.
pub fn categories_path() -> (r: Vec<String>)
    ensures
        text::texts(r@) == path_to("categories.json"@),
{
    config_path("categories.json")
}

/// Where the answers given so far are stored, from the home directory on.
pub fn history_path() -> (r: Vec<String>)
    ensures
        text::texts(r@) == path_to("history.json"@),
{
    config_path("history.json")
}

} // verus!
