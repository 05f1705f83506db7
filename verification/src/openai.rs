//! Model provider configuration and the client builder.
use vstd::prelude::*;
use crate::error::AgentSdkError;
use crate::text::owned;

verus! {

/// Where and how to reach a model provider.
pub struct ModelConfig {
    /// e.g. `https://api.openai.com/v1`
    pub base_url: String,
    pub api_key: String,
    /// e.g. `gpt-4o`
    pub model: String,
}

/// The provider's URL when none is set.
pub open spec fn default_base_url() -> Seq<char> {
    "https://api.openai.com/v1"@
}

impl ModelConfig {
    /// A configuration from the values of `OPENAI_BASE_URL`, `OPENAI_API_KEY`
    /// and `OPENAI_MODEL`: the base URL defaults to OpenAI's; a missing key
    /// or model is a configuration error naming the variable (the key is
    /// checked first).
    pub fn from_vars(base_url: Option<String>, api_key: Option<String>, model: Option<String>) -> (r: Result<
        ModelConfig,
        AgentSdkError,
    >)
        ensures
            api_key is None ==> (r matches Err(AgentSdkError::ConfigError(m)) && m@ == "OPENAI_API_KEY not set"@),
            api_key is Some && model is None ==> (r matches Err(AgentSdkError::ConfigError(m)) && m@
                == "OPENAI_MODEL not set"@),
            api_key is Some && model is Some ==> (r matches Ok(c) && c.api_key == api_key.unwrap() && c.model
                == model.unwrap() && c.base_url@ == match base_url {
                Some(b) => b@,
                None => default_base_url(),
            }),
    {
        let base = match base_url {
            Some(b) => b,
            None => owned("https://api.openai.com/v1"),
        };
        let key = match api_key {
            Some(k) => k,
            None => {
                return Err(AgentSdkError::ConfigError(owned("OPENAI_API_KEY not set")));
            },
        };
        let m = match model {
            Some(m) => m,
            None => {
                return Err(AgentSdkError::ConfigError(owned("OPENAI_MODEL not set")));
            },
        };
        Ok(ModelConfig { base_url: base, api_key: key, model: m })
    }
}

/// A model client: its configuration.
pub struct OpenAI {
    pub config: ModelConfig,
}

/// Builds an `OpenAI` client.
pub struct OpenAIBuilder {
    config: Option<ModelConfig>,
}

impl OpenAI {
    /// A client for `config`.
    pub fn new(config: ModelConfig) -> (o: OpenAI)
        ensures
            o.config == config,
    {
        OpenAI { config }
    }

    /// A builder with no configuration.
    pub fn builder() -> (b: OpenAIBuilder)
        ensures
            b.config_spec() is None,
    {
        OpenAIBuilder { config: None }
    }
}

impl OpenAIBuilder {
    /// The configuration set so far.
    pub closed spec fn config_spec(&self) -> Option<ModelConfig> {
        self.config
    }

    /// Sets the configuration.
    pub fn config(self, config: ModelConfig) -> (b: OpenAIBuilder)
        ensures
            b.config_spec() == Some(config),
    {
        OpenAIBuilder { config: Some(config) }
    }

    /// The client; without a configuration, a configuration error.
    pub fn build(self) -> (r: Result<OpenAI, AgentSdkError>)
        ensures
            match self.config_spec() {
                Some(c) => r matches Ok(o) && o.config == c,
                None => r matches Err(AgentSdkError::ConfigError(m)) && m@ == "config required"@,
            },
    {
        match self.config {
            Some(c) => Ok(OpenAI::new(c)),
            None => Err(AgentSdkError::ConfigError(owned("config required"))),
        }
    }
}

} // verus!
