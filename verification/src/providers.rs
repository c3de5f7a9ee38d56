//! Provider configuration: the plain data a transport needs to reach a
//! backend, assembled through small builders.

use vstd::prelude::*;
use crate::error::{Error, ErrV, err_view};

verus! {

/// What reaching an Azure deployment takes.
#[derive(Clone, Debug)]
pub struct AzureConfig {
    pub api_key: String,
    pub resource: String,
    pub api_version: String,
}

/// What reaching the OpenAI endpoint takes.
#[derive(Clone, Debug)]
pub struct OpenAIConfig {
    pub api_key: String,
}

/// Accumulates an Azure configuration.
#[derive(Debug)]
pub struct AzureBuilder {
    pub config: Option<AzureConfig>,
}

/// Accumulates the three Azure fields one call at a time.
#[derive(Debug)]
pub struct AzureConfigBuilder {
    pub api_key: Option<String>,
    pub resource: Option<String>,
    pub api_version: Option<String>,
}

/// Accumulates an OpenAI configuration.
#[derive(Debug)]
pub struct OpenAIBuilder {
    pub config: Option<OpenAIConfig>,
}

/// The entry point for choosing a provider.
#[derive(Debug)]
pub struct ClientBuilder;

impl AzureBuilder {
    /// An empty builder.
    pub fn new() -> (r: AzureBuilder)
        ensures
            r.config is None,
    {
        AzureBuilder { config: None }
    }

    /// This builder holding the given configuration.
    pub fn with_config(self, config: AzureConfig) -> (r: AzureBuilder)
        ensures
            r.config == Option::Some(config),
    {
        AzureBuilder { config: Some(config) }
    }

    /// Start field-by-field configuration with the key.
    pub fn api_key(self, api_key: &str) -> (r: AzureConfigBuilder)
        ensures
            r.api_key matches Option::Some(k) && k@ == api_key@,
            r.resource is None,
            r.api_version is None,
    {
        AzureConfigBuilder {
            api_key: Some(String::from_str(api_key)),
            resource: None,
            api_version: None,
        }
    }
}

impl AzureConfigBuilder {
    /// Name the Azure resource.
    pub fn resource(self, resource: &str) -> (r: AzureConfigBuilder)
        ensures
            r.api_key == self.api_key,
            r.resource matches Option::Some(v) && v@ == resource@,
            r.api_version == self.api_version,
    {
        AzureConfigBuilder { resource: Some(String::from_str(resource)), ..self }
    }

    /// Name the API version.
    pub fn api_version(self, api_version: &str) -> (r: AzureConfigBuilder)
        ensures
            r.api_key == self.api_key,
            r.resource == self.resource,
            r.api_version matches Option::Some(v) && v@ == api_version@,
    {
        AzureConfigBuilder { api_version: Some(String::from_str(api_version)), ..self }
    }

    /// Assemble the configuration: the key and resource are required, and a
    /// missing API version falls back to a default.
    pub fn build(self) -> (r: Result<AzureBuilder, Error>)
        ensures
            self.api_key is None ==> r is Err && err_view(r->Err_0) is Config,
            self.api_key is Some && self.resource is None ==> r is Err && err_view(r->Err_0)
                is Config,
            self.api_key is Some && self.resource is Some ==> r is Ok && (
            r->Ok_0.config matches Option::Some(c) && c.api_key == self.api_key->0
                && c.resource == self.resource->0 && (match self.api_version {
                Option::Some(v) => c.api_version == v,
                Option::None => c.api_version@ == "2024-02-15-preview"@,
            })),
    {
        let api_key = match self.api_key {
            Some(k) => k,
            None => {
                return Err(Error::Config(String::from_str("API key is required")));
            },
        };
        let resource = match self.resource {
            Some(v) => v,
            None => {
                return Err(Error::Config(String::from_str("Resource name is required")));
            },
        };
        let api_version = match self.api_version {
            Some(v) => v,
            None => String::from_str("2024-02-15-preview"),
        };
        Ok(AzureBuilder { config: Some(AzureConfig { api_key, resource, api_version }) })
    }
}

impl OpenAIBuilder {
    /// An empty builder.
    pub fn new() -> (r: OpenAIBuilder)
        ensures
            r.config is None,
    {
        OpenAIBuilder { config: None }
    }

    /// This builder holding the given configuration.
    pub fn with_config(self, config: OpenAIConfig) -> (r: OpenAIBuilder)
        ensures
            r.config == Option::Some(config),
    {
        OpenAIBuilder { config: Some(config) }
    }

    /// This builder holding a configuration with the given key.
    pub fn api_key(self, api_key: &str) -> (r: OpenAIBuilder)
        ensures
            r.config matches Option::Some(c) && c.api_key@ == api_key@,
    {
        OpenAIBuilder { config: Some(OpenAIConfig { api_key: String::from_str(api_key) }) }
    }
}

impl ClientBuilder {
    /// A fresh Azure builder.
    pub fn azure() -> (r: AzureBuilder)
        ensures
            r.config is None,
    {
        AzureBuilder::new()
    }

    /// A fresh OpenAI builder.
    pub fn openai() -> (r: OpenAIBuilder)
        ensures
            r.config is None,
    {
        OpenAIBuilder::new()
    }
}

/// A fresh Azure builder.
pub fn azure() -> (r: AzureBuilder)
    ensures
        r.config is None,
{
    ClientBuilder::azure()
}

/// A fresh OpenAI builder.
pub fn openai() -> (r: OpenAIBuilder)
    ensures
        r.config is None,
{
    ClientBuilder::openai()
}

} // verus!
