//! A template-first prompt library: templates are compiled once into an
//! abstract syntax tree and rendered repeatedly against variable bindings
//! and locales.

mod chars;
pub mod conversation;
pub mod error;
pub mod executor;
pub mod functions;
pub mod laws;
pub mod locale;
pub mod messages;
pub mod node;
pub mod parser;
pub mod prompt;
pub mod providers;
pub mod refusal;
pub mod response;
pub mod template;
pub mod types;
pub mod util;
pub mod value;
pub mod yaml;

pub use chars::str_to_chars;
pub use chars::chars_to_string;
pub use error::Error;
pub use messages::Messages;
pub use refusal::Refusal;
pub use response::Response;
pub use providers::{azure, openai, AzureBuilder, AzureConfig, AzureConfigBuilder, ClientBuilder, OpenAIBuilder, OpenAIConfig};
pub use value::{JsonValue, VarMap};
