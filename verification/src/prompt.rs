//! The prompt template system gathered under one roof: compiled templates,
//! sets, conversation templates and the locale store.

pub use crate::conversation::ConversationTemplate;
pub use crate::locale::{LocaleData, LocaleManager, TextDirection};
pub use crate::template::{PromptTemplate, TemplateFrontmatter, TemplateSet};
pub use crate::parser::TemplateParser;
pub use crate::node::TemplateNode;
pub use crate::executor::{TemplateExecutor, TemplateStore};
