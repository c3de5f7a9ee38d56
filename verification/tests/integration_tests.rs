//! End-to-end template workflows.

use responses::prompt::{PromptTemplate, TemplateSet, TemplateStore};
use responses::prompt::TemplateParser;
use responses::value::{JsonValue, VarMap};
use responses::types::{Input, Role};
use responses::providers::{azure, openai, AzureConfig, ClientBuilder, OpenAIConfig};

#[test]
fn loads_simple_template() {
    let content = "---\nvariables:\n  role: \"assistant\"\n---\n\nYou are a {{role}}.";

    let template = PromptTemplate::from_content(content).unwrap();
    let result = template.render(&VarMap::new()).unwrap();

    assert!(result.contains("You are a assistant"));
}

#[test]
fn handles_template_without_frontmatter() {
    let content = "Simple template content.";
    let template = PromptTemplate::from_content(content).unwrap();
    let result = template.render(&VarMap::new()).unwrap();

    assert_eq!(result, "Simple template content.");
}

#[test]
fn substitutes_runtime_variables() {
    let content = "Hello {{name}}, you are {{age}} years old.";
    let template = PromptTemplate::from_content(content).unwrap();

    let vars = VarMap::new()
        .set("name", JsonValue::str_of("Alice"))
        .set("age", JsonValue::int_of(30));

    let result = template.render(&vars).unwrap();
    assert_eq!(result, "Hello Alice, you are 30 years old.");
}

#[test]
fn test_parser_builds_nodes() {
    let mut parser = TemplateParser::new("Hello {{name}}!");
    let nodes = parser.parse().unwrap();
    assert_eq!(nodes.len(), 3);
}

#[test]
fn test_template_validation_multiple_missing_variables() {
    let content =
        "---\nrequired_variables:\n  - \"a\"\n  - \"b\"\n  - \"c\"\n---\n{{a}}{{b}}{{c}}";
    let template = PromptTemplate::from_content(content).unwrap();
    let vars = VarMap::new().set("b", JsonValue::str_of("x"));
    match template.validate_variables(&vars).unwrap_err() {
        responses::Error::RequiredVariablesMissing { variables } => {
            assert_eq!(variables, vec!["a", "c"]);
        }
        e => panic!("unexpected error {:?}", e),
    }
}

#[test]
fn test_template_validation_all_variables_provided() {
    let content = "---\nrequired_variables:\n  - \"a\"\n---\n{{a}}";
    let template = PromptTemplate::from_content(content).unwrap();
    let vars = VarMap::new().set("a", JsonValue::str_of("x"));
    assert!(template.validate_variables(&vars).is_ok());
}

#[test]
fn test_template_validation_no_required_variables() {
    let content = "plain";
    let template = PromptTemplate::from_content(content).unwrap();
    assert!(template.validate_variables(&VarMap::new()).is_ok());
}

#[test]
fn test_template_validation_with_default_variables() {
    let content = "---\nvariables:\n  greeting: \"hi\"\nrequired_variables:\n  - \"name\"\n---\n{{greeting}} {{name}}";
    let template = PromptTemplate::from_content(content).unwrap();
    let vars = VarMap::new().set("name", JsonValue::str_of("Ada"));
    let result = template.render(&vars).unwrap();
    assert_eq!(result, "\nhi Ada");
}

#[test]
fn test_frontmatter_includes_validation() {
    let content = "---\nincludes:\n  - \"shared/header.md\"\n---\nBody";
    let template = PromptTemplate::from_content(content).unwrap();
    assert_eq!(template.includes(), vec!["shared/header.md"]);

    let empty = TemplateStore::new();
    assert!(template.validate_includes(&empty).is_err());

    let store = TemplateStore::new().add("shared/header.md", "Header");
    assert!(template.validate_includes(&store).is_ok());
}

#[test]
fn test_template_set_basic() {
    let set = TemplateSet::new()
        .add_template("greeting", "Hello {{name}}!")
        .unwrap();
    assert!(set.template_exists("greeting"));
    assert!(!set.template_exists("other"));
    assert_eq!(set.list_templates(), vec!["greeting"]);

    let vars = VarMap::new().set("name", JsonValue::str_of("Ada"));
    let result = set.render("greeting", &vars).unwrap();
    assert_eq!(result, "Hello Ada!");
}

#[test]
fn test_template_set_locale_switching() {
    let set = TemplateSet::new()
        .add_template("t", "{{#if_locale \"es\"}}hola{{else}}hello{{/if_locale}}")
        .unwrap();
    let vars = VarMap::new();
    assert_eq!(set.render("t", &vars).unwrap(), "hello");
    let set = set.with_locale("es").unwrap();
    assert_eq!(set.render("t", &vars).unwrap(), "hola");
}

#[test]
fn test_template_set_includes_resolve_from_set_store() {
    let set = TemplateSet::new()
        .add_source("shared/note.md", "note for {{name}}")
        .add_template("main", "Start {{> shared/note.md}} end")
        .unwrap();
    let vars = VarMap::new().set("name", JsonValue::str_of("Ada"));
    let result = set.render("main", &vars).unwrap();
    assert_eq!(result, "Start note for Ada end");
}

#[test]
fn test_conversation_template_workflow() {
    let set = TemplateSet::new()
        .add_conversation(
            "lesson",
            "## System\nTeach {{topic}}.\n\n## User\nExplain {{topic}}.",
        )
        .unwrap();
    assert!(set.conversation_exists("lesson"));
    let vars = VarMap::new().set("topic", JsonValue::str_of("Rust"));
    let messages = set.render_conversation("lesson", &vars).unwrap();
    assert_eq!(messages.len(), 2);
    if let Input::Message(m) = &messages.inputs()[0] {
        assert_eq!(m.role, Role::System);
        assert_eq!(m.content, "Teach Rust.");
    }
}

#[test]
fn test_openai_builder_with_api_key() {
    let builder = openai().api_key("sk-test");
    assert!(builder.config.is_some());
    assert_eq!(builder.config.unwrap().api_key, "sk-test");
}

#[test]
fn test_openai_builder_with_config() {
    let config = OpenAIConfig { api_key: "sk-direct".to_string() };
    let builder = ClientBuilder::openai().with_config(config);
    assert_eq!(builder.config.unwrap().api_key, "sk-direct");
}

#[test]
fn test_openai_builder_fails_without_config() {
    let builder = ClientBuilder::openai();
    assert!(builder.config.is_none());
}

#[test]
fn test_azure_config_builder() {
    let builder = azure()
        .api_key("key-1")
        .resource("my-resource")
        .api_version("2024-06-01")
        .build()
        .unwrap();
    let config = builder.config.unwrap();
    assert_eq!(config.api_key, "key-1");
    assert_eq!(config.resource, "my-resource");
    assert_eq!(config.api_version, "2024-06-01");
}

#[test]
fn test_azure_config_builder_default_api_version() {
    let builder = azure().api_key("key-1").resource("r").build().unwrap();
    assert_eq!(builder.config.unwrap().api_version, "2024-02-15-preview");
}

#[test]
fn test_azure_config_builder_requires_resource() {
    assert!(azure().api_key("key-1").build().is_err());
}

#[test]
fn test_azure_builder_with_config() {
    let config = AzureConfig {
        api_key: "k".to_string(),
        resource: "r".to_string(),
        api_version: "v".to_string(),
    };
    let builder = ClientBuilder::azure().with_config(config);
    assert_eq!(builder.config.unwrap().resource, "r");
}
