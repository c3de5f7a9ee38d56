//! Strict variable and translation lookups fail loudly; the lenient paths
//! stay lenient.

use responses::prompt::PromptTemplate;
use responses::value::{JsonValue, VarMap};
use responses::Error;

#[test]
fn test_error_on_missing_variable_not_in_required() {
    let content = "---\nvariables:\n  role: \"assistant\"\n---\nHello {{name}}, I am your {{role}}.";

    let template = PromptTemplate::from_content(content).unwrap();
    let vars = VarMap::new();

    let result = template.render(&vars);
    assert!(result.is_err(), "Should error when variable is missing");

    match result.unwrap_err() {
        Error::TemplateVariableNotFound { name } => {
            assert_eq!(name, "name");
        }
        e => panic!("Expected TemplateVariableNotFound error, got: {:?}", e),
    }
}

#[test]
fn test_error_on_missing_nested_variable() {
    let content = "---\nvariables:\n  role: \"assistant\"\n---\nHello {{user.name}}, I am your {{role}}.";

    let template = PromptTemplate::from_content(content).unwrap();
    let vars = VarMap::new();

    let result = template.render(&vars);
    assert!(result.is_err(), "Should error when nested variable is missing");

    match result.unwrap_err() {
        Error::TemplateVariableNotFound { name } => {
            assert_eq!(name, "user.name");
        }
        e => panic!("Expected TemplateVariableNotFound error, got: {:?}", e),
    }
}

#[test]
fn test_error_on_partially_missing_nested_variable() {
    let content = "---\nvariables:\n  role: \"assistant\"\n---\nHello {{user.name}}, I am your {{role}}.";

    let template = PromptTemplate::from_content(content).unwrap();
    let user = JsonValue::empty_object().obj_set("id", JsonValue::int_of(123));
    let vars = VarMap::new().set("user", user);

    let result = template.render(&vars);
    assert!(result.is_err(), "Should error when nested variable field is missing");

    match result.unwrap_err() {
        Error::TemplateVariableNotFound { name } => {
            assert_eq!(name, "user.name");
        }
        e => panic!("Expected TemplateVariableNotFound error, got: {:?}", e),
    }
}

#[test]
fn test_nested_variable_on_empty_object() {
    let content = "{{user.name}}";
    let template = PromptTemplate::from_content(content).unwrap();
    let vars = VarMap::new().set("user", JsonValue::empty_object());
    match template.render(&vars).unwrap_err() {
        Error::TemplateVariableNotFound { name } => assert_eq!(name, "user.name"),
        e => panic!("Expected TemplateVariableNotFound error, got: {:?}", e),
    }
}

#[test]
fn test_error_on_missing_i18n_key() {
    let content = "---\nvariables:\n  role: \"assistant\"\n---\n{{i18n \"nonexistent.key\"}} {{role}}!";

    let template = PromptTemplate::from_content(content).unwrap();
    let vars = VarMap::new();

    let result = template.render(&vars);
    assert!(result.is_err(), "Should error when i18n key is missing");

    match result.unwrap_err() {
        Error::I18nKeyNotFound { key, locale } => {
            assert_eq!(key, "nonexistent.key");
            assert_eq!(locale, "en");
        }
        e => panic!("Expected I18nKeyNotFound error, got: {:?}", e),
    }
}

#[test]
fn test_error_on_missing_i18n_key_with_locale() {
    let content = "---\nvariables:\n  role: \"assistant\"\ni18n_key: \"system\"\n---\n{{i18n \"missing.key\"}} {{role}}!";

    let template = PromptTemplate::from_content(content)
        .unwrap()
        .with_locale("es")
        .unwrap();
    let vars = VarMap::new();

    let result = template.render(&vars);
    assert!(result.is_err(), "Should error when i18n key is missing in locale");

    match result.unwrap_err() {
        Error::I18nKeyNotFound { key, locale } => {
            assert_eq!(key, "missing.key");
            assert_eq!(locale, "es");
        }
        e => panic!("Expected I18nKeyNotFound error, got: {:?}", e),
    }
}

#[test]
fn test_successful_render_with_all_variables() {
    let content = "---\nvariables:\n  role: \"assistant\"\n---\nHello {{name}}, I am your {{role}}.";

    let template = PromptTemplate::from_content(content).unwrap();
    let vars = VarMap::new().set("name", JsonValue::str_of("Alice"));

    let result = template.render(&vars);
    assert!(result.is_ok(), "Should succeed when all variables are provided");

    let rendered = result.unwrap();
    assert_eq!(rendered.trim(), "Hello Alice, I am your assistant.");
}

#[test]
fn test_successful_render_with_nested_variables() {
    let content = "---\nvariables:\n  role: \"assistant\"\n---\nHello {{user.name}}, I am your {{role}}.";

    let template = PromptTemplate::from_content(content).unwrap();
    let user = JsonValue::empty_object().obj_set("name", JsonValue::str_of("Bob"));
    let vars = VarMap::new().set("user", user);

    let result = template.render(&vars);
    assert!(result.is_ok(), "Should succeed when nested variables are provided");

    let rendered = result.unwrap();
    assert_eq!(rendered.trim(), "Hello Bob, I am your assistant.");
}

#[test]
fn test_missing_required_lists_every_name() {
    let content = "---\nrequired_variables:\n  - \"name\"\n  - \"role\"\n  - \"domain\"\n---\n{{name}} {{role}} {{domain}}";
    let template = PromptTemplate::from_content(content).unwrap();
    let vars = VarMap::new().set("role", JsonValue::str_of("x"));
    match template.render(&vars).unwrap_err() {
        Error::RequiredVariablesMissing { variables } => {
            assert_eq!(variables, vec!["name", "domain"]);
        }
        e => panic!("Expected RequiredVariablesMissing error, got: {:?}", e),
    }
}

#[test]
fn test_unterminated_expression_is_parse_error() {
    let result = PromptTemplate::from_content("Hello {{name");
    match result.unwrap_err() {
        Error::TemplateParsing(msg) => {
            assert!(msg.contains("Unclosed template expression"));
        }
        e => panic!("Expected TemplateParsing error, got: {:?}", e),
    }
}

#[test]
fn test_locale_not_found_error() {
    let manager = responses::prompt::LocaleManager::new("en");
    match manager.resolve_locale("fr").unwrap_err() {
        Error::LocaleNotFound { locale } => assert_eq!(locale, "fr"),
        e => panic!("Expected LocaleNotFound error, got: {:?}", e),
    }
}
