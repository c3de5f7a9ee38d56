//! Template compilation and rendering behaviour.

use responses::prompt::{PromptTemplate, TemplateSet, TemplateStore, LocaleManager};
use responses::conversation::ConversationTemplate;
use responses::types::{Input, Role};
use responses::value::{JsonValue, VarMap};
use responses::Error;

fn en_manager() -> LocaleManager {
    let files = vec![
        "system:\n  intro: \"You are a {role} with expertise in software development.\"\n  title: \"System Instructions\"\ngreeting: \"Hello! Welcome to the system\"\n".to_string(),
    ];
    LocaleManager::new("en").add_locale_yaml("en", &files).unwrap()
}

fn multi_manager() -> LocaleManager {
    let en = vec![
        "system:\n  intro: \"You are a {role} with expertise in software development.\"\n  title: \"System Instructions\"\ngreeting: \"Hello! Welcome to the system\"\n".to_string(),
    ];
    let es = vec![
        "system:\n  intro: \"Eres un {role} con experiencia en desarrollo de software.\"\n  title: \"Instrucciones del Sistema\"\ncurrent_tasks: \"Actualmente tienes {count} {tasks} pendientes de revision.\"\n".to_string(),
    ];
    let ar = vec![
        "system:\n  title: \"Taelimat alnizam\"\ntext_direction: \"rtl\"\n".to_string(),
    ];
    LocaleManager::new("en")
        .add_locale_yaml("en", &en)
        .unwrap()
        .add_locale_yaml("es", &es)
        .unwrap()
        .add_locale_yaml("ar", &ar)
        .unwrap()
}

#[test]
fn test_simple_template() {
    let content = "---\nvariables:\n  role: \"assistant\"\nrequired_variables:\n  - \"name\"\n---\n\nHello {{name}}, I am your {{role}}.";

    let template = PromptTemplate::from_content(content).unwrap();

    assert_eq!(template.required_variables().len(), 1);
    assert_eq!(template.required_variables()[0], "name");

    let vars = VarMap::new().set("name", JsonValue::str_of("Alice"));
    let result = template.render(&vars).unwrap();

    assert_eq!(result, "\n\nHello Alice, I am your assistant.");
}

#[test]
fn test_missing_required_variable() {
    let content = "---\nrequired_variables:\n  - \"name\"\n---\n\nHello {{name}}!";

    let template = PromptTemplate::from_content(content).unwrap();
    let vars = VarMap::new();

    let result = template.render(&vars);
    assert!(result.is_err());

    match result.unwrap_err() {
        Error::RequiredVariablesMissing { variables } => {
            assert_eq!(variables, vec!["name"]);
        }
        _ => panic!("Expected RequiredVariablesMissing error"),
    }
}

#[test]
fn test_nested_variables() {
    let content = "Contact {{user.name}} at {{user.email}}";
    let template = PromptTemplate::from_content(content).unwrap();

    let user = JsonValue::empty_object()
        .obj_set("name", JsonValue::str_of("Alice"))
        .obj_set("email", JsonValue::str_of("alice@example.com"));
    let vars = VarMap::new().set("user", user);

    let result = template.render(&vars).unwrap();
    assert_eq!(result, "Contact Alice at alice@example.com");
}

#[test]
fn test_template_without_frontmatter() {
    let content = "Simple template: {{message}}";
    let template = PromptTemplate::from_content(content).unwrap();

    let vars = VarMap::new().set("message", JsonValue::str_of("Hello World"));
    let result = template.render(&vars).unwrap();

    assert_eq!(result, "Simple template: Hello World");
}

#[test]
fn test_conversation_template_multi_turn() {
    let content = "---\nvariables:\n  topic: \"{{topic}}\"\n  level: \"{{level}}\"\n---\n\n## System\nYou are teaching {{topic}} to {{level}} students.\n\n## User  \nHow do I get started with {{topic}}?\n\n## Assistant\nGreat question! Let me explain {{topic}} basics for {{level}} learners.";

    let conversation = ConversationTemplate::load_from_content(content).unwrap();

    let vars = VarMap::new()
        .set("topic", JsonValue::str_of("Rust programming"))
        .set("level", JsonValue::str_of("beginner"));

    let messages = conversation.render(&vars).unwrap();
    assert_eq!(messages.len(), 3);

    if let Input::Message(msg) = &messages.inputs()[0] {
        assert_eq!(msg.role, Role::System);
        assert!(msg.content.contains("teaching Rust programming"));
        assert!(msg.content.contains("beginner students"));
    }

    if let Input::Message(msg) = &messages.inputs()[1] {
        assert_eq!(msg.role, Role::User);
        assert!(msg.content.contains("get started with Rust programming"));
    }

    if let Input::Message(msg) = &messages.inputs()[2] {
        assert_eq!(msg.role, Role::Assistant);
        assert!(msg.content.contains("Rust programming basics"));
        assert!(msg.content.contains("beginner learners"));
    }
}

#[test]
fn test_conversation_template_single_message() {
    let content = "You are a helpful assistant specializing in {{domain}}.";
    let conversation = ConversationTemplate::load_from_content(content).unwrap();

    let vars = VarMap::new().set("domain", JsonValue::str_of("mathematics"));
    let messages = conversation.render(&vars).unwrap();

    assert_eq!(messages.len(), 1);
    if let Input::Message(msg) = &messages.inputs()[0] {
        assert_eq!(msg.role, Role::System);
        assert!(msg.content.contains("mathematics"));
    }
}

#[test]
fn test_template_set_from_nonexistent_dir() {
    let template_set = TemplateSet::new();
    assert_eq!(template_set.list_templates().len(), 0);
    assert_eq!(template_set.list_conversations().len(), 0);
    assert_eq!(template_set.current_locale(), "en");
}

#[test]
fn template_test_template_set_locale_switching() {
    let template_set = TemplateSet::new();
    let localized_set = template_set.with_locale("es").unwrap();
    assert_eq!(localized_set.current_locale(), "es");
}

#[test]
fn test_i18n_template_initialization() {
    let content = "Hello {{i18n.greeting}} from {{name}}!";
    let template = PromptTemplate::from_content(content).unwrap();

    let localized_template = template.with_locale("es").unwrap();
    assert_eq!(localized_template.current_locale(), "es");
}

#[test]
fn test_if_conditional_true() {
    let content = "{{#if debug_mode}}\n## Debug Information\nDebug logging is enabled.\n{{/if}}\n\nRegular content.";

    let template = PromptTemplate::from_content(content).unwrap();
    let vars = VarMap::new().set("debug_mode", JsonValue::Bool(true));
    let result = template.render(&vars).unwrap();

    assert!(result.contains("## Debug Information"));
    assert!(result.contains("Debug logging is enabled."));
    assert!(result.contains("Regular content."));
}

#[test]
fn test_if_conditional_false() {
    let content = "{{#if debug_mode}}\nDebug info should not appear.\n{{/if}}\n\nRegular content.";

    let template = PromptTemplate::from_content(content).unwrap();
    let vars = VarMap::new().set("debug_mode", JsonValue::Bool(false));
    let result = template.render(&vars).unwrap();

    assert!(!result.contains("Debug info should not appear."));
    assert!(result.contains("Regular content."));
}

#[test]
fn test_if_else_conditional() {
    let content = "{{#if advanced_mode}}\nUse advanced features.\n{{else}}\nUse basic features.\n{{/if}}";

    let template = PromptTemplate::from_content(content).unwrap();

    let vars = VarMap::new().set("advanced_mode", JsonValue::Bool(true));
    let result = template.render(&vars).unwrap();
    assert!(result.contains("Use advanced features."));
    assert!(!result.contains("Use basic features."));

    let vars = VarMap::new().set("advanced_mode", JsonValue::Bool(false));
    let result = template.render(&vars).unwrap();
    assert!(!result.contains("Use advanced features."));
    assert!(result.contains("Use basic features."));
}

#[test]
fn test_each_loop_with_array() {
    let content = "{{#each projects}}\n### {{this.name}}\nStatus: {{this.status}}\n{{#each this.tasks}}\n- [ ] {{this}}\n{{/each}}\n{{/each}}";

    let template = PromptTemplate::from_content(content).unwrap();

    let project_a = JsonValue::empty_object()
        .obj_set("name", JsonValue::str_of("Project A"))
        .obj_set("status", JsonValue::str_of("In Progress"))
        .obj_set(
            "tasks",
            JsonValue::empty_array()
                .arr_push(JsonValue::str_of("Task 1"))
                .arr_push(JsonValue::str_of("Task 2")),
        );
    let project_b = JsonValue::empty_object()
        .obj_set("name", JsonValue::str_of("Project B"))
        .obj_set("status", JsonValue::str_of("Complete"))
        .obj_set(
            "tasks",
            JsonValue::empty_array().arr_push(JsonValue::str_of("Task 3")),
        );
    let vars = VarMap::new().set(
        "projects",
        JsonValue::empty_array().arr_push(project_a).arr_push(project_b),
    );

    let result = template.render(&vars).unwrap();
    assert!(result.contains("### Project A"));
    assert!(result.contains("Status: In Progress"));
    assert!(result.contains("- [ ] Task 1"));
    assert!(result.contains("- [ ] Task 2"));
    assert!(result.contains("### Project B"));
    assert!(result.contains("Status: Complete"));
    assert!(result.contains("- [ ] Task 3"));
}

#[test]
fn test_switch_case_statements() {
    let content = "{{#switch user_level}}\n  {{#case \"beginner\"}}\nStart with basic concepts.\n  {{/case}}\n  {{#case \"intermediate\"}}\nFocus on practical examples.\n  {{/case}}\n  {{#case \"advanced\"}}\nFocus on optimization patterns.\n  {{/case}}\n{{/switch}}";

    let template = PromptTemplate::from_content(content).unwrap();

    let vars = VarMap::new().set("user_level", JsonValue::str_of("beginner"));
    let result = template.render(&vars).unwrap();
    assert!(result.contains("Start with basic concepts."));
    assert!(!result.contains("practical examples"));
    assert!(!result.contains("optimization patterns"));

    let vars = VarMap::new().set("user_level", JsonValue::str_of("advanced"));
    let result = template.render(&vars).unwrap();
    assert!(!result.contains("basic concepts"));
    assert!(!result.contains("practical examples"));
    assert!(result.contains("Focus on optimization patterns."));
}

fn fixture_store() -> TemplateStore {
    TemplateStore::new()
        .add(
            "shared/greeting.md",
            "{{i18n \"greeting\"}}\n\nThis is content from the shared greeting template.",
        )
        .add(
            "system_prompt.md",
            "# {{i18n \"system.title\"}}\n\n{{i18n \"system.intro\" role=role}}\n\nDomain: {{domain}}",
        )
        .add("shared/footer.md", "Footer locale={{locale}} version={{version}}")
        .add("recursive/parent.md", "Parent content\n{{> recursive/child.md}}")
        .add("recursive/child.md", "Child content\n{{> recursive/grandchild.md}}")
        .add("recursive/grandchild.md", "Grandchild content")
        .add("recursive/circular_a.md", "A starts\n{{> recursive/circular_b.md}}")
        .add("recursive/circular_b.md", "B starts\n{{> recursive/circular_a.md}}")
}

#[test]
fn test_basic_template_include_with_fixtures() {
    let content = "# Main Template\n\n{{> shared/greeting.md}}\n\nContent here.";

    let template = PromptTemplate::from_content(content)
        .unwrap()
        .with_template_store(fixture_store())
        .with_locale_manager(en_manager())
        .with_locale("en")
        .unwrap();

    let result = template.render(&VarMap::new()).unwrap();
    assert!(result.contains("This is content from the shared greeting template."));
    assert!(result.contains("Hello! Welcome to the system"));
}

#[test]
fn test_template_include_with_variables() {
    let content = "User: {{username}}\n\n{{> shared/greeting.md}}";

    let template = PromptTemplate::from_content(content)
        .unwrap()
        .with_locale_manager(en_manager())
        .with_locale("en")
        .unwrap();
    let vars = VarMap::new().set("username", JsonValue::str_of("Alice"));
    let result = template.render_with_store(&vars, &fixture_store()).unwrap();

    assert!(result.contains("User: Alice"));
    assert!(result.contains("This is content from the shared greeting template."));
    assert!(result.contains("Hello! Welcome to the system"));
}

#[test]
fn test_recursive_template_includes() {
    let content = "{{> recursive/parent.md}}";

    let template = PromptTemplate::from_content(content)
        .unwrap()
        .with_template_store(fixture_store());
    let result = template.render(&VarMap::new()).unwrap();

    assert!(result.contains("Parent content"));
    assert!(result.contains("Child content"));
    assert!(result.contains("Grandchild content"));
}

#[test]
fn test_template_include_with_parameters() {
    let content = "{{> shared/footer.md locale=\"es\" version=\"2.0\"}}";

    let template = PromptTemplate::from_content(content)
        .unwrap()
        .with_template_store(fixture_store());
    let result = template.render(&VarMap::new()).unwrap();

    assert!(result.contains("es") || result.contains("2.0"));
}

#[test]
fn test_template_include_with_template_variables() {
    let content = "{{> shared/footer.md locale=current_locale version=app_version}}";

    let template = PromptTemplate::from_content(content)
        .unwrap()
        .with_template_store(fixture_store());
    let vars = VarMap::new()
        .set("current_locale", JsonValue::str_of("es"))
        .set("app_version", JsonValue::str_of("3.1.4"));
    let result = template.render(&vars).unwrap();

    assert!(result.contains("es") || result.contains("3.1.4"));
}

#[test]
fn test_template_include_nonexistent_file() {
    let content = "{{> nonexistent/template.md}}";

    let template = PromptTemplate::from_content(content).unwrap();
    let result = template.render(&VarMap::new()).unwrap();

    assert!(result.contains("Include not found") || result.contains("nonexistent/template.md"));
}

#[test]
fn test_circular_reference_detection() {
    let content = "{{> recursive/circular_a.md}}";

    let template = PromptTemplate::from_content(content)
        .unwrap()
        .with_template_store(fixture_store());
    let result = template.render(&VarMap::new());

    assert!(result.is_ok());
    let text = result.unwrap();
    assert!(text.contains("Circular reference detected"));
}

#[test]
fn test_self_referential_include() {
    let store = TemplateStore::new().add("a.md", "Self\n{{> a.md}}");
    let template = PromptTemplate::from_content("{{> a.md}}")
        .unwrap()
        .with_template_store(store);
    let result = template.render(&VarMap::new()).unwrap();
    assert!(result.contains("Self"));
    assert!(result.contains("<!-- Circular reference detected: a.md -->"));
}

#[test]
fn test_nested_includes_with_i18n() {
    let content = "{{> system_prompt.md}}";

    let template = PromptTemplate::from_content(content)
        .unwrap()
        .with_template_store(fixture_store())
        .with_locale_manager(multi_manager())
        .with_locale("es")
        .unwrap();

    let vars = VarMap::new()
        .set("role", JsonValue::str_of("asistente"))
        .set("domain", JsonValue::str_of("programacion"));
    let result = template.render(&vars).unwrap();

    assert!(result.contains("Instrucciones del Sistema"));
    assert!(result.contains("asistente"));
    assert!(result.contains("programacion"));
}

#[test]
fn test_multiple_includes_in_template() {
    let content = "{{> shared/greeting.md}}\n\nMain content here.\n\n{{> system_prompt.md}}\n\n{{> shared/greeting.md}}";

    let template = PromptTemplate::from_content(content)
        .unwrap()
        .with_template_store(fixture_store())
        .with_locale_manager(multi_manager())
        .with_locale("en")
        .unwrap();
    let vars = VarMap::new()
        .set("role", JsonValue::str_of("assistant"))
        .set("domain", JsonValue::str_of("software"));
    let result = template.render(&vars).unwrap();

    assert_eq!(
        result
            .matches("This is content from the shared greeting template.")
            .count(),
        2
    );
    assert!(result.contains("Main content here."));
    assert!(result.contains("System Instructions"));
}

#[test]
fn test_i18n_basic_parameter_interpolation() {
    let content = "{{i18n \"system.intro\" role=\"assistant\"}}";

    let template = PromptTemplate::from_content(content)
        .unwrap()
        .with_locale_manager(en_manager())
        .with_locale("en")
        .unwrap();

    let result = template.render(&VarMap::new()).unwrap();
    assert_eq!(
        result,
        "You are a assistant with expertise in software development."
    );
}

#[test]
fn test_i18n_with_template_variables() {
    let content = "{{i18n \"system.intro\" role=role}}";

    let template = PromptTemplate::from_content(content)
        .unwrap()
        .with_locale_manager(en_manager())
        .with_locale("en")
        .unwrap();

    let vars = VarMap::new().set("role", JsonValue::str_of("senior engineer"));
    let result = template.render(&vars).unwrap();
    assert_eq!(
        result,
        "You are a senior engineer with expertise in software development."
    );
}

#[test]
fn test_i18n_multilingual_with_fixtures() {
    let content = "{{i18n \"system.intro\" role=\"desarrollador\"}}";

    let template = PromptTemplate::from_content(content)
        .unwrap()
        .with_locale_manager(multi_manager())
        .with_locale("es")
        .unwrap();

    let result = template.render(&VarMap::new()).unwrap();
    assert_eq!(
        result,
        "Eres un desarrollador con experiencia en desarrollo de software."
    );
}

#[test]
fn test_i18n_complex_parameter_interpolation() {
    let content = "{{i18n \"current_tasks\" count=task_count tasks=\"tareas\"}}";

    let template = PromptTemplate::from_content(content)
        .unwrap()
        .with_locale_manager(multi_manager())
        .with_locale("es")
        .unwrap();

    let vars = VarMap::new().set("task_count", JsonValue::int_of(3));
    let result = template.render(&vars).unwrap();
    assert_eq!(result, "Actualmente tienes 3 tareas pendientes de revision.");
}

#[test]
fn test_i18n_with_nested_variables() {
    let content = "{{i18n \"system.intro\" role=user.role}}";

    let template = PromptTemplate::from_content(content)
        .unwrap()
        .with_locale_manager(en_manager())
        .with_locale("en")
        .unwrap();

    let user = JsonValue::empty_object().obj_set("role", JsonValue::str_of("architect"));
    let vars = VarMap::new().set("user", user);
    let result = template.render(&vars).unwrap();
    assert_eq!(
        result,
        "You are a architect with expertise in software development."
    );
}

#[test]
fn test_i18n_key_not_found_strict_error() {
    let content = "{{i18n \"nonexistent.key\" param=\"value\"}}";

    let template = PromptTemplate::from_content(content)
        .unwrap()
        .with_locale_manager(en_manager())
        .with_locale("en")
        .unwrap();

    let result = template.render(&VarMap::new());
    assert!(result.is_err());
    match result.unwrap_err() {
        Error::I18nKeyNotFound { key, locale } => {
            assert_eq!(key, "nonexistent.key");
            assert_eq!(locale, "en");
        }
        e => panic!("Expected I18nKeyNotFound error, got: {:?}", e),
    }
}

#[test]
fn test_i18n_locale_fallback_chain() {
    let content = "{{i18n \"system.title\"}}";

    let template = PromptTemplate::from_content(content)
        .unwrap()
        .with_locale_manager(multi_manager())
        .with_locale("es-MX")
        .unwrap();

    let result = template.render(&VarMap::new()).unwrap();
    assert_eq!(result, "Instrucciones del Sistema");
}

#[test]
fn test_locale_fallback_resolution() {
    let manager = multi_manager();
    assert_eq!(manager.resolve_locale("es-MX").unwrap(), "es");
    assert_eq!(manager.resolve_locale("es").unwrap(), "es");
    assert_eq!(manager.resolve_locale("fr").unwrap(), "en");
}

#[test]
fn test_advanced_i18n_integration_with_conditionals() {
    let content = "{{#if_locale \"ar\"}}\n{{i18n \"system.title\"}}\n{{else}}\n{{i18n \"system.title\"}}\n{{/if_locale}}";

    let template_en = PromptTemplate::from_content(content)
        .unwrap()
        .with_locale_manager(multi_manager())
        .with_locale("en")
        .unwrap();
    let result_en = template_en.render(&VarMap::new()).unwrap();
    assert!(result_en.contains("System Instructions"));

    let template_ar = PromptTemplate::from_content(content)
        .unwrap()
        .with_locale_manager(multi_manager())
        .with_locale("ar")
        .unwrap();
    let result_ar = template_ar.render(&VarMap::new()).unwrap();
    assert!(result_ar.contains("Taelimat alnizam"));
}

#[test]
fn test_if_locale_conditional() {
    let content = "Welcome message.\n\n{{#if_locale \"ar\"}}\n<div dir=\"rtl\">muhtawa arabi</div>\n{{/if_locale}}\n\n{{#if_locale \"en\"}}\n<div dir=\"ltr\">English content</div>\n{{/if_locale}}";

    let template = PromptTemplate::from_content(content).unwrap();

    let arabic_template = template.clone().with_locale("ar").unwrap();
    let result = arabic_template.render(&VarMap::new()).unwrap();
    assert!(result.contains("muhtawa arabi"));
    assert!(!result.contains("English content"));

    let english_template = template.with_locale("en").unwrap();
    let result = english_template.render(&VarMap::new()).unwrap();
    assert!(!result.contains("muhtawa arabi"));
    assert!(result.contains("English content"));
}

#[test]
fn test_format_number_helper_basic() {
    let content = "Progress: {{format_number progress style=\"percent\"}}";

    let template = PromptTemplate::from_content(content).unwrap();

    let vars = VarMap::new().set("progress", JsonValue::number(false, 75, 2));
    let result = template.render(&vars).unwrap();
    assert!(result.contains("75%"));

    let vars = VarMap::new().set("progress", JsonValue::number(false, 5, 1));
    let result = template.render(&vars).unwrap();
    assert!(result.contains("50%"));
}

#[test]
fn test_format_number_fractional_percent() {
    let content = "{{format_number v style=\"percent\"}}";
    let template = PromptTemplate::from_content(content).unwrap();
    let vars = VarMap::new().set("v", JsonValue::number(false, 847, 3));
    let result = template.render(&vars).unwrap();
    assert_eq!(result, "84.7%");
}

#[test]
fn test_format_number_helper_currency() {
    let content = "Price: {{format_number price style=\"currency\" currency=\"USD\"}}";

    let template = PromptTemplate::from_content(content).unwrap();

    let vars = VarMap::new().set("price", JsonValue::number(false, 2999, 2));
    let result = template.render(&vars).unwrap();
    assert!(result.contains("$29.99") || result.contains("29.99") || result.contains("USD"));
}

#[test]
fn test_format_number_helper_decimal() {
    let content = "Value: {{format_number value style=\"decimal\" precision=\"2\"}}";

    let template = PromptTemplate::from_content(content).unwrap();

    let vars = VarMap::new().set("value", JsonValue::number(false, 314159, 5));
    let result = template.render(&vars).unwrap();
    assert!(result.contains("3.14"));
}

#[test]
fn test_format_number_with_locale() {
    let content = "{{format_number value style=\"decimal\"}}";

    let template_en = PromptTemplate::from_content(content)
        .unwrap()
        .with_locale("en")
        .unwrap();
    let vars = VarMap::new().set("value", JsonValue::number(false, 123456, 2));
    let result_en = template_en.render(&vars).unwrap();

    assert!(result_en.contains("1,234.56") || result_en.contains("1234.56"));

    let template_es = PromptTemplate::from_content(content)
        .unwrap()
        .with_locale("es")
        .unwrap();
    let result_es = template_es.render(&vars).unwrap();
    assert!(!result_es.is_empty());
}

#[test]
fn test_conditional_template_composition() {
    let content = "---\nvariables:\n  mode: \"{{mode}}\"\n---\n\n# Main Template\n\n{{> shared/header.md}}\n\n{{#if advanced_mode}}\n{{> advanced/expert_instructions.md}}\n{{else}}\n{{> basic/beginner_instructions.md}}\n{{/if}}\n\n{{> shared/footer.md locale=current_locale}}";

    let template = PromptTemplate::from_content(content).unwrap();

    let vars = VarMap::new().set("advanced_mode", JsonValue::Bool(true));
    let _result = template.render(&vars);
}

#[test]
fn test_nested_conditionals_and_loops() {
    let content = "{{#each users}}\n## User: {{this.name}}\n\n{{#if this.active}}\nStatus: Active\n{{#each this.permissions}}\n- Permission: {{this}}\n{{/each}}\n{{else}}\nStatus: Inactive\n{{/if}}\n\n{{/each}}";

    let template = PromptTemplate::from_content(content).unwrap();
    let alice = JsonValue::empty_object()
        .obj_set("name", JsonValue::str_of("Alice"))
        .obj_set("active", JsonValue::Bool(true))
        .obj_set(
            "permissions",
            JsonValue::empty_array()
                .arr_push(JsonValue::str_of("read"))
                .arr_push(JsonValue::str_of("write")),
        );
    let bob = JsonValue::empty_object()
        .obj_set("name", JsonValue::str_of("Bob"))
        .obj_set("active", JsonValue::Bool(false))
        .obj_set("permissions", JsonValue::empty_array());
    let vars = VarMap::new().set(
        "users",
        JsonValue::empty_array().arr_push(alice).arr_push(bob),
    );

    let result = template.render(&vars).unwrap();
    assert!(result.contains("## User: Alice"));
    assert!(result.contains("Status: Active"));
    assert!(result.contains("- Permission: read"));
    assert!(result.contains("- Permission: write"));
    assert!(result.contains("## User: Bob"));
    assert!(result.contains("Status: Inactive"));
    assert!(!result.contains("- Permission:") || result.matches("- Permission:").count() == 2);
}

#[test]
fn test_render_determinism() {
    let content = "{{#each items}}{{this}}{{/each}} and {{name}}";
    let template = PromptTemplate::from_content(content).unwrap();
    let vars = VarMap::new()
        .set(
            "items",
            JsonValue::empty_array()
                .arr_push(JsonValue::str_of("a"))
                .arr_push(JsonValue::str_of("b")),
        )
        .set("name", JsonValue::str_of("x"));
    let first = template.render(&vars).unwrap();
    let second = template.render(&vars).unwrap();
    assert_eq!(first, second);
    assert_eq!(first, "ab and x");
}

#[test]
fn test_each_missing_or_non_array() {
    let content = "{{#each items}}{{this}}{{/each}}";
    let template = PromptTemplate::from_content(content).unwrap();

    let result = template.render(&VarMap::new()).unwrap();
    assert_eq!(result, "");

    let vars = VarMap::new().set("items", JsonValue::str_of("not an array"));
    let result = template.render(&vars).unwrap();
    assert_eq!(result, "");
}

#[test]
fn test_relative_include_resolution() {
    let template_content = "---\nvariables:\n  name: \"test\"\n---\nMain content\n{{> shared/greeting.md}}";

    let template = PromptTemplate::from_content(template_content)
        .unwrap()
        .with_locale_manager(en_manager())
        .with_locale("en")
        .unwrap();
    let vars = VarMap::new().set("name", JsonValue::str_of("Alice"));

    let result = template.render_with_store(&vars, &fixture_store());

    assert!(result.is_ok());
    let rendered = result.unwrap();
    assert!(rendered.contains("Main content"));
    assert!(rendered.contains("This is content from the shared greeting template"));
}

#[test]
fn test_nested_relative_includes() {
    let template_content = "---\nvariables:\n  status: \"active\"\n---\n{{> modes/debug_instructions.md}}\n{{> shared/status_header.md status=status}}";

    let template = PromptTemplate::from_content(template_content).unwrap();
    let vars = VarMap::new().set("status", JsonValue::str_of("debugging"));

    let result = template.render(&vars);
    assert!(result.is_ok() || result.is_err());
}

#[test]
fn test_frontmatter_includes_auto_loading() {
    let template_content = "---\nvariables:\n  user_name: \"Alice\"\nincludes:\n  - \"shared/greeting.md\"\n  - \"shared/footer.md\"\n---\nWelcome message:\n{{> shared/greeting.md}}\n\nMain content for {{user_name}}.\n\n{{> shared/footer.md locale=\"en\" version=\"1\"}}";

    let template = PromptTemplate::from_content(template_content)
        .unwrap()
        .with_locale_manager(en_manager())
        .with_locale("en")
        .unwrap();
    let vars = VarMap::new().set("user_name", JsonValue::str_of("Bob"));

    let result = template.render_with_store(&vars, &fixture_store());
    assert!(result.is_ok());

    let rendered = result.unwrap();
    assert!(rendered.contains("Welcome message:"));
    assert!(rendered.contains("Main content for Bob"));
    assert!(rendered.contains("This is content from the shared greeting template"));
}

#[test]
fn test_frontmatter_includes_missing_dependency() {
    let template_content = "---\nincludes:\n  - \"nonexistent/template.md\"\n---\nThis template depends on missing files.";

    let template = PromptTemplate::from_content(template_content).unwrap();

    let result = template.render_with_store(&VarMap::new(), &fixture_store());
    assert!(result.is_err());

    match result.unwrap_err() {
        Error::TemplateParsing(msg) => {
            assert!(msg.contains("Include file not found"));
            assert!(msg.contains("nonexistent/template.md"));
        }
        e => panic!("Expected TemplateParsing error, got: {:?}", e),
    }
}

#[test]
fn test_frontmatter_includes_circular_detection() {
    let template_content = "---\nincludes:\n  - \"recursive/circular_a.md\"\n---\nThis should detect circular references:\n{{> recursive/circular_a.md}}";

    let template = PromptTemplate::from_content(template_content).unwrap();

    let result = template.render_with_store(&VarMap::new(), &fixture_store());
    assert!(result.is_ok());

    let rendered = result.unwrap();
    assert!(rendered.contains("Circular reference detected"));
}

#[test]
fn test_include_path_resolution() {
    let store = fixture_store().add(
        "conversations/learning_session.md",
        "You are an expert instructor.\nLevel: {{user_level}} level\nTopic: {{topic}}\nQuestion: {{user_question}}",
    );
    let content = "{{> conversations/learning_session.md}}";

    let template = PromptTemplate::from_content(content)
        .unwrap()
        .with_template_store(store);
    let vars = VarMap::new()
        .set("topic", JsonValue::str_of("Rust"))
        .set("user_level", JsonValue::str_of("intermediate"))
        .set("user_question", JsonValue::str_of("How do lifetimes work?"));
    let result = template.render(&vars).unwrap();

    assert!(result.contains("expert instructor"));
    assert!(result.contains("intermediate level"));
    assert!(result.contains("Rust"));
    assert!(result.contains("How do lifetimes work?"));
}

#[test]
fn test_unknown_helper_renders_marker() {
    let content = "{{plural count \"item\"}}";
    let template = PromptTemplate::from_content(content).unwrap();
    let vars = VarMap::new().set("count", JsonValue::int_of(2));
    let result = template.render(&vars).unwrap();
    assert_eq!(result, "<!-- Unknown helper: plural -->");
}

#[test]
fn test_format_number_missing_variable_marker() {
    let content = "{{format_number missing style=\"percent\"}}";
    let template = PromptTemplate::from_content(content).unwrap();
    let result = template.render(&VarMap::new()).unwrap();
    assert_eq!(result, "<!-- variable missing not found -->");
}

#[test]
fn test_text_direction_metadata() {
    let manager = multi_manager();
    let ar = manager.get_locale("ar").unwrap();
    assert_eq!(ar.text_direction(), "rtl");
    let en = manager.get_locale("en").unwrap();
    assert_eq!(en.text_direction(), "ltr");
    let he = manager.get_locale("he-IL").unwrap();
    assert_eq!(he.text_direction(), "rtl");
}

#[test]
fn test_string_value_parsed_by_format_number() {
    let content = "{{format_number v style=\"percent\"}}";
    let template = PromptTemplate::from_content(content).unwrap();
    let vars = VarMap::new().set("v", JsonValue::str_of("0.5"));
    let result = template.render(&vars).unwrap();
    assert_eq!(result, "50%");
}

#[test]
fn test_if_condition_absent_is_false() {
    let content = "{{#if debug}}X{{/if}}done";
    let template = PromptTemplate::from_content(content).unwrap();
    let result = template.render(&VarMap::new()).unwrap();
    assert_eq!(result, "done");
}

#[test]
fn test_each_renders_elements_in_order() {
    let content = "{{#each items}}{{this}}{{/each}}";
    let template = PromptTemplate::from_content(content).unwrap();
    let vars = VarMap::new().set(
        "items",
        JsonValue::empty_array()
            .arr_push(JsonValue::str_of("a"))
            .arr_push(JsonValue::str_of("b")),
    );
    let result = template.render(&vars).unwrap();
    assert_eq!(result, "ab");
}

#[test]
fn test_conversation_preheader_content_becomes_system_turn() {
    let content = "Intro\n## User\nhi";
    let conversation = ConversationTemplate::load_from_content(content).unwrap();
    let messages = conversation.render(&VarMap::new()).unwrap();
    assert_eq!(messages.len(), 2);
    if let Input::Message(m) = &messages.inputs()[0] {
        assert_eq!(m.role, Role::System);
        assert_eq!(m.content, "Intro");
    }
    if let Input::Message(m) = &messages.inputs()[1] {
        assert_eq!(m.role, Role::User);
        assert_eq!(m.content, "hi");
    }
}

#[test]
fn test_set_locale_switch_reaches_conversations() {
    let set = TemplateSet::new()
        .add_conversation(
            "c",
            "## System\n{{#if_locale \"es\"}}hola{{else}}hello{{/if_locale}}",
        )
        .unwrap();
    let vars = VarMap::new();
    let before = set.render_conversation("c", &vars).unwrap();
    if let Input::Message(m) = &before.inputs()[0] {
        assert_eq!(m.content, "hello");
    }
    let set = set.with_locale("es").unwrap();
    let after = set.render_conversation("c", &vars).unwrap();
    if let Input::Message(m) = &after.inputs()[0] {
        assert_eq!(m.content, "hola");
    }
}

#[test]
fn test_add_locale_yaml_with_no_files() {
    let manager = LocaleManager::new("en")
        .add_locale_yaml("en", &Vec::new())
        .unwrap();
    assert_eq!(manager.resolve_locale("en").unwrap(), "en");
    let data = manager.get_locale("en").unwrap();
    assert!(data.get_string("anything").is_none());
}

#[test]
fn test_add_locale_documents_merges_last_wins() {
    let first = JsonValue::empty_object()
        .obj_set("greeting", JsonValue::str_of("old"))
        .obj_set("kept", JsonValue::str_of("yes"));
    let second = JsonValue::empty_object().obj_set("greeting", JsonValue::str_of("new"));
    let manager = LocaleManager::new("en")
        .add_locale_documents("en", &vec![first, second])
        .unwrap();
    let data = manager.get_locale("en").unwrap();
    assert_eq!(data.get_string("greeting").unwrap(), "new");
    assert_eq!(data.get_string("kept").unwrap(), "yes");
}

#[test]
fn test_add_locale_documents_rejects_non_mapping() {
    let result = LocaleManager::new("en")
        .add_locale_documents("en", &vec![JsonValue::str_of("not a mapping")]);
    match result.unwrap_err() {
        Error::TemplateParsing(msg) => assert!(msg.contains("not a mapping")),
        e => panic!("Expected TemplateParsing, got {:?}", e),
    }
}

#[test]
fn test_add_template_propagates_parse_error() {
    let result = TemplateSet::new().add_template("bad", "broken {{tail");
    match result.unwrap_err() {
        Error::TemplateParsing(msg) => assert!(msg.contains("Unclosed template expression")),
        e => panic!("Expected TemplateParsing, got {:?}", e),
    }
}

#[test]
fn test_render_with_store_reports_missing_required() {
    let content = "---\nrequired_variables:\n  - \"name\"\n---\n{{name}}";
    let template = PromptTemplate::from_content(content).unwrap();
    let store = TemplateStore::new();
    match template.render_with_store(&VarMap::new(), &store).unwrap_err() {
        Error::RequiredVariablesMissing { variables } => {
            assert_eq!(variables, vec!["name"]);
        }
        e => panic!("Expected RequiredVariablesMissing, got {:?}", e),
    }
}
