//! Conversation history building and slicing.

use responses::Messages;
use responses::types::{Input, Role};

#[test]
fn test_messages_builder() {
    let conversation = Messages::new()
        .system("You are a helpful assistant")
        .user("What's 2+2?")
        .assistant("2+2 equals 4")
        .user("What about 3+3?");

    assert_eq!(conversation.len(), 4);
    assert!(!conversation.is_empty());

    if let Input::Message(msg) = &conversation.inputs()[0] {
        assert_eq!(msg.role, Role::System);
        assert_eq!(msg.content, "You are a helpful assistant");
    }
    if let Input::Message(msg) = &conversation.inputs()[3] {
        assert_eq!(msg.role, Role::User);
        assert_eq!(msg.content, "What about 3+3?");
    }
}

#[test]
fn test_conversation_slicing() {
    let conversation = Messages::new()
        .system("System prompt")
        .user("Question 1")
        .assistant("Answer 1")
        .user("Question 2")
        .assistant("Answer 2");

    let last_exchange = conversation.take_last(2);
    assert_eq!(last_exchange.len(), 2);

    let system_only = conversation.filter_by_role(Role::System);
    assert_eq!(system_only.len(), 1);
}

#[test]
fn test_multiline_messages() {
    let multiline_system = "You are a helpful assistant.\n\nYour responses should:\n- Be clear and concise\n- Include examples when helpful\n- Ask for clarification when needed";

    let multiline_user = "I need help with this code:\n\n```rust\nfn main() {\n    println!(\"Hello, world!\");\n}\n```\n\nCan you explain what this does?";

    let conversation = Messages::new().system(multiline_system).user(multiline_user);

    assert_eq!(conversation.len(), 2);

    if let Some(Input::Message(msg)) = conversation.inputs().get(0) {
        assert!(msg.content.contains("Your responses should:"));
        assert!(msg.content.contains("- Be clear and concise"));
    }

    if let Some(Input::Message(msg)) = conversation.inputs().get(1) {
        assert!(msg.content.contains("```rust"));
        assert!(msg.content.contains("println!"));
    }
}

#[test]
fn test_multiline_convenience_methods() {
    let conversation = Messages::new()
        .system("You are a coding assistant.\nHelp users with programming questions.")
        .user("How do I:\n1. Create a vector\n2. Add elements\n3. Iterate over it")
        .assistant("Here's how:\n\n```rust\nlet mut vec = Vec::new();\nvec.push(1);\nfor item in &vec {\n    println!(\"{}\", item);\n}\n```");

    assert_eq!(conversation.len(), 3);
}

#[test]
fn test_take_first_and_pop_last() {
    let conversation = Messages::new().system("a").user("b").assistant("c");
    let first_two = conversation.take_first(2);
    assert_eq!(first_two.len(), 2);
    let trimmed = conversation.pop_last(1);
    assert_eq!(trimmed.len(), 2);
}
