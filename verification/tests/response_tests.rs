//! Response helpers and output collection.

use responses::Refusal;
use responses::Response;
use responses::types::{
    Output, OutputFunctionCall, OutputMessage, OutputMessageContent,
    OutputMessageContentOutputText, OutputMessageContentRefusal, Role,
};
use responses::util::output_to_response;
use responses::Error;

#[test]
fn test_response_helper_methods_function_only() {
    let function_call = OutputFunctionCall {
        name: "get_weather".to_string(),
        arguments: "{\"city\":\"Paris\"}".to_string(),
    };

    let response: Response<String> = Response {
        message: None,
        function_calls: vec![function_call],
    };

    assert!(!response.has_text_message(), "Should not have text message");
    assert!(response.has_function_calls(), "Should have function calls");
    assert!(response.is_function_only(), "Should be function-only response");
    assert!(!response.has_both_text_and_functions(), "Should not have both");
    assert_eq!(response.function_call_count(), 1, "Should have one function call");
    assert!(response.text_message().is_none(), "Text message should be None");
    assert!(response.refusal().is_none(), "Refusal should be None");
}

#[test]
fn test_response_helper_methods_text_only() {
    let response: Response<String> = Response {
        message: Some(Ok("Hello, how can I help?".to_string())),
        function_calls: vec![],
    };

    assert!(response.has_text_message(), "Should have text message");
    assert!(!response.has_function_calls(), "Should not have function calls");
    assert!(!response.is_function_only(), "Should not be function-only");
    assert!(!response.has_both_text_and_functions(), "Should not have both");
    assert_eq!(response.function_call_count(), 0, "Should have no function calls");

    assert_eq!(
        response.text_message(),
        Some(&"Hello, how can I help?".to_string()),
        "Should return text message"
    );
    assert!(response.refusal().is_none(), "Refusal should be None");
}

#[test]
fn test_response_helper_methods_mixed() {
    let function_call = OutputFunctionCall {
        name: "search_docs".to_string(),
        arguments: "{\"query\":\"rust async\"}".to_string(),
    };

    let response: Response<String> = Response {
        message: Some(Ok("Let me search for information about Rust async.".to_string())),
        function_calls: vec![function_call],
    };

    assert!(response.has_text_message(), "Should have text message");
    assert!(response.has_function_calls(), "Should have function calls");
    assert!(!response.is_function_only(), "Should not be function-only");
    assert!(response.has_both_text_and_functions(), "Should have both");
    assert_eq!(response.function_call_count(), 1, "Should have one function call");

    assert!(response.text_message().is_some(), "Should have text message");
    assert!(response.refusal().is_none(), "Refusal should be None");
}

#[test]
fn test_response_helper_methods_refusal() {
    let response: Response<String> = Response {
        message: Some(Err(Refusal::from("I cannot help with that request.".to_string()))),
        function_calls: vec![],
    };

    assert!(response.has_text_message(), "Should have text message (refusal)");
    assert!(!response.has_function_calls(), "Should not have function calls");
    assert!(!response.is_function_only(), "Should not be function-only");
    assert!(!response.has_both_text_and_functions(), "Should not have both");
    assert_eq!(response.function_call_count(), 0, "Should have no function calls");

    assert!(response.text_message().is_none(), "Text message should be None for refusal");
    assert!(response.refusal().is_some(), "Should have refusal");
}

#[test]
fn test_response_helper_methods_empty() {
    let response: Response<String> = Response {
        message: None,
        function_calls: vec![],
    };

    assert!(!response.has_text_message(), "Should not have text message");
    assert!(!response.has_function_calls(), "Should not have function calls");
    assert!(!response.is_function_only(), "Should not be function-only (no functions)");
    assert!(!response.has_both_text_and_functions(), "Should not have both");
    assert_eq!(response.function_call_count(), 0, "Should have no function calls");

    assert!(response.text_message().is_none(), "Text message should be None");
    assert!(response.refusal().is_none(), "Refusal should be None");
}

#[test]
fn test_output_collection_text_and_call() {
    let output = vec![
        Output::Message(OutputMessage {
            role: Role::Assistant,
            content: vec![OutputMessageContent::OutputText(OutputMessageContentOutputText {
                text: "Answer".to_string(),
            })],
        }),
        Output::FunctionCall(OutputFunctionCall {
            name: "lookup".to_string(),
            arguments: "{}".to_string(),
        }),
    ];
    let response = output_to_response(output).unwrap();
    assert_eq!(response.text_message(), Some(&"Answer".to_string()));
    assert_eq!(response.function_call_count(), 1);
}

#[test]
fn test_output_collection_rejects_wrong_role() {
    let output = vec![Output::Message(OutputMessage {
        role: Role::User,
        content: vec![],
    })];
    match output_to_response(output).unwrap_err() {
        Error::InvalidResponse(msg) => {
            assert!(msg.contains("must be assistant"));
        }
        e => panic!("Expected InvalidResponse, got {:?}", e),
    }
}

#[test]
fn test_output_collection_rejects_two_texts() {
    let output = vec![Output::Message(OutputMessage {
        role: Role::Assistant,
        content: vec![
            OutputMessageContent::OutputText(OutputMessageContentOutputText {
                text: "one".to_string(),
            }),
            OutputMessageContent::OutputText(OutputMessageContentOutputText {
                text: "two".to_string(),
            }),
        ],
    })];
    match output_to_response(output).unwrap_err() {
        Error::InvalidResponse(msg) => {
            assert!(msg.contains("at most one text"));
        }
        e => panic!("Expected InvalidResponse, got {:?}", e),
    }
}

#[test]
fn test_output_collection_refusal() {
    let output = vec![Output::Message(OutputMessage {
        role: Role::Assistant,
        content: vec![OutputMessageContent::Refusal(OutputMessageContentRefusal {
            refusal: "no".to_string(),
        })],
    })];
    let response = output_to_response(output).unwrap();
    assert!(response.refusal().is_some());
}
