//! The request/response data model at the boundary of the rendering core:
//! roles, inputs, outputs, and the knobs a request carries.

use vstd::prelude::*;
use crate::template::PromptTemplate;

verus! {

/// How verbose a response should be.
#[derive(Clone, Copy, Debug, PartialEq, Eq, Structural)]
pub enum Verbosity {
    Low,
    Medium,
    High,
}

/// Whether and how tools may be called.
#[derive(Clone, Copy, Debug, PartialEq, Eq, Structural)]
pub enum ToolChoice {
    NoTool,
    Auto,
    Required,
}

/// Who a conversation turn belongs to.
#[derive(Clone, Copy, Debug, PartialEq, Eq, Structural)]
pub enum Role {
    User,
    Assistant,
    System,
    Developer,
}

/// A role-tagged message ready to send.
#[derive(Clone, Debug)]
pub struct InputMessage {
    pub role: Role,
    pub content: String,
}

/// A role-tagged template, rendered lazily into a message.
#[derive(Clone, Debug)]
pub struct TemplateInput {
    pub role: Role,
    pub template: PromptTemplate,
}

/// One input turn: a ready message or a template still to render.
#[derive(Clone, Debug)]
pub enum Input {
    Message(InputMessage),
    Template(TemplateInput),
}

impl Input {
    /// The role of this input.
    pub fn role(&self) -> (r: Role)
        ensures
            r == (match *self {
                Input::Message(ref m) => m.role,
                Input::Template(ref t) => t.role,
            }),
    {
        match self {
            Input::Message(m) => m.role,
            Input::Template(t) => t.role,
        }
    }
}

/// Text produced by the model.
#[derive(Debug)]
pub struct OutputMessageContentOutputText {
    pub text: String,
}

/// A refusal produced by the model.
#[derive(Debug)]
pub struct OutputMessageContentRefusal {
    pub refusal: String,
}

/// One piece of an output message.
#[derive(Debug)]
pub enum OutputMessageContent {
    OutputText(OutputMessageContentOutputText),
    Refusal(OutputMessageContentRefusal),
}

/// A role-tagged output message.
#[derive(Debug)]
pub struct OutputMessage {
    pub role: Role,
    pub content: Vec<OutputMessageContent>,
}

/// A function call requested by the model.
#[derive(Debug)]
pub struct OutputFunctionCall {
    pub arguments: String,
    pub name: String,
}

/// One output item: a message or a function call.
#[derive(Debug)]
pub enum Output {
    Message(OutputMessage),
    FunctionCall(OutputFunctionCall),
}

/// An error a provider reported.
#[derive(Debug)]
pub struct ResponseError {
    pub code: String,
    pub message: String,
}

/// The wire-level response: an error or a list of outputs.
#[derive(Debug)]
pub struct Response {
    pub error: Option<ResponseError>,
    pub output: Option<Vec<Output>>,
}

} // verus!
