//! A collected response: an optional text message or refusal, and any
//! function calls.

use vstd::prelude::*;
use crate::refusal::Refusal;
use crate::types::OutputFunctionCall;

verus! {

/// A response holding a text message, a refusal, or neither, beside the
/// function calls the model requested. A function-only response is a normal
/// outcome, not an error.
#[derive(Debug)]
pub struct Response<T> {
    /// The text response, absent for function-only responses.
    pub message: Option<Result<T, Refusal>>,
    /// Function calls requested by the model.
    pub function_calls: Vec<OutputFunctionCall>,
}

impl<T> Response<T> {
    /// Does the response contain a text message or refusal?
    pub fn has_text_message(&self) -> (r: bool)
        ensures
            r == (self.message is Some),
    {
        self.message.is_some()
    }

    /// Does the response contain function calls?
    pub fn has_function_calls(&self) -> (r: bool)
        ensures
            r == (self.function_calls@.len() > 0),
    {
        self.function_calls.len() > 0
    }

    /// Is this a function-only response?
    pub fn is_function_only(&self) -> (r: bool)
        ensures
            r == (self.message is None && self.function_calls@.len() > 0),
    {
        self.message.is_none() && self.function_calls.len() > 0
    }

    /// Does this response hold both text and function calls?
    pub fn has_both_text_and_functions(&self) -> (r: bool)
        ensures
            r == (self.message is Some && self.function_calls@.len() > 0),
    {
        self.message.is_some() && self.function_calls.len() > 0
    }

    /// The text message, when present and not refused.
    pub fn text_message(&self) -> (r: Option<&T>)
        ensures
            r is Some <==> (self.message matches Option::Some(Result::Ok(_))),
            r is Some ==> (self.message matches Option::Some(Result::Ok(t)) && r->0 == &t),
    {
        match &self.message {
            Some(Ok(t)) => Some(t),
            _ => None,
        }
    }

    /// The refusal, when the message was refused.
    pub fn refusal(&self) -> (r: Option<&Refusal>)
        ensures
            r is Some <==> (self.message matches Option::Some(Result::Err(_))),
            r is Some ==> (self.message matches Option::Some(Result::Err(e)) && r->0 == &e),
    {
        match &self.message {
            Some(Err(e)) => Some(e),
            _ => None,
        }
    }

    /// How many function calls the response holds.
    pub fn function_call_count(&self) -> (r: usize)
        ensures
            r == self.function_calls@.len(),
    {
        self.function_calls.len()
    }
}

} // verus!
