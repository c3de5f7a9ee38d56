//! Collecting raw output items into a response: one text or one refusal at
//! most, with every function call kept in order.

use vstd::prelude::*;
use crate::types::{Output, OutputMessage, OutputMessageContent, OutputFunctionCall, Role};
use crate::refusal::Refusal;
use crate::response::Response;
use crate::error::{Error, ErrV, err_view};

verus! {

/// Scan the pieces of one output message from `j` on, folding them into the
/// text and refusal slots; a second text, a second refusal, or a mix of the
/// two is refused.
pub open spec fn spec_scan_content(
    content: Seq<OutputMessageContent>,
    j: int,
    text: Option<String>,
    refusal: Option<String>,
) -> Result<(Option<String>, Option<String>), Seq<char>>
    decreases content.len() - j,
{
    if j < 0 || j >= content.len() {
        Result::Ok((text, refusal))
    } else {
        match content[j] {
            OutputMessageContent::OutputText(v) => {
                if text is Some {
                    Result::Err("Output message content must contain at most one text"@)
                } else if refusal is Some {
                    Result::Err(
                        "Output message content must not contain text and refusal at the same time"@,
                    )
                } else {
                    spec_scan_content(content, j + 1, Option::Some(v.text), refusal)
                }
            },
            OutputMessageContent::Refusal(v) => {
                if refusal is Some {
                    Result::Err("Output message content must contain at most one refusal"@)
                } else if text is Some {
                    Result::Err(
                        "Output message content must not contain text and refusal at the same time"@,
                    )
                } else {
                    spec_scan_content(content, j + 1, text, Option::Some(v.refusal))
                }
            },
        }
    }
}

/// Scan output items from `i` on: messages must carry the assistant role
/// and fold their content; function calls are collected in order.
pub open spec fn spec_collect_output(
    items: Seq<Output>,
    i: int,
    text: Option<String>,
    refusal: Option<String>,
    calls: Seq<OutputFunctionCall>,
) -> Result<(Option<String>, Option<String>, Seq<OutputFunctionCall>), Seq<char>>
    decreases items.len() - i,
{
    if i < 0 || i >= items.len() {
        Result::Ok((text, refusal, calls))
    } else {
        match items[i] {
            Output::Message(m) => {
                if !(m.role is Assistant) {
                    Result::Err("Output message role must be assistant"@)
                } else {
                    match spec_scan_content(m.content@, 0, text, refusal) {
                        Result::Err(e) => Result::Err(e),
                        Result::Ok((t2, r2)) => spec_collect_output(items, i + 1, t2, r2, calls),
                    }
                }
            },
            Output::FunctionCall(c) => spec_collect_output(
                items,
                i + 1,
                text,
                refusal,
                calls.push(c),
            ),
        }
    }
}

/// The collected response as its parts: the message slot and the call
/// list; a malformed output list is reported as an invalid response.
pub open spec fn spec_output_response(items: Seq<Output>) -> Result<
    (Option<Result<String, Refusal>>, Seq<OutputFunctionCall>),
    ErrV,
> {
    match spec_collect_output(items, 0, Option::None, Option::None, Seq::empty()) {
        Result::Err(m) => Result::Err(ErrV::InvalidResponse(m)),
        Result::Ok((text, refusal, calls)) => Result::Ok(
            (
                match (text, refusal) {
                    (Option::Some(t), _) => Option::Some(Result::Ok(t)),
                    (Option::None, Option::Some(r)) => Option::Some(Result::Err(Refusal(r))),
                    (Option::None, Option::None) => Option::None,
                },
                calls,
            ),
        ),
    }
}

/// Collect raw output items into a response: at most one text and at most
/// one refusal, never both, from assistant messages only; function calls
/// are kept in order.
pub fn output_to_response(output: Vec<Output>) -> (r: Result<Response<String>, Error>)
    ensures
        ({
            let sp = spec_output_response(output@);
            &&& (r is Ok <==> sp is Ok)
            &&& (r is Ok ==> r->Ok_0.message == sp->Ok_0.0 && r->Ok_0.function_calls@
                == sp->Ok_0.1)
            &&& (r is Err ==> err_view(r->Err_0) == sp->Err_0)
        }),
{
    let ghost items = output@;
    let mut text: Option<String> = None;
    let mut refusal: Option<String> = None;
    let mut calls: Vec<OutputFunctionCall> = Vec::new();
    let mut i: usize = 0;
    proof {
        assert(calls@ =~= Seq::<OutputFunctionCall>::empty());
    }
    while i < output.len()
        invariant
            i <= output@.len(),
            output@ == items,
            spec_collect_output(items, 0, Option::None, Option::None, Seq::empty())
                == spec_collect_output(items, i as int, text, refusal, calls@),
        decreases output@.len() - i,
    {
        match &output[i] {
            Output::Message(m) => {
                if !matches!(m.role, Role::Assistant) {
                    return Err(
                        Error::InvalidResponse(
                            String::from_str("Output message role must be assistant"),
                        ),
                    );
                }
                let mut j: usize = 0;
                while j < m.content.len()
                    invariant
                        j <= m.content@.len(),
                        output@ == items,
                        i < items.len(),
                        items[i as int] matches Output::Message(mm) && mm == *m,
                        spec_collect_output(items, 0, Option::None, Option::None, Seq::empty())
                            == (match spec_scan_content(m.content@, j as int, text, refusal) {
                            Result::Err(e) => Result::Err(e),
                            Result::Ok((t2, r2)) => spec_collect_output(
                                items,
                                i + 1,
                                t2,
                                r2,
                                calls@,
                            ),
                        }),
                    decreases m.content@.len() - j,
                {
                    match &m.content[j] {
                        OutputMessageContent::OutputText(v) => {
                            if text.is_some() {
                                return Err(
                                    Error::InvalidResponse(
                                        String::from_str(
                                            "Output message content must contain at most one text",
                                        ),
                                    ),
                                );
                            }
                            if refusal.is_some() {
                                return Err(
                                    Error::InvalidResponse(
                                        String::from_str(
                                            "Output message content must not contain text and refusal at the same time",
                                        ),
                                    ),
                                );
                            }
                            text = Some(v.text.clone());
                        },
                        OutputMessageContent::Refusal(v) => {
                            if refusal.is_some() {
                                return Err(
                                    Error::InvalidResponse(
                                        String::from_str(
                                            "Output message content must contain at most one refusal",
                                        ),
                                    ),
                                );
                            }
                            if text.is_some() {
                                return Err(
                                    Error::InvalidResponse(
                                        String::from_str(
                                            "Output message content must not contain text and refusal at the same time",
                                        ),
                                    ),
                                );
                            }
                            refusal = Some(v.refusal.clone());
                        },
                    }
                    j = j + 1;
                }
            },
            Output::FunctionCall(c) => {
                calls.push(OutputFunctionCall { arguments: c.arguments.clone(), name: c.name.clone() });
            },
        }
        i = i + 1;
    }
    let message: Option<Result<String, Refusal>> = match (text, refusal) {
        (Some(t), _) => Some(Ok(t)),
        (None, Some(rf)) => Some(Err(Refusal(rf))),
        (None, None) => None,
    };
    Ok(Response { message, function_calls: calls })
}

} // verus!
