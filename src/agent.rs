use vstd::prelude::*;

use crate::messages::{
    msgs_view, text_msg, BarkContent, BarkMessage, BarkResponse, BarkRole, BarkToolCall,
    BarkToolCallResponse, Choice, ContentView, MessageView,
};
use crate::text::{
    append_chars, chars_of, find_seq, find_seq_exec, lemma_find_seq, slice_chars,
    starts_with_exec, string_of, strip_thoughts, without_thoughts,
};

verus! {

/// Where a tick leaves a node.
#[derive(Clone, Copy, Debug, PartialEq, Eq, Structural)]
pub enum BarkState {
    Complete,
    Failed,
    Waiting,
    WaitingForGas,
}

/// The usage charged for a call whose backend reports none.
pub const DEFAULT_USAGE: u32 = 1000;

/// The gas left after a call that reported `usage` tokens (the default when it
/// reported none); unlimited gas stays unlimited, and the count stops at the
/// smallest `i32`.
pub open spec fn charged(gas: Option<i32>, usage: Option<u32>) -> Option<i32> {
    match gas {
        None => None,
        Some(g) => {
            let u: int = match usage {
                Some(u) => u as int,
                None => DEFAULT_USAGE as int,
            };
            if g - u < i32::MIN {
                Some(i32::MIN)
            } else {
                Some((g - u) as i32)
            }
        },
    }
}

/// Whether the budget is used up.
pub open spec fn gas_exhausted(gas: Option<i32>) -> bool {
    match gas {
        Some(g) => g <= 0,
        None => false,
    }
}

/// Charges the usage of one billable call.
pub fn charge_gas(gas: &mut Option<i32>, usage: Option<u32>)
    ensures
        *final(gas) == charged(*old(gas), usage),
{
    if let Some(g) = gas {
        let u: u32 = match usage {
            Some(u) => u,
            None => DEFAULT_USAGE,
        };
        let d: i64 = *g as i64 - u as i64;
        *g = if d < i32::MIN as i64 {
            i32::MIN
        } else {
            d as i32
        };
    }
}

/// Whether the budget is used up.
pub fn check_gas(gas: &Option<i32>) -> (r: bool)
    ensures
        r == gas_exhausted(*gas),
{
    match gas {
        Some(g) => *g <= 0,
        None => false,
    }
}

/// Charging a call never raises the budget, and leaves an unlimited one unlimited.
pub proof fn lemma_charge_never_raises(gas: Option<i32>, usage: Option<u32>)
    ensures
        gas is None ==> charged(gas, usage) is None,
        gas matches Some(g) ==> charged(gas, usage) matches Some(h) && h <= g,
{
}

/// Why a model exchange failed.
pub enum ModelError {
    EmptyResponse,
    EmptyMessage,
    MultipleChoices,
    UnexpectedToolCalls,
    NoToolResult,
    ToolFailed(String),
    Backend(String),
}

/// The usage a response reports.
pub open spec fn usage_of(r: BarkResponse) -> Option<u32> {
    match r {
        BarkResponse::Chat { usage, .. } => usage,
        BarkResponse::ToolCalls { usage, .. } => usage,
    }
}

/// The header some backends put before an assistant reply.
pub open spec fn assistant_header() -> Seq<char> {
    "<|start_header_id|>assistant<|end_header_id|>\n"@
}

/// `s` with every occurrence of `p` removed, left to right.
pub open spec fn remove_all(s: Seq<char>, p: Seq<char>) -> Seq<char>
    decreases s.len(),
    via remove_all_decreases
{
    if p.len() == 0 {
        s
    } else {
        match find_seq(s, p, 0) {
            None => s,
            Some(i) => s.subrange(0, i) + remove_all(s.subrange(i + p.len(), s.len() as int), p),
        }
    }
}

#[via_fn]
proof fn remove_all_decreases(s: Seq<char>, p: Seq<char>) {
    lemma_find_seq(s, p, 0);
}

/// The text of a reply: when it starts with the assistant header, every copy of
/// the header is removed.
pub open spec fn reply_text(v: Seq<char>) -> Seq<char> {
    if assistant_header().is_prefix_of(v) {
        remove_all(v, assistant_header())
    } else {
        v
    }
}

fn remove_all_exec(s: &Vec<char>, p: &Vec<char>) -> (r: Vec<char>)
    ensures
        r@ == remove_all(s@, p@),
    decreases s@.len(),
{
    if p.len() == 0 {
        return slice_chars(s, 0, s.len());
    }
    proof {
        lemma_find_seq(s@, p@, 0);
    }
    match find_seq_exec(s, p, 0) {
        None => slice_chars(s, 0, s.len()),
        Some(i) => {
            let n = s.len();
            assert(i + p@.len() <= n);
            let mut out = slice_chars(s, 0, i);
            let rest = slice_chars(s, i + p.len(), n);
            let tail = remove_all_exec(&rest, p);
            append_chars(&mut out, tail.as_slice());
            out
        },
    }
}

/// What a single-choice chat reply must satisfy: one choice, not empty.
pub open spec fn chat_error(choices: Seq<Choice>) -> Option<ModelError> {
    if choices.len() == 0 {
        Some(ModelError::EmptyResponse)
    } else if choices[0].value@.len() == 0 {
        Some(ModelError::EmptyMessage)
    } else if choices.len() > 1 {
        Some(ModelError::MultipleChoices)
    } else {
        None
    }
}

fn check_choices(choices: &Vec<Choice>) -> (r: Option<ModelError>)
    ensures
        r == chat_error(choices@),
{
    if choices.len() == 0 {
        Some(ModelError::EmptyResponse)
    } else if choices[0].value.as_str().is_empty() {
        Some(ModelError::EmptyMessage)
    } else if choices.len() > 1 {
        Some(ModelError::MultipleChoices)
    } else {
        None
    }
}

/// Reads the reply to a plain prompt and charges its usage: a chat reply with a
/// single non-empty choice gives its text; anything else is an error.
pub fn prompt_reply(response: BarkResponse, gas: &mut Option<i32>) -> (r: Result<String, ModelError>)
    ensures
        *final(gas) == charged(*old(gas), usage_of(response)),
        match response {
            BarkResponse::Chat { choices, .. } => match chat_error(choices@) {
                Some(e) => r == Err::<String, ModelError>(e),
                None => r matches Ok(t) && t@ == reply_text(choices@[0].value@),
            },
            BarkResponse::ToolCalls { .. } => r == Err::<String, ModelError>(
                ModelError::UnexpectedToolCalls,
            ),
        },
{
    match response {
        BarkResponse::Chat { choices, usage } => {
            charge_gas(gas, usage);
            match check_choices(&choices) {
                Some(e) => Err(e),
                None => {
                    let v = chars_of(choices[0].value.as_str());
                    let header = chars_of("<|start_header_id|>assistant<|end_header_id|>\n");
                    if starts_with_exec(&v, &header) {
                        Ok(string_of(remove_all_exec(&v, &header).as_slice()))
                    } else {
                        Ok(choices[0].value.clone())
                    }
                },
            }
        },
        BarkResponse::ToolCalls { usage, .. } => {
            charge_gas(gas, usage);
            Err(ModelError::UnexpectedToolCalls)
        },
    }
}

/// What the agent loop does after a model reply.
pub enum AgentStep {
    /// The model answered in text: the loop ends with this text.
    Done(String),
    /// The model asked for these tools, in order.
    RunTools(Vec<BarkToolCall>),
    Failed(ModelError),
}

/// The text the agent keeps in the conversation for a reply `v`.
pub open spec fn kept_text(v: Seq<char>, strip: bool) -> Seq<char> {
    if strip {
        without_thoughts(v)
    } else {
        v
    }
}

/// One step of the agent loop on a model reply. A valid chat reply is appended
/// to the conversation as an assistant message (with thoughts removed when
/// `strip` is set) and ends the loop; tool calls are handed back to be run; the
/// reply's usage is charged either way.
pub fn agent_on_response(
    prompt: &mut Vec<BarkMessage>,
    response: BarkResponse,
    strip: bool,
    gas: &mut Option<i32>,
) -> (r: AgentStep)
    ensures
        *final(gas) == charged(*old(gas), usage_of(response)),
        match response {
            BarkResponse::Chat { choices, .. } => match chat_error(choices@) {
                Some(e) => r == AgentStep::Failed(e) && final(prompt)@ == old(prompt)@,
                None => {
                    &&& r matches AgentStep::Done(t) && t@ == choices@[0].value@
                    &&& msgs_view(final(prompt)@) == msgs_view(old(prompt)@).push(
                        text_msg(BarkRole::Assistant, kept_text(choices@[0].value@, strip)),
                    )
                },
            },
            BarkResponse::ToolCalls { calls, .. } => r == AgentStep::RunTools(calls)
                && final(prompt)@ == old(prompt)@,
        },
{
    match response {
        BarkResponse::Chat { choices, usage } => {
            charge_gas(gas, usage);
            match check_choices(&choices) {
                Some(e) => AgentStep::Failed(e),
                None => {
                    let value = choices[0].value.clone();
                    let kept = if strip {
                        strip_thoughts(&value)
                    } else {
                        value.clone()
                    };
                    let ghost before = prompt@;
                    prompt.push(
                        BarkMessage { role: BarkRole::Assistant, content: BarkContent::Text(kept) },
                    );
                    assert(msgs_view(prompt@) =~= msgs_view(before).push(
                        text_msg(BarkRole::Assistant, kept_text(choices@[0].value@, strip)),
                    ));
                    AgentStep::Done(value)
                },
            }
        },
        BarkResponse::ToolCalls { calls, usage } => {
            charge_gas(gas, usage);
            AgentStep::RunTools(calls)
        },
    }
}

/// Records one tool call and what it gave: the call is appended as an assistant
/// message, then its result as a tool message. A failed call, or one that gave
/// no result, stops the loop after the call is recorded.
pub fn agent_on_tool_result(
    prompt: &mut Vec<BarkMessage>,
    call: &BarkToolCall,
    result: Result<BarkToolCallResponse, String>,
) -> (r: Result<(), ModelError>)
    ensures
        match result {
            Ok(resp) => match resp.result {
                Some(text) => r is Ok && msgs_view(final(prompt)@) == msgs_view(old(prompt)@).push(
                    MessageView { role: BarkRole::Assistant, content: ContentView::ToolCall(call@) },
                ).push(
                    MessageView {
                        role: BarkRole::Tool,
                        content: ContentView::ToolResponse { id: resp.id@, response: text@ },
                    },
                ),
                None => r == Err::<(), ModelError>(ModelError::NoToolResult) && msgs_view(
                    final(prompt)@,
                ) == msgs_view(old(prompt)@).push(
                    MessageView { role: BarkRole::Assistant, content: ContentView::ToolCall(call@) },
                ),
            },
            Err(e) => r == Err::<(), ModelError>(ModelError::ToolFailed(e)) && msgs_view(
                final(prompt)@,
            ) == msgs_view(old(prompt)@).push(
                MessageView { role: BarkRole::Assistant, content: ContentView::ToolCall(call@) },
            ),
        },
{
    let ghost before = prompt@;
    prompt.push(
        BarkMessage { role: BarkRole::Assistant, content: BarkContent::ToolCall(call.copy()) },
    );
    let ghost with_call = prompt@;
    assert(msgs_view(with_call) =~= msgs_view(before).push(
        MessageView { role: BarkRole::Assistant, content: ContentView::ToolCall(call@) },
    ));
    match result {
        Ok(resp) => match resp.result {
            Some(text) => {
                prompt.push(
                    BarkMessage {
                        role: BarkRole::Tool,
                        content: BarkContent::ToolResponse { id: resp.id, response: text },
                    },
                );
                assert(msgs_view(prompt@) =~= msgs_view(with_call).push(prompt@.last()@));
                Ok(())
            },
            None => Err(ModelError::NoToolResult),
        },
        Err(e) => Err(ModelError::ToolFailed(e)),
    }
}

} // verus!
