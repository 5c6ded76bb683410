use vstd::prelude::*;

use crate::agent::{check_gas, gas_exhausted, BarkState, ModelError};
use crate::controller::{
    matcher_holds, prompt_of, prompt_set, stored_prompt, text_of, text_set,
    var_text, without_system, BarkController,
};
use crate::messages::{
    copy_messages, msgs_view, text_message, text_msg, BarkMessage, BarkRole, MessageView,
};
use crate::text::{chars_of, contains_exec, contains_seq};
use crate::tools::{comma_pieces, filter_list, parse_tool_filters, strings_view};
use crate::values::{
    copy_message_values, messages_equiv, MessageValue, PromptValue, TextMatcher, TextValue, VarKey,
    VariableId,
};

verus! {

/// The string that a JSON document denotes, when the document is a JSON string.
pub uninterp spec fn json_string_value(doc: Seq<char>) -> Option<Seq<char>>;

/// Relies on `serde_json::from_str::<String>`: it decodes a JSON string literal,
/// and fails on any other document; the result depends on the text alone.
#[verifier::external_body]
fn decode_json_string(doc: &str) -> (r: Option<String>)
    ensures
        r is Some == json_string_value(doc@) is Some,
        r matches Some(v) ==> json_string_value(doc@) == Some(v@),
{
    match serde_json::from_str::<String>(doc) {
        Ok(v) => Some(v),
        Err(_) => None,
    }
}

/// Sets a text variable to the resolution of a text value.
pub struct SetText(pub VariableId, pub TextValue);

impl SetText {
    pub fn resume_with(&self, controller: &mut BarkController) -> (r: BarkState)
        requires
            old(controller).wf(),
        ensures
            final(controller).wf(),
            r == BarkState::Complete,
            text_set(*old(controller), *final(controller), self.0@, text_of(*old(controller), self.1)),
    {
        let text = controller.get_text(&self.1);
        controller.set_text(self.0.copy(), text);
        BarkState::Complete
    }
}

/// Stores a template.
pub struct SetTemplate(pub VariableId, pub Vec<MessageValue>);

impl SetTemplate {
    pub fn resume_with(&self, controller: &mut BarkController) -> (r: BarkState)
        requires
            old(controller).wf(),
        ensures
            final(controller).wf(),
            r == BarkState::Complete,
            final(controller).templates@ == old(controller).templates@.insert(
                self.0@,
                final(controller).templates@[self.0@],
            ),
            messages_equiv(final(controller).templates@[self.0@]@, self.1@),
            final(controller).text_variables@ == old(controller).text_variables@,
            final(controller).prompts@ == old(controller).prompts@,
    {
        controller.set_template(self.0.copy(), copy_message_values(&self.1));
        BarkState::Complete
    }
}

/// Starts the prompt under a slot anew.
pub struct StartPrompt(pub VariableId, pub PromptValue);

impl StartPrompt {
    pub fn resume_with(&self, controller: &mut BarkController) -> (r: BarkState)
        requires
            old(controller).wf(),
        ensures
            final(controller).wf(),
            r == BarkState::Complete,
            prompt_set(
                *old(controller),
                *final(controller),
                self.0@,
                prompt_of(*old(controller), self.1, Seq::empty()),
            ),
    {
        controller.start_prompt(self.0.copy(), &self.1);
        BarkState::Complete
    }
}

/// Extends the prompt under a slot.
pub struct ExtendPrompt(pub VariableId, pub PromptValue);

impl ExtendPrompt {
    pub fn resume_with(&self, controller: &mut BarkController) -> (r: BarkState)
        requires
            old(controller).wf(),
        ensures
            final(controller).wf(),
            r == BarkState::Complete,
            prompt_set(
                *old(controller),
                *final(controller),
                self.0@,
                stored_prompt(*old(controller), self.0@) + prompt_of(
                    *old(controller),
                    self.1,
                    Seq::empty(),
                ),
            ),
    {
        controller.extend_prompt(self.0.copy(), &self.1);
        BarkState::Complete
    }
}

/// Replaces the system messages of the prompt under a slot.
pub struct ReplaceSystemPrompt(pub VariableId, pub PromptValue);

impl ReplaceSystemPrompt {
    pub fn resume_with(&self, controller: &mut BarkController) -> (r: BarkState)
        requires
            old(controller).wf(),
        ensures
            final(controller).wf(),
            r == BarkState::Complete,
            prompt_set(
                *old(controller),
                *final(controller),
                self.0@,
                prompt_of(*old(controller), self.1, Seq::empty()) + without_system(
                    stored_prompt(*old(controller), self.0@),
                ),
            ),
    {
        controller.replace_system_prompt(self.0.copy(), &self.1);
        BarkState::Complete
    }
}

/// Decodes, in place, a text variable that holds a JSON string.
pub struct Unescape(pub VariableId);

impl Unescape {
    pub fn resume_with(&self, controller: &mut BarkController) -> (r: BarkState)
        requires
            old(controller).wf(),
        ensures
            final(controller).wf(),
            match json_string_value(var_text(*old(controller), self.0@)) {
                Some(v) => r == BarkState::Complete && text_set(
                    *old(controller),
                    *final(controller),
                    self.0@,
                    v,
                ),
                None => r == BarkState::Failed && *final(controller) == *old(controller),
            },
    {
        let text = controller.get_text(&TextValue::Variable(self.0.copy()));
        match decode_json_string(text.as_str()) {
            Some(v) => {
                controller.set_text(self.0.copy(), v);
                BarkState::Complete
            },
            None => BarkState::Failed,
        }
    }
}

/// Empties the prompt under a slot, if there is one.
pub struct ResetMessages(pub VariableId);

impl ResetMessages {
    pub fn resume_with(&self, controller: &mut BarkController) -> (r: BarkState)
        requires
            old(controller).wf(),
        ensures
            final(controller).wf(),
            r == BarkState::Complete,
            old(controller).prompts@.contains_key(self.0@) ==> prompt_set(
                *old(controller),
                *final(controller),
                self.0@,
                Seq::empty(),
            ),
            !old(controller).prompts@.contains_key(self.0@) ==> *final(controller) == *old(controller),
    {
        if controller.prompts.contains_key(&self.0) {
            let empty: Vec<BarkMessage> = Vec::new();
            assert(msgs_view(empty@) =~= Seq::<MessageView>::empty());
            controller.set_prompt(self.0.copy(), empty);
        }
        BarkState::Complete
    }
}

/// Appends a text message to the prompt under `id`, if there is one.
fn append_message(controller: &mut BarkController, id: &VariableId, role: BarkRole, text: String)
    requires
        old(controller).wf(),
    ensures
        final(controller).wf(),
        old(controller).prompts@.contains_key(id@) ==> prompt_set(
            *old(controller),
            *final(controller),
            id@,
            stored_prompt(*old(controller), id@).push(text_msg(role, text@)),
        ),
        !old(controller).prompts@.contains_key(id@) ==> *final(controller) == *old(controller),
{
    match controller.prompt(id) {
        Some(mut prompt) => {
            let ghost before = prompt@;
            prompt.push(text_message(role, text));
            assert(msgs_view(prompt@) =~= msgs_view(before).push(prompt@.last()@));
            controller.set_prompt(id.copy(), prompt);
        },
        None => {},
    }
}

/// Appends a user message to the prompt under a slot, if there is one.
pub struct AddUserMessage(pub VariableId, pub String);

impl AddUserMessage {
    pub fn resume_with(&self, controller: &mut BarkController) -> (r: BarkState)
        requires
            old(controller).wf(),
        ensures
            final(controller).wf(),
            r == BarkState::Complete,
            old(controller).prompts@.contains_key(self.0@) ==> prompt_set(
                *old(controller),
                *final(controller),
                self.0@,
                stored_prompt(*old(controller), self.0@).push(text_msg(BarkRole::User, self.1@)),
            ),
            !old(controller).prompts@.contains_key(self.0@) ==> *final(controller) == *old(controller),
    {
        append_message(controller, &self.0, BarkRole::User, self.1.clone());
        BarkState::Complete
    }
}

/// Appends a system message to the prompt under a slot, if there is one.
pub struct AddSystemMessage(pub VariableId, pub String);

impl AddSystemMessage {
    pub fn resume_with(&self, controller: &mut BarkController) -> (r: BarkState)
        requires
            old(controller).wf(),
        ensures
            final(controller).wf(),
            r == BarkState::Complete,
            old(controller).prompts@.contains_key(self.0@) ==> prompt_set(
                *old(controller),
                *final(controller),
                self.0@,
                stored_prompt(*old(controller), self.0@).push(text_msg(BarkRole::System, self.1@)),
            ),
            !old(controller).prompts@.contains_key(self.0@) ==> *final(controller) == *old(controller),
    {
        append_message(controller, &self.0, BarkRole::System, self.1.clone());
        BarkState::Complete
    }
}

/// Appends the text of a variable, as a user message, to the prompt under a
/// slot; nothing happens when either is missing.
pub struct AddUserFromVariable(pub VariableId, pub VariableId);

impl AddUserFromVariable {
    pub fn resume_with(&self, controller: &mut BarkController) -> (r: BarkState)
        requires
            old(controller).wf(),
        ensures
            final(controller).wf(),
            r == BarkState::Complete,
            old(controller).prompts@.contains_key(self.0@)
                && old(controller).text_variables@.contains_key(self.1@) ==> prompt_set(
                *old(controller),
                *final(controller),
                self.0@,
                stored_prompt(*old(controller), self.0@).push(
                    text_msg(BarkRole::User, var_text(*old(controller), self.1@)),
                ),
            ),
            !(old(controller).prompts@.contains_key(self.0@)
                && old(controller).text_variables@.contains_key(self.1@)) ==> *final(controller)
                == *old(controller),
    {
        if controller.text_variables.contains_key(&self.1) {
            let text = controller.get_text(&TextValue::Variable(self.1.copy()));
            append_message(controller, &self.0, BarkRole::User, text);
        }
        BarkState::Complete
    }
}

/// Appends the text of a variable, as a system message, to the prompt under a
/// slot; nothing happens when either is missing.
pub struct AddSystemFromVariable(pub VariableId, pub VariableId);

impl AddSystemFromVariable {
    pub fn resume_with(&self, controller: &mut BarkController) -> (r: BarkState)
        requires
            old(controller).wf(),
        ensures
            final(controller).wf(),
            r == BarkState::Complete,
            old(controller).prompts@.contains_key(self.0@)
                && old(controller).text_variables@.contains_key(self.1@) ==> prompt_set(
                *old(controller),
                *final(controller),
                self.0@,
                stored_prompt(*old(controller), self.0@).push(
                    text_msg(BarkRole::System, var_text(*old(controller), self.1@)),
                ),
            ),
            !(old(controller).prompts@.contains_key(self.0@)
                && old(controller).text_variables@.contains_key(self.1@)) ==> *final(controller)
                == *old(controller),
    {
        if controller.text_variables.contains_key(&self.1) {
            let text = controller.get_text(&TextValue::Variable(self.1.copy()));
            append_message(controller, &self.0, BarkRole::System, text);
        }
        BarkState::Complete
    }
}

/// A chat completion to run off the tick: the logical model name, if one was
/// given, and the messages.
pub struct ChatRequest {
    pub model: Option<String>,
    pub messages: Vec<BarkMessage>,
}

/// The resolution of an optional model name.
pub open spec fn model_name_of(c: BarkController, m: Option<TextValue>) -> Option<Seq<char>> {
    match m {
        Some(t) => Some(text_of(c, t)),
        None => None,
    }
}

/// The characters of an optional string.
pub open spec fn opt_chars(s: Option<String>) -> Option<Seq<char>> {
    match s {
        Some(v) => Some(v@),
        None => None,
    }
}

fn model_name(controller: &BarkController, m: &Option<TextValue>) -> (r: Option<String>)
    requires
        controller.wf(),
    ensures
        opt_chars(r) == model_name_of(*controller, *m),
{
    match m {
        Some(t) => Some(controller.get_text(t)),
        None => None,
    }
}

/// Sends a prompt to the model and keeps the reply as the last output.
pub struct Prompt {
    pub ai_model: Option<TextValue>,
    pub prompt: PromptValue,
    /// The messages sent, while the reply is pending.
    pub sent: Option<Vec<BarkMessage>>,
}

impl Prompt {
    pub fn new(ai_model: Option<TextValue>, prompt: PromptValue) -> (r: Prompt)
        ensures
            r.ai_model == ai_model,
            r.prompt == prompt,
            r.sent is None,
    {
        Prompt { ai_model, prompt, sent: None }
    }

    /// Starts the exchange: resolves the prompt and hands back the request.
    /// With the budget used up the node waits for gas instead; an empty prompt
    /// gives no request, and the node fails.
    pub fn begin(&mut self, controller: &BarkController, gas: &Option<i32>) -> (r: Result<
        ChatRequest,
        BarkState,
    >)
        requires
            controller.wf(),
        ensures
            final(self).ai_model == old(self).ai_model,
            final(self).prompt == old(self).prompt,
            gas_exhausted(*gas) ==> r == Err::<ChatRequest, BarkState>(BarkState::WaitingForGas)
                && final(self).sent is None,
            !gas_exhausted(*gas) && prompt_of(*controller, old(self).prompt, Seq::empty()).len()
                == 0 ==> r == Err::<ChatRequest, BarkState>(BarkState::Failed) && final(
                self).sent is None,
            !gas_exhausted(*gas) && prompt_of(*controller, old(self).prompt, Seq::empty()).len()
                > 0 ==> {
                &&& r matches Ok(req) && msgs_view(req.messages@) == prompt_of(
                    *controller,
                    old(self).prompt,
                    Seq::empty(),
                ) && opt_chars(req.model) == model_name_of(*controller, old(self).ai_model)
                &&& final(self).sent matches Some(v) && msgs_view(v@) == prompt_of(
                    *controller,
                    old(self).prompt,
                    Seq::empty(),
                )
            },
    {
        if check_gas(gas) {
            self.sent = None;
            return Err(BarkState::WaitingForGas);
        }
        let prompt = controller.get_prompt(&self.prompt);
        if prompt.len() == 0 {
            self.sent = None;
            return Err(BarkState::Failed);
        }
        self.sent = Some(copy_messages(&prompt));
        Ok(ChatRequest { model: model_name(controller, &self.ai_model), messages: prompt })
    }

    /// Takes in the reply and the budget left after it. With the budget used
    /// up the node waits for gas and keeps nothing. Otherwise, on success the
    /// reply becomes the last output, and the prompt sent followed by the reply
    /// becomes the last-output prompt.
    pub fn finish(
        &mut self,
        controller: &mut BarkController,
        outcome: Result<String, ModelError>,
        gas: &mut Option<i32>,
        gas_after: Option<i32>,
    ) -> (r: BarkState)
        requires
            old(controller).wf(),
            old(self).sent is Some,
        ensures
            final(controller).wf(),
            *final(gas) == gas_after,
            final(self).sent is None,
            final(self).ai_model == old(self).ai_model,
            final(self).prompt == old(self).prompt,
            gas_exhausted(gas_after) ==> r == BarkState::WaitingForGas && *final(controller)
                == *old(controller),
            !gas_exhausted(gas_after) ==> match outcome {
                Ok(text) => {
                    &&& r == BarkState::Complete
                    &&& final(controller).text_variables@ == old(controller).text_variables@.insert(
                        VarKey::LastOutput,
                        final(controller).text_variables@[VarKey::LastOutput],
                    )
                    &&& final(controller).text_variables@[VarKey::LastOutput]@ == text@
                    &&& final(controller).prompts@ == old(controller).prompts@.insert(
                        VarKey::LastOutput,
                        final(controller).prompts@[VarKey::LastOutput],
                    )
                    &&& final(controller).embedding_variables@ == old(controller).embedding_variables@
                    &&& final(controller).templates@ == old(controller).templates@
                    &&& final(controller).template_files@ == old(controller).template_files@
                    &&& msgs_view(final(controller).prompts@[VarKey::LastOutput]@) == msgs_view(
                        old(self).sent->0@,
                    ).push(text_msg(BarkRole::Assistant, text@))
                },
                Err(_) => r == BarkState::Failed && *final(controller) == *old(controller),
            },
    {
        *gas = gas_after;
        let sent = self.sent.take();
        if check_gas(gas) {
            return BarkState::WaitingForGas;
        }
        match (outcome, sent) {
            (Ok(text), Some(sent)) => {
                controller.record_completion(&sent, text);
                BarkState::Complete
            },
            _ => BarkState::Failed,
        }
    }

    /// Drops any pending exchange.
    pub fn reset(&mut self)
        ensures
            final(self).sent is None,
            final(self).ai_model == old(self).ai_model,
            final(self).prompt == old(self).prompt,
    {
        self.sent = None;
    }
}

/// Sends a prompt and checks the reply against a matcher.
pub struct MatchResponse {
    pub ai_model: Option<TextValue>,
    pub matches: TextMatcher,
    pub prompt: PromptValue,
    pub waiting: bool,
}

impl MatchResponse {
    pub fn new(ai_model: Option<TextValue>, matches: TextMatcher, prompt: PromptValue) -> (r:
        MatchResponse)
        ensures
            r.ai_model == ai_model,
            r.matches == matches,
            r.prompt == prompt,
            !r.waiting,
    {
        MatchResponse { ai_model, matches, prompt, waiting: false }
    }

    /// Starts the exchange; an empty prompt gives no request, and the node fails.
    pub fn begin(&mut self, controller: &BarkController) -> (r: Option<ChatRequest>)
        requires
            controller.wf(),
        ensures
            final(self).ai_model == old(self).ai_model,
            final(self).matches == old(self).matches,
            final(self).prompt == old(self).prompt,
            final(self).waiting == r is Some,
            prompt_of(*controller, old(self).prompt, Seq::empty()).len() == 0 ==> r is None,
            prompt_of(*controller, old(self).prompt, Seq::empty()).len() > 0 ==> (r matches Some(
                req,
            ) && msgs_view(req.messages@) == prompt_of(*controller, old(self).prompt, Seq::empty())
                && opt_chars(req.model) == model_name_of(*controller, old(self).ai_model)),
    {
        let prompt = controller.get_prompt(&self.prompt);
        if prompt.len() == 0 {
            self.waiting = false;
            return None;
        }
        self.waiting = true;
        Some(ChatRequest { model: model_name(controller, &self.ai_model), messages: prompt })
    }

    /// Takes in the reply and the budget left after it. With the budget used
    /// up the node waits for gas and keeps nothing; otherwise the reply becomes
    /// the last output, and the node completes when the matcher holds of it.
    pub fn finish(
        &mut self,
        controller: &mut BarkController,
        outcome: Result<String, ModelError>,
        gas: &mut Option<i32>,
        gas_after: Option<i32>,
    ) -> (r: BarkState)
        requires
            old(controller).wf(),
        ensures
            final(controller).wf(),
            *final(gas) == gas_after,
            !final(self).waiting,
            final(self).ai_model == old(self).ai_model,
            final(self).matches == old(self).matches,
            final(self).prompt == old(self).prompt,
            gas_exhausted(gas_after) ==> r == BarkState::WaitingForGas && *final(controller)
                == *old(controller),
            !gas_exhausted(gas_after) ==> match outcome {
                Ok(text) => {
                    &&& text_set(*old(controller), *final(controller), VarKey::LastOutput, text@)
                    &&& r == if matcher_holds(*final(controller), text@, old(self).matches) {
                        BarkState::Complete
                    } else {
                        BarkState::Failed
                    }
                },
                Err(_) => r == BarkState::Failed && *final(controller) == *old(controller),
            },
    {
        self.waiting = false;
        *gas = gas_after;
        if check_gas(gas) {
            return BarkState::WaitingForGas;
        }
        match outcome {
            Ok(text) => {
                let t = TextValue::Simple(text.clone());
                controller.set_text(VariableId::LastOutput, text);
                if controller.text_matches(&t, &self.matches) {
                    BarkState::Complete
                } else {
                    BarkState::Failed
                }
            },
            Err(_) => BarkState::Failed,
        }
    }

    pub fn reset(&mut self)
        ensures
            !final(self).waiting,
            final(self).ai_model == old(self).ai_model,
            final(self).matches == old(self).matches,
            final(self).prompt == old(self).prompt,
    {
        self.waiting = false;
    }
}

/// An agent run to start off the tick: the model, the conversation, and the
/// tool filters.
pub struct AgentRequest {
    pub model: Option<String>,
    pub messages: Vec<BarkMessage>,
    pub tool_filters: Vec<String>,
}

/// Runs the agent loop on a prompt with the tools its filters allow.
pub struct Agent {
    pub ai_model: Option<TextValue>,
    pub prompt: PromptValue,
    pub tool_filters: TextValue,
    pub waiting: bool,
}

impl Agent {
    pub fn new(ai_model: Option<TextValue>, prompt: PromptValue, tool_filters: TextValue) -> (r:
        Agent)
        ensures
            r.ai_model == ai_model,
            r.prompt == prompt,
            r.tool_filters == tool_filters,
            !r.waiting,
    {
        Agent { ai_model, prompt, tool_filters, waiting: false }
    }

    /// Starts the run. With the budget used up the node waits for gas
    /// instead; an empty prompt gives no request, and the node fails.
    pub fn begin(&mut self, controller: &BarkController, gas: &Option<i32>) -> (r: Result<
        AgentRequest,
        BarkState,
    >)
        requires
            controller.wf(),
        ensures
            final(self).ai_model == old(self).ai_model,
            final(self).prompt == old(self).prompt,
            final(self).tool_filters == old(self).tool_filters,
            final(self).waiting == r is Ok,
            gas_exhausted(*gas) ==> r == Err::<AgentRequest, BarkState>(BarkState::WaitingForGas),
            !gas_exhausted(*gas) && prompt_of(*controller, old(self).prompt, Seq::empty()).len()
                == 0 ==> r == Err::<AgentRequest, BarkState>(BarkState::Failed),
            !gas_exhausted(*gas) && prompt_of(*controller, old(self).prompt, Seq::empty()).len()
                > 0 ==> (r matches Ok(req) && msgs_view(req.messages@) == prompt_of(
                *controller,
                old(self).prompt,
                Seq::empty(),
            ) && opt_chars(req.model) == model_name_of(*controller, old(self).ai_model)
                && strings_view(req.tool_filters@) == filter_list(
                comma_pieces(text_of(*controller, old(self).tool_filters), 0),
            )),
    {
        if check_gas(gas) {
            self.waiting = false;
            return Err(BarkState::WaitingForGas);
        }
        let prompt = controller.get_prompt(&self.prompt);
        if prompt.len() == 0 {
            self.waiting = false;
            return Err(BarkState::Failed);
        }
        let filters_text = controller.get_text(&self.tool_filters);
        self.waiting = true;
        Ok(
            AgentRequest {
                model: model_name(controller, &self.ai_model),
                messages: prompt,
                tool_filters: parse_tool_filters(&filters_text),
            },
        )
    }

    /// Takes in the end of the run: the final text and conversation on success,
    /// the conversation so far on failure. The conversation becomes the
    /// last-output prompt either way; on success the text becomes the last
    /// output.
    pub fn finish(
        &mut self,
        controller: &mut BarkController,
        outcome: Result<(String, Vec<BarkMessage>), (ModelError, Vec<BarkMessage>)>,
    ) -> (r: BarkState)
        requires
            old(controller).wf(),
        ensures
            final(controller).wf(),
            !final(self).waiting,
            final(self).ai_model == old(self).ai_model,
            final(self).prompt == old(self).prompt,
            final(self).tool_filters == old(self).tool_filters,
            match outcome {
                Ok((text, chat)) => {
                    &&& r == BarkState::Complete
                    &&& final(controller).text_variables@ == old(controller).text_variables@.insert(
                        VarKey::LastOutput,
                        final(controller).text_variables@[VarKey::LastOutput],
                    )
                    &&& final(controller).text_variables@[VarKey::LastOutput]@ == text@
                    &&& final(controller).prompts@ == old(controller).prompts@.insert(
                        VarKey::LastOutput,
                        final(controller).prompts@[VarKey::LastOutput],
                    )
                    &&& msgs_view(final(controller).prompts@[VarKey::LastOutput]@) == msgs_view(chat@)
                },
                Err((_, chat)) => r == BarkState::Failed && prompt_set(
                    *old(controller),
                    *final(controller),
                    VarKey::LastOutput,
                    msgs_view(chat@),
                ),
            },
    {
        self.waiting = false;
        match outcome {
            Ok((text, chat)) => {
                controller.set_text(VariableId::LastOutput, text);
                controller.set_prompt(VariableId::LastOutput, chat);
                BarkState::Complete
            },
            Err((_, chat)) => {
                controller.set_prompt(VariableId::LastOutput, chat);
                BarkState::Failed
            },
        }
    }

    pub fn reset(&mut self)
        ensures
            !final(self).waiting,
            final(self).ai_model == old(self).ai_model,
            final(self).prompt == old(self).prompt,
            final(self).tool_filters == old(self).tool_filters,
    {
        self.waiting = false;
    }
}

/// Computes the embedding of a text into an embedding variable.
pub struct GetEmbedding {
    pub text: TextValue,
    pub variable: VariableId,
    pub waiting: bool,
}

impl GetEmbedding {
    pub fn new(text: TextValue, variable: VariableId) -> (r: GetEmbedding)
        ensures
            r.text == text,
            r.variable == variable,
            !r.waiting,
    {
        GetEmbedding { text, variable, waiting: false }
    }

    /// Starts the request: the text to embed.
    pub fn begin(&mut self, controller: &BarkController) -> (r: String)
        requires
            controller.wf(),
        ensures
            r@ == text_of(*controller, old(self).text),
            final(self).waiting,
            final(self).text == old(self).text,
            final(self).variable == old(self).variable,
    {
        self.waiting = true;
        controller.get_text(&self.text)
    }

    /// Stores the embedding (the bit patterns of its floats) on success.
    pub fn finish(&mut self, controller: &mut BarkController, outcome: Result<Vec<u32>, ModelError>) -> (r: BarkState)
        requires
            old(controller).wf(),
        ensures
            final(controller).wf(),
            !final(self).waiting,
            final(self).text == old(self).text,
            final(self).variable == old(self).variable,
            match outcome {
                Ok(e) => r == BarkState::Complete && final(controller).embedding_variables@
                    == old(controller).embedding_variables@.insert(old(self).variable@, e)
                    && final(controller).text_variables@ == old(controller).text_variables@
                    && final(controller).prompts@ == old(controller).prompts@,
                Err(_) => r == BarkState::Failed && *final(controller) == *old(controller),
            },
    {
        self.waiting = false;
        match outcome {
            Ok(e) => {
                controller.set_embedding(self.variable.copy(), e);
                BarkState::Complete
            },
            Err(_) => BarkState::Failed,
        }
    }

    pub fn reset(&mut self)
        ensures
            !final(self).waiting,
            final(self).text == old(self).text,
            final(self).variable == old(self).variable,
    {
        self.waiting = false;
    }
}

/// Finds the stored text nearest to a query text and keeps it as the last
/// output.
pub struct PullBestScored {
    pub db: TextValue,
    pub text: TextValue,
    pub waiting: bool,
}

impl PullBestScored {
    pub fn new(db: TextValue, text: TextValue) -> (r: PullBestScored)
        ensures
            r.db == db,
            r.text == text,
            !r.waiting,
    {
        PullBestScored { db, text, waiting: false }
    }

    /// Starts the query: the text to embed and the database path.
    pub fn begin(&mut self, controller: &BarkController) -> (r: (String, String))
        requires
            controller.wf(),
        ensures
            r.0@ == text_of(*controller, old(self).text),
            r.1@ == text_of(*controller, old(self).db),
            final(self).waiting,
            final(self).db == old(self).db,
            final(self).text == old(self).text,
    {
        self.waiting = true;
        (controller.get_text(&self.text), controller.get_text(&self.db))
    }

    /// Takes in the nearest text, if the query found one.
    pub fn finish(&mut self, controller: &mut BarkController, best: Option<String>) -> (r: BarkState)
        requires
            old(controller).wf(),
        ensures
            final(controller).wf(),
            !final(self).waiting,
            final(self).db == old(self).db,
            final(self).text == old(self).text,
            match best {
                Some(b) => r == BarkState::Complete && text_set(
                    *old(controller),
                    *final(controller),
                    VarKey::LastOutput,
                    b@,
                ),
                None => r == BarkState::Failed && *final(controller) == *old(controller),
            },
    {
        self.waiting = false;
        match best {
            Some(b) => {
                controller.set_text(VariableId::LastOutput, b);
                BarkState::Complete
            },
            None => BarkState::Failed,
        }
    }

    pub fn reset(&mut self)
        ensures
            !final(self).waiting,
            final(self).db == old(self).db,
            final(self).text == old(self).text,
    {
        self.waiting = false;
    }
}

/// The resolutions of key-value pairs.
pub open spec fn pairs_of(c: BarkController, kvs: Seq<(TextValue, TextValue)>) -> Seq<(Seq<char>, Seq<char>)> {
    Seq::new(kvs.len(), |i: int| (text_of(c, kvs[i].0), text_of(c, kvs[i].1)))
}

/// Stores a text, its embedding and key-value pairs in a vector database.
pub struct PushValuedEmbedding {
    pub db: TextValue,
    pub text: TextValue,
    pub kvs: Vec<(TextValue, TextValue)>,
    pub waiting: bool,
}

impl PushValuedEmbedding {
    pub fn new(db: TextValue, text: TextValue, kvs: Vec<(TextValue, TextValue)>) -> (r:
        PushValuedEmbedding)
        ensures
            r.db == db,
            r.text == text,
            r.kvs == kvs,
            !r.waiting,
    {
        PushValuedEmbedding { db, text, kvs, waiting: false }
    }

    /// Starts the push: the text to embed.
    pub fn begin(&mut self, controller: &BarkController) -> (r: String)
        requires
            controller.wf(),
        ensures
            r@ == text_of(*controller, old(self).text),
            final(self).waiting,
            final(self).db == old(self).db,
            final(self).text == old(self).text,
            final(self).kvs == old(self).kvs,
    {
        self.waiting = true;
        controller.get_text(&self.text)
    }

    /// What to store once the embedding is there: the database path and the
    /// resolved key-value pairs.
    pub fn target(&self, controller: &BarkController) -> (r: (String, Vec<(String, String)>))
        requires
            controller.wf(),
        ensures
            r.0@ == text_of(*controller, self.db),
            r.1@.len() == self.kvs@.len(),
            forall|i: int|
                0 <= i < r.1@.len() ==> (#[trigger] r.1@[i].0@, r.1@[i].1@) == pairs_of(
                    *controller,
                    self.kvs@,
                )[i],
    {
        let mut out: Vec<(String, String)> = Vec::new();
        let mut i: usize = 0;
        while i < self.kvs.len()
            invariant
                controller.wf(),
                i <= self.kvs@.len(),
                out@.len() == i,
                forall|j: int|
                    0 <= j < i ==> (#[trigger] out@[j].0@, out@[j].1@) == pairs_of(
                        *controller,
                        self.kvs@,
                    )[j],
            decreases self.kvs@.len() - i,
        {
            out.push((controller.get_text(&self.kvs[i].0), controller.get_text(&self.kvs[i].1)));
            i += 1;
        }
        (controller.get_text(&self.db), out)
    }

    /// Takes in whether the store succeeded.
    pub fn finish(&mut self, stored: bool) -> (r: BarkState)
        ensures
            r == (if stored {
                BarkState::Complete
            } else {
                BarkState::Failed
            }),
            !final(self).waiting,
            final(self).db == old(self).db,
            final(self).text == old(self).text,
            final(self).kvs == old(self).kvs,
    {
        self.waiting = false;
        if stored {
            BarkState::Complete
        } else {
            BarkState::Failed
        }
    }

    pub fn reset(&mut self)
        ensures
            !final(self).waiting,
            final(self).db == old(self).db,
            final(self).text == old(self).text,
            final(self).kvs == old(self).kvs,
    {
        self.waiting = false;
    }
}

/// The lowercase form of a text, as `str::to_lowercase` gives it.
pub uninterp spec fn lower_of(s: Seq<char>) -> Seq<char>;

/// Relies on `str::to_lowercase`: the Unicode lowercase mapping, which depends
/// on the characters alone.
#[verifier::external_body]
fn lowercase(s: &str) -> (r: String)
    ensures
        r@ == lower_of(s@),
{
    s.to_lowercase()
}

/// Whether some word of `words` occurs in `text`.
pub open spec fn any_word_in(words: Seq<String>, text: Seq<char>) -> bool {
    exists|i: int| 0 <= i < words.len() && contains_seq(text, #[trigger] words[i]@)
}

fn contains_any_word(words: &Vec<String>, text: &String) -> (r: bool)
    ensures
        r == any_word_in(words@, text@),
{
    let t = chars_of(text.as_str());
    let mut i: usize = 0;
    while i < words.len()
        invariant
            i <= words@.len(),
            t@ == text@,
            forall|j: int| 0 <= j < i ==> !contains_seq(text@, #[trigger] words@[j]@),
        decreases words@.len() - i,
    {
        if contains_exec(&t, &chars_of(words[i].as_str())) {
            return true;
        }
        i += 1;
    }
    false
}

/// Whether the lowercase form of a reply holds one of `words`.
pub fn reply_mentions(words: &Vec<String>, reply: &String) -> (r: bool)
    ensures
        r == any_word_in(words@, lower_of(reply@)),
{
    contains_any_word(words, &lowercase(reply.as_str()))
}

/// Sends a prompt; the node completes when the reply, in lowercase, holds one
/// of the words.
pub struct RequireInResponse(pub Vec<String>, pub PromptValue);

/// Sends a prompt; the node fails when the reply, in lowercase, holds one of
/// the words.
pub struct RejectInResponse(pub Vec<String>, pub PromptValue);

/// Keeps a reply as the last output and checks it for the words: `require`
/// asks that one occurs, otherwise none may occur.
fn check_reply(
    controller: &mut BarkController,
    words: &Vec<String>,
    require: bool,
    outcome: Result<String, ModelError>,
) -> (r: BarkState)
    requires
        old(controller).wf(),
    ensures
        final(controller).wf(),
        match outcome {
            Ok(text) => text_set(*old(controller), *final(controller), VarKey::LastOutput, text@)
                && r == (if any_word_in(words@, lower_of(text@)) == require {
                BarkState::Complete
            } else {
                BarkState::Failed
            }),
            Err(_) => r == BarkState::Failed && *final(controller) == *old(controller),
        },
{
    match outcome {
        Ok(text) => {
            let found = reply_mentions(words, &text);
            controller.set_text(VariableId::LastOutput, text);
            if found == require {
                BarkState::Complete
            } else {
                BarkState::Failed
            }
        },
        Err(_) => BarkState::Failed,
    }
}

impl RequireInResponse {
    /// Starts the exchange; an empty prompt gives no request, and the node fails.
    pub fn begin(&self, controller: &BarkController) -> (r: Option<ChatRequest>)
        requires
            controller.wf(),
        ensures
            prompt_of(*controller, self.1, Seq::empty()).len() == 0 ==> r is None,
            prompt_of(*controller, self.1, Seq::empty()).len() > 0 ==> (r matches Some(req)
                && msgs_view(req.messages@) == prompt_of(*controller, self.1, Seq::empty())
                && req.model is None),
    {
        let prompt = controller.get_prompt(&self.1);
        if prompt.len() == 0 {
            return None;
        }
        Some(ChatRequest { model: None, messages: prompt })
    }

    /// Takes in the reply: it becomes the last output, and the node completes
    /// when it mentions one of the words.
    pub fn finish(&self, controller: &mut BarkController, outcome: Result<String, ModelError>) -> (r: BarkState)
        requires
            old(controller).wf(),
        ensures
            final(controller).wf(),
            match outcome {
                Ok(text) => text_set(*old(controller), *final(controller), VarKey::LastOutput, text@)
                    && r == (if any_word_in(self.0@, lower_of(text@)) {
                    BarkState::Complete
                } else {
                    BarkState::Failed
                }),
                Err(_) => r == BarkState::Failed && *final(controller) == *old(controller),
            },
    {
        check_reply(controller, &self.0, true, outcome)
    }
}

impl RejectInResponse {
    /// Starts the exchange; an empty prompt gives no request, and the node fails.
    pub fn begin(&self, controller: &BarkController) -> (r: Option<ChatRequest>)
        requires
            controller.wf(),
        ensures
            prompt_of(*controller, self.1, Seq::empty()).len() == 0 ==> r is None,
            prompt_of(*controller, self.1, Seq::empty()).len() > 0 ==> (r matches Some(req)
                && msgs_view(req.messages@) == prompt_of(*controller, self.1, Seq::empty())
                && req.model is None),
    {
        let prompt = controller.get_prompt(&self.1);
        if prompt.len() == 0 {
            return None;
        }
        Some(ChatRequest { model: None, messages: prompt })
    }

    /// Takes in the reply: it becomes the last output, and the node fails when
    /// it mentions one of the words.
    pub fn finish(&self, controller: &mut BarkController, outcome: Result<String, ModelError>) -> (r: BarkState)
        requires
            old(controller).wf(),
        ensures
            final(controller).wf(),
            match outcome {
                Ok(text) => text_set(*old(controller), *final(controller), VarKey::LastOutput, text@)
                    && r == (if any_word_in(self.0@, lower_of(text@)) {
                    BarkState::Failed
                } else {
                    BarkState::Complete
                }),
                Err(_) => r == BarkState::Failed && *final(controller) == *old(controller),
            },
    {
        check_reply(controller, &self.0, false, outcome)
    }
}

/// Resolves a search text; no search service stands behind it, so the node
/// completes and leaves the controller as it is.
pub struct Search(pub TextValue);

impl Search {
    /// The text searched for.
    pub fn query(&self, controller: &BarkController) -> (r: String)
        requires
            controller.wf(),
        ensures
            r@ == text_of(*controller, self.0),
    {
        controller.get_text(&self.0)
    }

    pub fn resume_with(&self, controller: &BarkController) -> (r: BarkState)
        requires
            controller.wf(),
        ensures
            r == BarkState::Complete,
    {
        BarkState::Complete
    }
}

} // verus!
