use vstd::prelude::*;

verus! {

/// Who a chat message is from.
#[derive(Clone, Copy, Debug, PartialEq, Eq, Structural)]
pub enum BarkRole {
    System,
    Assistant,
    User,
    Tool,
}

/// A tool invocation requested by the model.
pub struct BarkToolCall {
    pub id: String,
    pub function_name: String,
    pub arguments: Option<String>,
}

/// What a tool invocation gave back.
pub struct BarkToolCallResponse {
    pub id: String,
    pub function_name: String,
    pub arguments: Option<String>,
    pub result: Option<String>,
}

/// The body of a chat message.
pub enum BarkContent {
    Text(String),
    ToolCall(BarkToolCall),
    ToolResponse { id: String, response: String },
}

/// A realized chat message.
pub struct BarkMessage {
    pub role: BarkRole,
    pub content: BarkContent,
}

/// One completion offered by the model.
pub struct Choice {
    pub index: usize,
    pub value: String,
}

/// A model reply: plain completions, or tool calls to run first. `usage` is the
/// number of tokens the backend reports, if it reports one.
pub enum BarkResponse {
    Chat { choices: Vec<Choice>, usage: Option<u32> },
    ToolCalls { calls: Vec<BarkToolCall>, usage: Option<u32> },
}

/// A copy of an optional string.
pub fn copy_opt(s: &Option<String>) -> (r: Option<String>)
    ensures
        r == *s,
{
    match s {
        Some(v) => Some(v.clone()),
        None => None,
    }
}

impl BarkToolCall {
    pub fn copy(&self) -> (r: BarkToolCall)
        ensures
            r == *self,
    {
        BarkToolCall {
            id: self.id.clone(),
            function_name: self.function_name.clone(),
            arguments: copy_opt(&self.arguments),
        }
    }
}

impl BarkContent {
    pub fn copy(&self) -> (r: BarkContent)
        ensures
            r == *self,
    {
        match self {
            BarkContent::Text(t) => BarkContent::Text(t.clone()),
            BarkContent::ToolCall(c) => BarkContent::ToolCall(c.copy()),
            BarkContent::ToolResponse { id, response } => BarkContent::ToolResponse {
                id: id.clone(),
                response: response.clone(),
            },
        }
    }
}

impl BarkMessage {
    pub fn copy(&self) -> (r: BarkMessage)
        ensures
            r == *self,
    {
        BarkMessage { role: self.role, content: self.content.copy() }
    }

    /// The text of a text message.
    pub fn text_content(&self) -> (r: Option<&String>)
        ensures
            r is Some == self.content is Text,
            r is Some ==> *r->0 == self.content->Text_0,
    {
        match &self.content {
            BarkContent::Text(text) => Some(text),
            _ => None,
        }
    }

    /// The call carried by a tool-call message.
    pub fn tool_call(&self) -> (r: Option<&BarkToolCall>)
        ensures
            r is Some == self.content is ToolCall,
            r is Some ==> *r->0 == self.content->ToolCall_0,
    {
        match &self.content {
            BarkContent::ToolCall(request) => Some(request),
            _ => None,
        }
    }
}

/// The mathematical value of a tool call.
pub struct ToolCallView {
    pub id: Seq<char>,
    pub function_name: Seq<char>,
    pub arguments: Option<Seq<char>>,
}

/// The mathematical value of a message body.
pub enum ContentView {
    Text(Seq<char>),
    ToolCall(ToolCallView),
    ToolResponse { id: Seq<char>, response: Seq<char> },
}

/// The mathematical value of a chat message.
pub struct MessageView {
    pub role: BarkRole,
    pub content: ContentView,
}

/// The characters of an optional string.
pub open spec fn opt_view(s: Option<String>) -> Option<Seq<char>> {
    match s {
        Some(v) => Some(v@),
        None => None,
    }
}

impl View for BarkToolCall {
    type V = ToolCallView;

    open spec fn view(&self) -> ToolCallView {
        ToolCallView {
            id: self.id@,
            function_name: self.function_name@,
            arguments: opt_view(self.arguments),
        }
    }
}

impl View for BarkContent {
    type V = ContentView;

    open spec fn view(&self) -> ContentView {
        match self {
            BarkContent::Text(t) => ContentView::Text(t@),
            BarkContent::ToolCall(c) => ContentView::ToolCall(c@),
            BarkContent::ToolResponse { id, response } => ContentView::ToolResponse {
                id: id@,
                response: response@,
            },
        }
    }
}

impl View for BarkMessage {
    type V = MessageView;

    open spec fn view(&self) -> MessageView {
        MessageView { role: self.role, content: self.content@ }
    }
}

/// The values of a list of messages.
pub open spec fn msgs_view(v: Seq<BarkMessage>) -> Seq<MessageView> {
    v.map_values(|m: BarkMessage| m@)
}

/// A text message from `role`.
pub open spec fn text_msg(role: BarkRole, s: Seq<char>) -> MessageView {
    MessageView { role, content: ContentView::Text(s) }
}

/// Whether `m` is a text message from `role` whose text is `s`.
pub open spec fn is_text(m: BarkMessage, role: BarkRole, s: Seq<char>) -> bool {
    m@ == text_msg(role, s)
}

/// A text message with the given role.
pub fn text_message(role: BarkRole, s: String) -> (r: BarkMessage)
    ensures
        r@ == text_msg(role, s@),
{
    BarkMessage { role, content: BarkContent::Text(s) }
}

/// A user text message.
pub fn user(s: &str) -> (r: BarkMessage)
    ensures
        is_text(r, BarkRole::User, s@),
{
    BarkMessage { role: BarkRole::User, content: BarkContent::Text(s.to_string()) }
}

/// A system text message.
pub fn system(s: &str) -> (r: BarkMessage)
    ensures
        is_text(r, BarkRole::System, s@),
{
    BarkMessage { role: BarkRole::System, content: BarkContent::Text(s.to_string()) }
}

/// An assistant text message.
pub fn assistant(s: &str) -> (r: BarkMessage)
    ensures
        is_text(r, BarkRole::Assistant, s@),
{
    BarkMessage { role: BarkRole::Assistant, content: BarkContent::Text(s.to_string()) }
}

/// Copies a list of messages.
pub fn copy_messages(v: &Vec<BarkMessage>) -> (r: Vec<BarkMessage>)
    ensures
        r@ == v@,
{
    let mut r: Vec<BarkMessage> = Vec::new();
    let mut i: usize = 0;
    while i < v.len()
        invariant
            i <= v@.len(),
            r@ == v@.subrange(0, i as int),
        decreases v@.len() - i,
    {
        r.push(v[i].copy());
        i += 1;
    }
    r
}

/// Appends copies of the messages of `v` to `out`.
pub fn extend_messages(out: &mut Vec<BarkMessage>, v: &Vec<BarkMessage>)
    ensures
        final(out)@ == old(out)@ + v@,
{
    let mut i: usize = 0;
    while i < v.len()
        invariant
            i <= v@.len(),
            out@ == old(out)@ + v@.subrange(0, i as int),
        decreases v@.len() - i,
    {
        out.push(v[i].copy());
        i += 1;
        assert(v@.subrange(0, i as int) == v@.subrange(0, i - 1) + seq![v@[i - 1]]);
    }
    assert(v@.subrange(0, v@.len() as int) == v@);
}

/// The messages with each run of text messages from one role joined into one
/// message holding their texts back to back; tool calls and tool responses are
/// kept as they are and end a run.
pub open spec fn merged(s: Seq<MessageView>) -> Seq<MessageView>
    decreases s.len(),
{
    if s.len() == 0 {
        Seq::empty()
    } else {
        let m = merged(s.drop_last());
        let x = s.last();
        if x.content is Text && m.len() > 0 && m.last().content is Text && m.last().role == x.role {
            m.drop_last().push(text_msg(x.role, m.last().content->Text_0 + x.content->Text_0))
        } else {
            m.push(x)
        }
    }
}

/// Joins runs of text messages from one role, as a chat backend expects them.
pub fn merge_text_messages(v: &Vec<BarkMessage>) -> (r: Vec<BarkMessage>)
    ensures
        msgs_view(r@) == merged(msgs_view(v@)),
{
    let ghost all = msgs_view(v@);
    let mut out: Vec<BarkMessage> = Vec::new();
    let mut i: usize = 0;
    while i < v.len()
        invariant
            i <= v@.len(),
            all == msgs_view(v@),
            msgs_view(out@) == merged(all.subrange(0, i as int)),
        decreases v@.len() - i,
    {
        let ghost pre = all.subrange(0, i + 1);
        assert(pre.drop_last() =~= all.subrange(0, i as int));
        assert(pre.last() == v@[i as int]@);
        let ghost before = msgs_view(out@);
        let n = out.len();
        let joined = match (&v[i].content, n > 0) {
            (BarkContent::Text(t), true) => match &out[n - 1].content {
                BarkContent::Text(prev) => if out[n - 1].role == v[i].role {
                    let mut cs = crate::text::chars_of(prev.as_str());
                    crate::text::append_chars(&mut cs, crate::text::chars_of(t.as_str()).as_slice());
                    Some(crate::text::string_of(cs.as_slice()))
                } else {
                    None
                },
                _ => None,
            },
            _ => None,
        };
        match joined {
            Some(text) => {
                let role = v[i].role;
                out.pop();
                out.push(text_message(role, text));
                assert(msgs_view(out@) =~= before.drop_last().push(
                    text_msg(role, before.last().content->Text_0 + pre.last().content->Text_0),
                ));
            },
            None => {
                out.push(v[i].copy());
                assert(msgs_view(out@) =~= before.push(pre.last()));
            },
        }
        i += 1;
    }
    assert(all.subrange(0, v@.len() as int) == all);
    out
}

} // verus!
