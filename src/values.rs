use vstd::prelude::*;

verus! {

/// Names a slot of the controller.
pub enum VariableId {
    LoopValue,
    Accumulator,
    LastOutput,
    PreEmbed,
    User(String),
    PreLoaded(String),
}

/// The mathematical value of a `VariableId`: its variant and the characters of its name.
pub enum VarKey {
    LoopValue,
    Accumulator,
    LastOutput,
    PreEmbed,
    User(Seq<char>),
    PreLoaded(Seq<char>),
}

impl View for VariableId {
    type V = VarKey;

    open spec fn view(&self) -> VarKey {
        match self {
            VariableId::LoopValue => VarKey::LoopValue,
            VariableId::Accumulator => VarKey::Accumulator,
            VariableId::LastOutput => VarKey::LastOutput,
            VariableId::PreEmbed => VarKey::PreEmbed,
            VariableId::User(s) => VarKey::User(s@),
            VariableId::PreLoaded(s) => VarKey::PreLoaded(s@),
        }
    }
}

impl VariableId {
    /// A user-named slot.
    pub fn from_name(name: &str) -> (r: VariableId)
        ensures
            r@ == VarKey::User(name@),
    {
        VariableId::User(name.to_string())
    }

    /// Whether two identifiers name the same slot.
    pub fn same(&self, other: &VariableId) -> (r: bool)
        ensures
            r == (self@ == other@),
    {
        match (self, other) {
            (VariableId::User(a), VariableId::User(b)) => a.eq(b),
            (VariableId::PreLoaded(a), VariableId::PreLoaded(b)) => a.eq(b),
            (VariableId::User(_), _) => false,
            (VariableId::PreLoaded(_), _) => false,
            (_, VariableId::User(_)) => false,
            (_, VariableId::PreLoaded(_)) => false,
            (VariableId::LoopValue, VariableId::LoopValue) => true,
            (VariableId::Accumulator, VariableId::Accumulator) => true,
            (VariableId::LastOutput, VariableId::LastOutput) => true,
            (VariableId::PreEmbed, VariableId::PreEmbed) => true,
            _ => false,
        }
    }

    /// A copy of the identifier.
    pub fn copy(&self) -> (r: VariableId)
        ensures
            r == *self,
    {
        match self {
            VariableId::LoopValue => VariableId::LoopValue,
            VariableId::Accumulator => VariableId::Accumulator,
            VariableId::LastOutput => VariableId::LastOutput,
            VariableId::PreEmbed => VariableId::PreEmbed,
            VariableId::User(s) => VariableId::User(s.clone()),
            VariableId::PreLoaded(s) => VariableId::PreLoaded(s.clone()),
        }
    }
}

/// Deferred text, resolved against a controller.
pub enum TextValue {
    Simple(String),
    Variable(VariableId),
    Thoughts(VariableId),
    WithoutThoughts(VariableId),
    Default(VariableId, String),
    Multi(Vec<TextValue>),
    /// Named parts, written out as a JSON object: keys in code-point order,
    /// each once, with the value listed last for it.
    Structured(Vec<(String, TextValue)>),
}

/// A predicate over a resolved text.
pub enum TextMatcher {
    Exact(TextValue),
    Contains(TextValue),
    StartsWith(TextValue),
    EndsWith(TextValue),
    Not(Box<TextMatcher>),
    Any(Vec<TextMatcher>),
    All(Vec<TextMatcher>),
}

/// An authored chat message.
pub enum MessageValue {
    User(String),
    System(String),
    Assistant(String),
    UserVar(VariableId),
    SystemVar(VariableId),
    AssistantVar(VariableId),
    UserVal(TextValue),
    SystemVal(TextValue),
    AssistantVal(TextValue),
    SubPrompt(VariableId),
    Template(VariableId),
}

/// A prompt producer.
pub enum PromptValue {
    Variable(VariableId),
    Template(VariableId),
    TemplateFile(TextValue),
    Quick(String),
    Chat(Vec<MessageValue>),
    Joined(Vec<PromptValue>),
}

/// Whether two text values are the same value: the same variant with the same
/// strings, identifiers and parts.
pub open spec fn text_equiv(a: TextValue, b: TextValue) -> bool
    decreases a,
{
    match a {
        TextValue::Multi(x) => match b {
            TextValue::Multi(y) => x@.len() == y@.len() && forall|i: int|
                0 <= i < x@.len() ==> text_equiv(#[trigger] x@[i], y@[i]),
            _ => false,
        },
        TextValue::Structured(x) => match b {
            TextValue::Structured(y) => x@.len() == y@.len() && forall|i: int|
                0 <= i < x@.len() ==> #[trigger] x@[i].0 == y@[i].0 && text_equiv(x@[i].1, y@[i].1),
            _ => false,
        },
        _ => a == b,
    }
}

/// Whether two authored messages are the same value.
pub open spec fn message_equiv(a: MessageValue, b: MessageValue) -> bool {
    match (a, b) {
        (MessageValue::UserVal(x), MessageValue::UserVal(y)) => text_equiv(x, y),
        (MessageValue::SystemVal(x), MessageValue::SystemVal(y)) => text_equiv(x, y),
        (MessageValue::AssistantVal(x), MessageValue::AssistantVal(y)) => text_equiv(x, y),
        _ => a == b,
    }
}

/// Whether two lists of authored messages hold the same values.
pub open spec fn messages_equiv(a: Seq<MessageValue>, b: Seq<MessageValue>) -> bool {
    a.len() == b.len() && forall|i: int| 0 <= i < a.len() ==> message_equiv(#[trigger] a[i], b[i])
}

impl TextValue {
    /// A copy of the value.
    pub fn copy(&self) -> (r: TextValue)
        ensures
            text_equiv(r, *self),
        decreases self,
    {
        match self {
            TextValue::Simple(s) => TextValue::Simple(s.clone()),
            TextValue::Variable(id) => TextValue::Variable(id.copy()),
            TextValue::Thoughts(id) => TextValue::Thoughts(id.copy()),
            TextValue::WithoutThoughts(id) => TextValue::WithoutThoughts(id.copy()),
            TextValue::Default(id, d) => TextValue::Default(id.copy(), d.clone()),
            TextValue::Multi(ts) => {
                let mut out: Vec<TextValue> = Vec::new();
                let mut i: usize = 0;
                while i < ts.len()
                    invariant
                        i <= ts@.len(),
                        *self == TextValue::Multi(*ts),
                        out@.len() == i,
                        forall|j: int| 0 <= j < i ==> text_equiv(#[trigger] out@[j], ts@[j]),
                    decreases ts@.len() - i,
                {
                    proof {
                        let v: Vec<TextValue> = *ts;
                        assert(decreases_to!(*self => self->Multi_0));
                        assert(decreases_to!(v => v[i as int]));
                    }
                    out.push(ts[i].copy());
                    i += 1;
                }
                TextValue::Multi(out)
            },
            TextValue::Structured(es) => {
                let mut out: Vec<(String, TextValue)> = Vec::new();
                let mut i: usize = 0;
                while i < es.len()
                    invariant
                        i <= es@.len(),
                        *self == TextValue::Structured(*es),
                        out@.len() == i,
                        forall|j: int|
                            0 <= j < i ==> #[trigger] out@[j].0 == es@[j].0 && text_equiv(
                                out@[j].1,
                                es@[j].1,
                            ),
                    decreases es@.len() - i,
                {
                    proof {
                        let v: Vec<(String, TextValue)> = *es;
                        assert(decreases_to!(*self => self->Structured_0));
                        assert(decreases_to!(v => v[i as int]));
                        assert(decreases_to!(v[i as int] => v[i as int].1));
                    }
                    out.push((es[i].0.clone(), es[i].1.copy()));
                    i += 1;
                }
                TextValue::Structured(out)
            },
        }
    }
}

impl MessageValue {
    /// A copy of the value.
    pub fn copy(&self) -> (r: MessageValue)
        ensures
            message_equiv(r, *self),
    {
        match self {
            MessageValue::User(s) => MessageValue::User(s.clone()),
            MessageValue::System(s) => MessageValue::System(s.clone()),
            MessageValue::Assistant(s) => MessageValue::Assistant(s.clone()),
            MessageValue::UserVar(id) => MessageValue::UserVar(id.copy()),
            MessageValue::SystemVar(id) => MessageValue::SystemVar(id.copy()),
            MessageValue::AssistantVar(id) => MessageValue::AssistantVar(id.copy()),
            MessageValue::UserVal(t) => MessageValue::UserVal(t.copy()),
            MessageValue::SystemVal(t) => MessageValue::SystemVal(t.copy()),
            MessageValue::AssistantVal(t) => MessageValue::AssistantVal(t.copy()),
            MessageValue::SubPrompt(id) => MessageValue::SubPrompt(id.copy()),
            MessageValue::Template(id) => MessageValue::Template(id.copy()),
        }
    }
}

/// Copies a list of authored messages.
pub fn copy_message_values(v: &Vec<MessageValue>) -> (r: Vec<MessageValue>)
    ensures
        messages_equiv(r@, v@),
{
    let mut out: Vec<MessageValue> = Vec::new();
    let mut i: usize = 0;
    while i < v.len()
        invariant
            i <= v@.len(),
            out@.len() == i,
            forall|j: int| 0 <= j < i ==> message_equiv(#[trigger] out@[j], v@[j]),
        decreases v@.len() - i,
    {
        out.push(v[i].copy());
        i += 1;
    }
    out
}

} // verus!
