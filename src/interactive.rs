use vstd::prelude::*;

use crate::agent::BarkState;
use crate::controller::{prompt_of, text_of, text_set, BarkController};
use crate::describe::{decimal, decimal_usize};
use crate::messages::{msgs_view, text_msg, user, BarkMessage, BarkRole, MessageView};
use crate::text::{append_chars, chars_of, eq_ignore_case, eq_ignore_case_exec, string_of};
use crate::values::{PromptValue, TextValue, VarKey, VariableId};

verus! {

/// What a line typed at the interactive prompt asks for.
#[derive(Clone, Copy, Debug, PartialEq, Eq, Structural)]
pub enum PickCommand {
    Quit,
    Retry,
    ExtendPrompt,
    AskWithContext,
    Select(usize),
    Invalid,
}

/// Whether `c` is an ASCII decimal digit.
pub open spec fn is_digit(c: char) -> bool {
    '0' <= c <= '9'
}

/// The number written by the decimal digits `ds`.
pub open spec fn digits_value(ds: Seq<char>) -> nat
    decreases ds.len(),
{
    if ds.len() == 0 {
        0
    } else {
        digits_value(ds.drop_last()) * 10 + (ds.last() as u32 - 48) as nat
    }
}

/// `s` without a leading `+`.
pub open spec fn index_digits(s: Seq<char>) -> Seq<char> {
    if s.len() > 0 && s[0] == '+' {
        s.drop_first()
    } else {
        s
    }
}

/// Whether every character of `ds` is a decimal digit.
pub open spec fn all_digits(ds: Seq<char>) -> bool {
    forall|i: int| 0 <= i < ds.len() ==> is_digit(#[trigger] ds[i])
}

/// The index that `s` writes, as `usize::from_str` reads it: an optional `+`,
/// then at least one decimal digit, the value fitting in a `usize`.
pub open spec fn index_of(s: Seq<char>) -> Option<nat> {
    let ds = index_digits(s);
    if ds.len() > 0 && all_digits(ds) && digits_value(ds) <= usize::MAX {
        Some(digits_value(ds))
    } else {
        None
    }
}

/// Reads an index written in decimal.
pub fn parse_index(s: &Vec<char>) -> (r: Option<usize>)
    ensures
        r is Some == index_of(s@) is Some,
        r matches Some(v) ==> index_of(s@) == Some(v as nat),
{
    let start: usize = if s.len() > 0 && s[0] == '+' {
        1
    } else {
        0
    };
    let ghost ds = index_digits(s@);
    assert(ds =~= s@.subrange(start as int, s@.len() as int));
    if start >= s.len() {
        return None;
    }
    let mut value: usize = 0;
    let mut i: usize = start;
    while i < s.len()
        invariant
            start <= i <= s@.len(),
            ds == s@.subrange(start as int, s@.len() as int),
            ds == index_digits(s@),
            forall|j: int| start <= j < i ==> is_digit(#[trigger] s@[j]),
            value as nat == digits_value(s@.subrange(start as int, i as int)),
        decreases s@.len() - i,
    {
        let c = s[i];
        assert(s@.subrange(start as int, i + 1).drop_last() == s@.subrange(start as int, i as int));
        if !('0' <= c && c <= '9') {
            assert(ds[i - start] == s@[i as int]);
            assert(!is_digit(ds[i - start]));
            assert(!all_digits(ds));
            assert(index_of(s@) is None);
            return None;
        }
        let d = (c as u32 - 48) as usize;
        if value > (usize::MAX - d) / 10 {
            proof {
                assert(value * 10 + d > usize::MAX) by (nonlinear_arith)
                    requires
                        value > (usize::MAX - d) / 10,
                        d <= 9,
                ;
                assert(digits_value(s@.subrange(start as int, i + 1)) == value * 10 + d);
                if all_digits(ds) {
                    lemma_digits_grow(ds, (i - start) as int);
                    assert(ds.subrange(0, i + 1 - start) =~= s@.subrange(start as int, i + 1));
                    assert(digits_value(ds) > usize::MAX);
                }
                assert(index_of(s@) is None);
            }
            return None;
        }
        assert(value * 10 + d <= usize::MAX) by (nonlinear_arith)
            requires
                value <= (usize::MAX - d) / 10,
                d <= 9,
        ;
        value = value * 10 + d;
        i += 1;
    }
    assert(s@.subrange(start as int, s@.len() as int) == ds);
    Some(value)
}

/// The value of a prefix never exceeds the value of the whole.
proof fn lemma_digits_grow(ds: Seq<char>, k: int)
    requires
        0 <= k < ds.len(),
        forall|i: int| 0 <= i < ds.len() ==> is_digit(#[trigger] ds[i]),
    ensures
        digits_value(ds.subrange(0, k + 1)) <= digits_value(ds),
    decreases ds.len(),
{
    if k + 1 < ds.len() {
        lemma_digits_grow(ds.drop_last(), k);
        assert(ds.drop_last().subrange(0, k + 1) =~= ds.subrange(0, k + 1));
        assert(forall|i: int| 0 <= i < ds.drop_last().len() ==> is_digit(#[trigger] ds.drop_last()[i])) by {
            assert forall|i: int| 0 <= i < ds.drop_last().len() implies is_digit(#[trigger] ds.drop_last()[i]) by {
                assert(ds.drop_last()[i] == ds[i]);
            }
        }
    } else {
        assert(ds.subrange(0, k + 1) =~= ds);
    }
}

/// How a line typed at the interactive prompt reads: `q`, `r`, `e` and `x` in
/// either case, or an index below `choices`.
pub open spec fn pick_of(input: Seq<char>, choices: nat) -> PickCommand {
    if eq_ignore_case(input, "q"@) {
        PickCommand::Quit
    } else if eq_ignore_case(input, "e"@) {
        PickCommand::ExtendPrompt
    } else if eq_ignore_case(input, "r"@) {
        PickCommand::Retry
    } else if eq_ignore_case(input, "x"@) {
        PickCommand::AskWithContext
    } else {
        match index_of(input) {
            Some(i) => if i < choices {
                PickCommand::Select(i as usize)
            } else {
                PickCommand::Invalid
            },
            None => PickCommand::Invalid,
        }
    }
}

/// Reads a line typed at the interactive prompt.
pub fn interpret_pick(input: &String, choices: usize) -> (r: PickCommand)
    ensures
        r == pick_of(input@, choices as nat),
{
    let s = chars_of(input.as_str());
    if eq_ignore_case_exec(&s, &chars_of("q")) {
        PickCommand::Quit
    } else if eq_ignore_case_exec(&s, &chars_of("e")) {
        PickCommand::ExtendPrompt
    } else if eq_ignore_case_exec(&s, &chars_of("r")) {
        PickCommand::Retry
    } else if eq_ignore_case_exec(&s, &chars_of("x")) {
        PickCommand::AskWithContext
    } else {
        match parse_index(&s) {
            Some(i) => if i < choices {
                PickCommand::Select(i)
            } else {
                PickCommand::Invalid
            },
            None => PickCommand::Invalid,
        }
    }
}

/// The opening line of a prompt that asks with earlier answers as context.
pub open spec fn context_intro() -> Seq<char> {
    "Use the following context to answer a new prompt. The context is composed of several items which might be referenced by the prompt. Context:\n"@
}

/// `Item i:` followed by the answer on the next line.
pub open spec fn item_text(i: nat, s: Seq<char>) -> Seq<char> {
    "Item "@ + decimal(i) + ":\n"@ + s
}

/// The messages that ask `question` with the answers `results` as numbered
/// context items.
pub open spec fn context_prompt_of(results: Seq<String>, question: Seq<char>) -> Seq<MessageView> {
    seq![text_msg(BarkRole::User, context_intro())] + Seq::new(
        results.len(),
        |i: int| text_msg(BarkRole::User, item_text(i as nat, results[i]@)),
    ) + seq![text_msg(BarkRole::User, "\nPrompt:\n"@), text_msg(BarkRole::User, question)]
}

/// Builds the prompt that asks `question` with `results` as context.
pub fn context_prompt(results: &Vec<String>, question: &String) -> (r: Vec<BarkMessage>)
    ensures
        msgs_view(r@) == context_prompt_of(results@, question@),
{
    let mut out: Vec<BarkMessage> = Vec::new();
    out.push(user("Use the following context to answer a new prompt. The context is composed of several items which might be referenced by the prompt. Context:\n"));
    let mut i: usize = 0;
    while i < results.len()
        invariant
            i <= results@.len(),
            out@.len() == i + 1,
            msgs_view(out@)[0] == text_msg(BarkRole::User, context_intro()),
            forall|j: int|
                0 <= j < i ==> msgs_view(out@)[j + 1] == text_msg(
                    BarkRole::User,
                    item_text(j as nat, #[trigger] results@[j]@),
                ),
        decreases results@.len() - i,
    {
        let mut text = chars_of("Item ");
        append_chars(&mut text, decimal_usize(i).as_slice());
        append_chars(&mut text, chars_of(":\n").as_slice());
        append_chars(&mut text, chars_of(results[i].as_str()).as_slice());
        let ghost before = out@;
        out.push(user(string_of(text.as_slice()).as_str()));
        assert(msgs_view(out@)[i + 1] == text_msg(BarkRole::User, item_text(i as nat, results@[i as int]@)));
        assert forall|j: int| 0 <= j < i implies msgs_view(out@)[j + 1] == text_msg(
            BarkRole::User,
            item_text(j as nat, #[trigger] results@[j]@),
        ) by {
            assert(out@[j + 1] == before[j + 1]);
        }
        i += 1;
    }
    out.push(user("\nPrompt:\n"));
    out.push(user(question.as_str()));
    assert(msgs_view(out@) =~= context_prompt_of(results@, question@));
    out
}

/// The prompt with the text of its last message, when that is a text message,
/// extended by a line: the extended text becomes a user message.
pub open spec fn extended_prompt_of(p: Seq<MessageView>, line: Seq<char>) -> Option<Seq<MessageView>> {
    if p.len() > 0 && p.last().content is Text {
        Some(p.drop_last().push(text_msg(BarkRole::User, p.last().content->Text_0 + "\n"@ + line)))
    } else {
        None
    }
}

/// Extends the last message of a prompt by a line; `None` when the prompt is
/// empty or ends with something other than text.
pub fn extend_last_message(prompt: &Vec<BarkMessage>, line: &String) -> (r: Option<Vec<BarkMessage>>)
    ensures
        r is Some == extended_prompt_of(msgs_view(prompt@), line@) is Some,
        r matches Some(v) ==> Some(msgs_view(v@)) == extended_prompt_of(msgs_view(prompt@), line@),
{
    if prompt.len() == 0 {
        return None;
    }
    let last = prompt.len() - 1;
    match prompt[last].text_content() {
        None => None,
        Some(text) => {
            let mut t = chars_of(text.as_str());
            append_chars(&mut t, chars_of("\n").as_slice());
            append_chars(&mut t, chars_of(line.as_str()).as_slice());
            let mut out: Vec<BarkMessage> = Vec::new();
            let mut i: usize = 0;
            while i < last
                invariant
                    last == prompt@.len() - 1,
                    i <= last,
                    out@ == prompt@.subrange(0, i as int),
                decreases last - i,
            {
                out.push(prompt[i].copy());
                i += 1;
            }
            let ghost before = out@;
            out.push(user(string_of(t.as_slice()).as_str()));
            assert(msgs_view(out@) =~= msgs_view(prompt@).drop_last().push(
                text_msg(BarkRole::User, msgs_view(prompt@).last().content->Text_0 + "\n"@ + line@),
            ));
            Some(out)
        },
    }
}

/// Chooses one of several answers and keeps it as the last output.
pub fn commit_choice(controller: &mut BarkController, results: &Vec<String>, index: usize) -> (r: BarkState)
    requires
        old(controller).wf(),
        index < results@.len(),
    ensures
        final(controller).wf(),
        r == BarkState::Complete,
        text_set(*old(controller), *final(controller), VarKey::LastOutput, results@[index as int]@),
{
    controller.set_text(VariableId::LastOutput, results[index].clone());
    BarkState::Complete
}

/// `path-index`: the path a numbered file is saved to or loaded from.
pub open spec fn indexed_path_of(path: Seq<char>, index: nat) -> Seq<char> {
    path + "-"@ + decimal(index)
}

/// Appends `-index` to a path.
pub fn indexed_path(path: &String, index: usize) -> (r: String)
    ensures
        r@ == indexed_path_of(path@, index as nat),
{
    let mut out = chars_of(path.as_str());
    append_chars(&mut out, chars_of("-").as_slice());
    append_chars(&mut out, decimal_usize(index).as_slice());
    string_of(out.as_slice())
}

/// A numbered file sequence: each successful use moves to the next number, and
/// the number is kept across resets.
pub struct FileCounter {
    pub path: TextValue,
    pub index: usize,
}

impl FileCounter {
    pub fn new(path: TextValue) -> (r: FileCounter)
        ensures
            r.path == path,
            r.index == 0,
    {
        FileCounter { path, index: 0 }
    }

    /// The path of the current file.
    pub fn current_path(&self, controller: &BarkController) -> (r: String)
        requires
            controller.wf(),
        ensures
            r@ == indexed_path_of(text_of(*controller, self.path), self.index as nat),
    {
        indexed_path(&controller.get_text(&self.path), self.index)
    }

    /// Moves on after a successful use; the count stops at the largest index.
    pub fn advance(&mut self)
        ensures
            final(self).path == old(self).path,
            old(self).index < usize::MAX ==> final(self).index == old(self).index + 1,
            old(self).index == usize::MAX ==> final(self).index == old(self).index,
    {
        if self.index < usize::MAX {
            self.index = self.index + 1;
        }
    }
}

/// What the interactive prompt does with the command typed after its answers
/// arrived.
#[derive(Clone, Copy, Debug, PartialEq, Eq, Structural)]
pub enum PickStep {
    /// The node ends with this state.
    Finish(BarkState),
    /// A new batch is asked for with the same prompt.
    Retry,
    /// A new batch is asked for with the last message extended by a line.
    ExtendPrompt,
    /// A new batch is asked for with the answers as context for a question.
    AskWithContext,
}

/// Shows several answers to a prompt and lets the user pick one, retry,
/// extend the prompt, or ask a new question with the answers as context.
/// Every new batch has `choices` answers, the context question's too.
pub struct InteractivePrompt {
    pub ai_model: Option<TextValue>,
    pub choices: usize,
    pub prompt: PromptValue,
}

impl InteractivePrompt {
    pub fn new(ai_model: Option<TextValue>, choices: usize, prompt: PromptValue) -> (r:
        InteractivePrompt)
        ensures
            r.ai_model == ai_model,
            r.choices == choices,
            r.prompt == prompt,
    {
        InteractivePrompt { ai_model, choices, prompt }
    }

    /// When a batch of answers arrives: none at all fails the node; otherwise
    /// the user is asked.
    pub fn on_answers(&self, results: &Vec<String>) -> (r: Option<BarkState>)
        ensures
            results@.len() == 0 ==> r == Some(BarkState::Failed),
            results@.len() > 0 ==> r is None,
    {
        if results.len() == 0 {
            Some(BarkState::Failed)
        } else {
            None
        }
    }

    /// Acts on the command typed: `q` and anything unreadable fail, an index
    /// below the number of answers keeps that answer as the last output and
    /// completes, and `r`, `e`, `x` ask for a new batch.
    pub fn on_pick(&self, controller: &mut BarkController, results: &Vec<String>, cmd: PickCommand) -> (r: PickStep)
        requires
            old(controller).wf(),
        ensures
            final(controller).wf(),
            match cmd {
                PickCommand::Select(i) => if i < results@.len() {
                    r == PickStep::Finish(BarkState::Complete) && text_set(
                        *old(controller),
                        *final(controller),
                        VarKey::LastOutput,
                        results@[i as int]@,
                    )
                } else {
                    r == PickStep::Finish(BarkState::Failed) && *final(controller) == *old(
                        controller)
                },
                PickCommand::Quit => r == PickStep::Finish(BarkState::Failed) && *final(controller)
                    == *old(controller),
                PickCommand::Invalid => r == PickStep::Finish(BarkState::Failed) && *final(
                    controller) == *old(controller),
                PickCommand::Retry => r == PickStep::Retry && *final(controller) == *old(
                    controller),
                PickCommand::ExtendPrompt => r == PickStep::ExtendPrompt && *final(controller)
                    == *old(controller),
                PickCommand::AskWithContext => r == PickStep::AskWithContext && *final(controller)
                    == *old(controller),
            },
    {
        match cmd {
            PickCommand::Select(i) => if i < results.len() {
                PickStep::Finish(commit_choice(controller, results, i))
            } else {
                PickStep::Finish(BarkState::Failed)
            },
            PickCommand::Quit => PickStep::Finish(BarkState::Failed),
            PickCommand::Invalid => PickStep::Finish(BarkState::Failed),
            PickCommand::Retry => PickStep::Retry,
            PickCommand::ExtendPrompt => PickStep::ExtendPrompt,
            PickCommand::AskWithContext => PickStep::AskWithContext,
        }
    }

    /// The prompt of the new batch that `step` asks for, with `line` the line
    /// typed after `e` or `x`; `None` when there is none to send (the step
    /// finishes the node, or the prompt has no text message to extend).
    pub fn next_prompt(
        &self,
        controller: &BarkController,
        step: PickStep,
        results: &Vec<String>,
        line: &String,
    ) -> (r: Option<Vec<BarkMessage>>)
        requires
            controller.wf(),
        ensures
            match step {
                PickStep::Finish(_) => r is None,
                PickStep::Retry => r matches Some(v) && msgs_view(v@) == prompt_of(
                    *controller,
                    self.prompt,
                    Seq::empty(),
                ),
                PickStep::ExtendPrompt => match extended_prompt_of(
                    prompt_of(*controller, self.prompt, Seq::empty()),
                    line@,
                ) {
                    Some(p) => r matches Some(v) && msgs_view(v@) == p,
                    None => r is None,
                },
                PickStep::AskWithContext => r matches Some(v) && msgs_view(v@) == context_prompt_of(
                    results@,
                    line@,
                ),
            },
    {
        match step {
            PickStep::Finish(_) => None,
            PickStep::Retry => Some(controller.get_prompt(&self.prompt)),
            PickStep::ExtendPrompt => extend_last_message(&controller.get_prompt(&self.prompt), line),
            PickStep::AskWithContext => Some(context_prompt(results, line)),
        }
    }

    /// The state a tick ends in: waiting on a new batch when one was sent,
    /// failed when there was none to send.
    pub fn respawned_state(next: &Option<Vec<BarkMessage>>) -> (r: BarkState)
        ensures
            next is Some ==> r == BarkState::Waiting,
            next is None ==> r == BarkState::Failed,
    {
        match next {
            Some(_) => BarkState::Waiting,
            None => BarkState::Failed,
        }
    }
}

/// What picking from several answers does with the command typed.
#[derive(Clone, Copy, Debug, PartialEq, Eq, Structural)]
pub enum PickBestStep {
    Finish(BarkState),
    /// The command was not understood: the user is asked again.
    AskAgain,
    /// A new batch is asked for with the answers as context for a question.
    AskWithContext,
}

/// Runs a prompt a number of times and lets the user pick an answer; a
/// command it does not understand is asked again.
pub struct PickBestPrompt(pub usize, pub PromptValue);

impl PickBestPrompt {
    /// Acts on the command typed: `q` fails, an index below the number of
    /// answers keeps that answer and completes, `x` asks a new question with
    /// the answers as context, anything else is asked again.
    pub fn on_pick(&self, controller: &mut BarkController, results: &Vec<String>, cmd: PickCommand) -> (r: PickBestStep)
        requires
            old(controller).wf(),
        ensures
            final(controller).wf(),
            match cmd {
                PickCommand::Select(i) => if i < results@.len() {
                    r == PickBestStep::Finish(BarkState::Complete) && text_set(
                        *old(controller),
                        *final(controller),
                        VarKey::LastOutput,
                        results@[i as int]@,
                    )
                } else {
                    r == PickBestStep::AskAgain && *final(controller) == *old(controller)
                },
                PickCommand::Quit => r == PickBestStep::Finish(BarkState::Failed) && *final(
                    controller) == *old(controller),
                PickCommand::AskWithContext => r == PickBestStep::AskWithContext && *final(
                    controller) == *old(controller),
                _ => r == PickBestStep::AskAgain && *final(controller) == *old(controller),
            },
    {
        match cmd {
            PickCommand::Select(i) => if i < results.len() {
                PickBestStep::Finish(commit_choice(controller, results, i))
            } else {
                PickBestStep::AskAgain
            },
            PickCommand::Quit => PickBestStep::Finish(BarkState::Failed),
            PickCommand::AskWithContext => PickBestStep::AskWithContext,
            _ => PickBestStep::AskAgain,
        }
    }
}

} // verus!
