use vstd::prelude::*;

use crate::agent::BarkState;
use crate::controller::{text_of, text_set, BarkController};
use crate::text::{
    chars_of, eq_ignore_case, eq_ignore_case_exec, find_char, find_char_exec,
    lemma_find_char_bounds, slice_chars, string_of,
};
use crate::values::{TextValue, VarKey, VariableId};

verus! {

/// What a wrapper asks of the one child it runs.
#[derive(Clone, Copy, Debug, PartialEq, Eq, Structural)]
pub enum ChildAction {
    /// Tick the child as it stands.
    Tick,
    /// Reset the child, then tick it.
    ResetAndTick,
    /// Stop the tick with this state.
    Return(BarkState),
}

/// Where the line iterator stands.
#[derive(Clone, Copy, Debug, PartialEq, Eq, Structural)]
pub enum InterrogatePhase {
    /// The text has not been read yet.
    Uninitialized,
    /// The child is still working on the current line.
    Waited,
    /// The child is done with the current line.
    NotWaited,
}

/// The first line of `rem` and what follows its line feed.
pub open spec fn next_line(rem: Seq<char>) -> (Seq<char>, Seq<char>) {
    match find_char(rem, 0, '\n') {
        Some(i) => (rem.subrange(0, i), rem.subrange(i + 1, rem.len() as int)),
        None => (rem, Seq::empty()),
    }
}

/// Runs its child once for each line of a text, with the line in the loop
/// variable.
pub struct Interrogate {
    pub text_value: TextValue,
    pub phase: InterrogatePhase,
    pub current: String,
    pub remaining: Vec<char>,
}

impl Interrogate {
    pub fn new(text_value: TextValue) -> (r: Interrogate)
        ensures
            r.text_value == text_value,
            r.phase == InterrogatePhase::Uninitialized,
    {
        Interrogate {
            text_value,
            phase: InterrogatePhase::Uninitialized,
            current: String::new(),
            remaining: Vec::new(),
        }
    }

    /// Goes on after the child finished a line, or resumes a waiting child:
    /// a waiting child is ticked again; otherwise the next line is put in the
    /// loop variable and the child is reset and ticked; with no line left the
    /// wrapper completes.
    pub fn advance(&mut self, controller: &mut BarkController) -> (r: ChildAction)
        requires
            old(controller).wf(),
            old(self).phase != InterrogatePhase::Uninitialized,
        ensures
            final(controller).wf(),
            final(self).text_value == old(self).text_value,
            final(self).phase == old(self).phase,
            old(self).phase == InterrogatePhase::Waited ==> r == ChildAction::Tick
                && *final(self) == *old(self) && *final(controller) == *old(controller),
            old(self).phase == InterrogatePhase::NotWaited && old(self).remaining@.len() == 0 ==> r
                == ChildAction::Return(BarkState::Complete) && *final(self) == *old(self)
                && *final(controller) == *old(controller),
            old(self).phase == InterrogatePhase::NotWaited && old(self).remaining@.len() > 0 ==> {
                &&& r == ChildAction::ResetAndTick
                &&& final(self).current@ == next_line(old(self).remaining@).0
                &&& final(self).remaining@ == next_line(old(self).remaining@).1
                &&& text_set(
                    *old(controller),
                    *final(controller),
                    VarKey::LoopValue,
                    next_line(old(self).remaining@).0,
                )
            },
    {
        if self.phase == InterrogatePhase::Waited {
            return ChildAction::Tick;
        }
        if self.remaining.len() == 0 {
            return ChildAction::Return(BarkState::Complete);
        }
        proof {
            lemma_find_char_bounds(self.remaining@, 0, '\n');
        }
        let n = self.remaining.len();
        let (line, rest) = match find_char_exec(&self.remaining, 0, '\n') {
            Some(i) => (slice_chars(&self.remaining, 0, i), slice_chars(&self.remaining, i + 1, n)),
            None => (slice_chars(&self.remaining, 0, n), Vec::new()),
        };
        assert(self.remaining@.subrange(0, n as int) == self.remaining@);
        self.current = string_of(line.as_slice());
        self.remaining = rest;
        controller.set_text(VariableId::LoopValue, string_of(line.as_slice()));
        ChildAction::ResetAndTick
    }

    /// The start of a tick: the text is read on the first one, then the wrapper
    /// goes on as `advance` does.
    pub fn start(&mut self, controller: &mut BarkController) -> (r: ChildAction)
        requires
            old(controller).wf(),
        ensures
            final(controller).wf(),
            final(self).text_value == old(self).text_value,
            final(self).phase != InterrogatePhase::Uninitialized,
            old(self).phase == InterrogatePhase::Uninitialized ==> ({
                let t = text_of(*old(controller), old(self).text_value);
                &&& t.len() == 0 ==> r == ChildAction::Return(BarkState::Complete)
                    && *final(controller) == *old(controller)
                &&& t.len() > 0 ==> {
                    &&& r == ChildAction::ResetAndTick
                    &&& final(self).current@ == next_line(t).0
                    &&& final(self).remaining@ == next_line(t).1
                    &&& text_set(*old(controller), *final(controller), VarKey::LoopValue, next_line(t).0)
                }
            }),
            old(self).phase == InterrogatePhase::Waited ==> r == ChildAction::Tick && *final(self)
                == *old(self) && *final(controller) == *old(controller),
            old(self).phase == InterrogatePhase::NotWaited && old(self).remaining@.len() == 0 ==> r
                == ChildAction::Return(BarkState::Complete) && *final(controller) == *old(controller),
            old(self).phase == InterrogatePhase::NotWaited && old(self).remaining@.len() > 0 ==> {
                &&& r == ChildAction::ResetAndTick
                &&& final(self).current@ == next_line(old(self).remaining@).0
                &&& final(self).remaining@ == next_line(old(self).remaining@).1
                &&& text_set(
                    *old(controller),
                    *final(controller),
                    VarKey::LoopValue,
                    next_line(old(self).remaining@).0,
                )
            },
    {
        if self.phase == InterrogatePhase::Uninitialized {
            let text = controller.get_text(&self.text_value);
            self.remaining = chars_of(text.as_str());
            self.current = String::new();
            self.phase = InterrogatePhase::NotWaited;
        }
        self.advance(controller)
    }

    /// After the child's tick: a completed line moves on to the next one; any
    /// other state stops the tick with that state.
    pub fn on_child(&mut self, controller: &mut BarkController, child: BarkState) -> (r:
        ChildAction)
        requires
            old(controller).wf(),
            old(self).phase != InterrogatePhase::Uninitialized,
        ensures
            final(controller).wf(),
            final(self).text_value == old(self).text_value,
            child == BarkState::Waiting ==> r == ChildAction::Return(BarkState::Waiting)
                && final(self).phase == InterrogatePhase::Waited && final(self).remaining
                == old(self).remaining && *final(controller) == *old(controller),
            child == BarkState::Failed ==> r == ChildAction::Return(BarkState::Failed)
                && *final(self) == *old(self) && *final(controller) == *old(controller),
            child == BarkState::WaitingForGas ==> r == ChildAction::Return(
                BarkState::WaitingForGas,
            ) && *final(self) == *old(self) && *final(controller) == *old(controller),
            child == BarkState::Complete && old(self).remaining@.len() == 0 ==> r
                == ChildAction::Return(BarkState::Complete) && final(self).phase
                == InterrogatePhase::NotWaited && *final(controller) == *old(controller),
            child == BarkState::Complete && old(self).remaining@.len() > 0 ==> {
                &&& r == ChildAction::ResetAndTick
                &&& final(self).phase == InterrogatePhase::NotWaited
                &&& final(self).current@ == next_line(old(self).remaining@).0
                &&& final(self).remaining@ == next_line(old(self).remaining@).1
                &&& text_set(
                    *old(controller),
                    *final(controller),
                    VarKey::LoopValue,
                    next_line(old(self).remaining@).0,
                )
            },
    {
        match child {
            BarkState::Complete => {
                self.phase = InterrogatePhase::NotWaited;
                self.advance(controller)
            },
            BarkState::Waiting => {
                self.phase = InterrogatePhase::Waited;
                ChildAction::Return(BarkState::Waiting)
            },
            other => ChildAction::Return(other),
        }
    }

    /// Back to the state of a fresh wrapper.
    pub fn reset(&mut self)
        ensures
            final(self).text_value == old(self).text_value,
            final(self).phase == InterrogatePhase::Uninitialized,
    {
        self.phase = InterrogatePhase::Uninitialized;
    }
}

/// Which child of a repeat-until loop to tick next, or the state to stop with.
#[derive(Clone, Copy, Debug, PartialEq, Eq, Structural)]
pub enum RepeatAction {
    TickCondition,
    TickAction,
    Return(BarkState),
}

/// Ticks its condition; while the condition fails, runs its action and tries
/// again.
pub struct RepeatUntil {
    pub in_condition: bool,
}

impl RepeatUntil {
    pub fn new() -> (r: RepeatUntil)
        ensures
            r.in_condition,
    {
        RepeatUntil { in_condition: true }
    }

    /// The child to tick at the start of a tick.
    pub fn start(&self) -> (r: RepeatAction)
        ensures
            r == if self.in_condition {
                RepeatAction::TickCondition
            } else {
                RepeatAction::TickAction
            },
    {
        if self.in_condition {
            RepeatAction::TickCondition
        } else {
            RepeatAction::TickAction
        }
    }

    /// After the condition's tick: it completing ends the loop; it failing
    /// runs the action; any other state stops the tick with that state.
    pub fn on_condition(&mut self, state: BarkState) -> (r: RepeatAction)
        ensures
            state == BarkState::Complete ==> r == RepeatAction::Return(BarkState::Complete)
                && final(self).in_condition == old(self).in_condition,
            state == BarkState::Failed ==> r == RepeatAction::TickAction && !final(self).in_condition,
            state == BarkState::Waiting || state == BarkState::WaitingForGas ==> r
                == RepeatAction::Return(state) && final(self).in_condition == old(self).in_condition,
    {
        match state {
            BarkState::Complete => RepeatAction::Return(BarkState::Complete),
            BarkState::Failed => {
                self.in_condition = false;
                RepeatAction::TickAction
            },
            other => RepeatAction::Return(other),
        }
    }

    /// After the action's tick: it completing goes back to the condition; any
    /// other state stops the tick with that state.
    pub fn on_action(&mut self, state: BarkState) -> (r: RepeatAction)
        ensures
            state == BarkState::Complete ==> r == RepeatAction::TickCondition && final(self).in_condition,
            state != BarkState::Complete ==> r == RepeatAction::Return(state) && final(self).in_condition == old(self).in_condition,
    {
        match state {
            BarkState::Complete => {
                self.in_condition = true;
                RepeatAction::TickCondition
            },
            other => RepeatAction::Return(other),
        }
    }

    pub fn reset(&mut self)
        ensures
            final(self).in_condition,
    {
        self.in_condition = true;
    }
}

/// The position of the first alternative whose resolution equals `input` up
/// to ASCII case, from `i` on.
pub open spec fn first_alternative(c: BarkController, alts: Seq<TextValue>, input: Seq<char>, i: int) -> Option<int>
    decreases alts.len() - i,
{
    if i < 0 || i >= alts.len() {
        None
    } else if eq_ignore_case(text_of(c, alts[i]), input) {
        Some(i)
    } else {
        first_alternative(c, alts, input, i + 1)
    }
}

/// A read-eval-print loop: each line read picks the child aligned with the
/// first alternative it matches.
pub struct Repl {
    pub prompt: Option<TextValue>,
    pub text_values: Vec<TextValue>,
    pub best_index: Option<usize>,
}

impl Repl {
    pub fn new(prompt: Option<TextValue>, text_values: Vec<TextValue>) -> (r: Repl)
        ensures
            r.prompt == prompt,
            r.text_values == text_values,
            r.best_index is None,
    {
        Repl { prompt, text_values, best_index: None }
    }

    /// The text to print before reading a line, if any.
    pub fn prompt_text(&self, controller: &BarkController) -> (r: Option<String>)
        requires
            controller.wf(),
        ensures
            r is Some == self.prompt is Some,
            r matches Some(t) ==> t@ == text_of(*controller, self.prompt->0),
    {
        match &self.prompt {
            Some(p) => Some(controller.get_text(p)),
            None => None,
        }
    }

    /// Picks the child for a line read: an empty line, or one that matches no
    /// alternative, picks none and the loop fails.
    pub fn pick(&mut self, controller: &BarkController, input: &String) -> (r: Option<usize>)
        requires
            controller.wf(),
        ensures
            input@.len() == 0 ==> r is None,
            input@.len() > 0 ==> opt_int(r) == first_alternative(
                *controller,
                old(self).text_values@,
                input@,
                0,
            ),
            final(self).best_index == r,
            final(self).prompt == old(self).prompt,
            final(self).text_values == old(self).text_values,
    {
        let line = chars_of(input.as_str());
        if line.len() == 0 {
            self.best_index = None;
            return None;
        }
        let mut i: usize = 0;
        while i < self.text_values.len()
            invariant
                controller.wf(),
                i <= self.text_values@.len(),
                line@ == input@,
                line@.len() > 0,
                self.text_values == old(self).text_values,
                self.prompt == old(self).prompt,
                first_alternative(*controller, self.text_values@, input@, 0) == first_alternative(
                    *controller,
                    self.text_values@,
                    input@,
                    i as int,
                ),
            decreases self.text_values@.len() - i,
        {
            let alt = chars_of(controller.get_text(&self.text_values[i]).as_str());
            if eq_ignore_case_exec(&alt, &line) {
                self.best_index = Some(i);
                return Some(i);
            }
            i += 1;
        }
        self.best_index = None;
        None
    }

    /// After the chosen child's tick: a completed child sends the loop back to
    /// reading; any other state stops the tick with that state.
    pub fn on_child(&mut self, state: BarkState) -> (r: Option<BarkState>)
        ensures
            state == BarkState::Complete ==> r is None && final(self).best_index is None,
            state != BarkState::Complete ==> r == Some(state) && final(self).best_index == old(self).best_index,
            final(self).prompt == old(self).prompt,
            final(self).text_values == old(self).text_values,
    {
        match state {
            BarkState::Complete => {
                self.best_index = None;
                None
            },
            other => Some(other),
        }
    }

    pub fn reset(&mut self)
        ensures
            final(self).best_index is None,
            final(self).prompt == old(self).prompt,
            final(self).text_values == old(self).text_values,
    {
        self.best_index = None;
    }
}

/// An optional index as an integer.
pub open spec fn opt_int(r: Option<usize>) -> Option<int> {
    match r {
        Some(i) => Some(i as int),
        None => None,
    }
}

/// Runs its child once for each of the texts nearest to a query text in a
/// vector database, with the text in the loop variable.
pub struct Knn {
    pub compared: TextValue,
    pub path: TextValue,
    pub k: usize,
    pub results: Vec<String>,
    pub current: usize,
}

impl Knn {
    pub fn new(compared: TextValue, path: TextValue, k: usize) -> (r: Knn)
        ensures
            r.compared == compared,
            r.path == path,
            r.k == k,
            r.results@.len() == 0,
            r.current == 0,
    {
        Knn { compared, path, k, results: Vec::new(), current: 0 }
    }

    /// The text whose embedding the query starts from.
    pub fn query_text(&self, controller: &BarkController) -> (r: String)
        requires
            controller.wf(),
        ensures
            r@ == text_of(*controller, self.compared),
    {
        controller.get_text(&self.compared)
    }

    /// Takes in the texts the query found, nearest first; none found fails.
    pub fn take_results(&mut self, results: Vec<String>) -> (r: Option<BarkState>)
        ensures
            results@.len() == 0 ==> r == Some(BarkState::Failed),
            results@.len() > 0 ==> r is None && final(self).results@ == results@
                && final(self).current == 0,
            final(self).compared == old(self).compared,
            final(self).path == old(self).path,
            final(self).k == old(self).k,
    {
        if results.len() == 0 {
            return Some(BarkState::Failed);
        }
        self.results = results;
        self.current = 0;
        None
    }

    /// Puts the current text in the loop variable and asks for the child to be
    /// ticked; with no text left the wrapper completes.
    pub fn advance(&mut self, controller: &mut BarkController) -> (r: ChildAction)
        requires
            old(controller).wf(),
        ensures
            final(controller).wf(),
            *final(self) == *old(self),
            old(self).current >= old(self).results@.len() ==> r == ChildAction::Return(
                BarkState::Complete,
            ) && *final(controller) == *old(controller),
            old(self).current < old(self).results@.len() ==> r == ChildAction::Tick && text_set(
                *old(controller),
                *final(controller),
                VarKey::LoopValue,
                old(self).results@[old(self).current as int]@,
            ),
    {
        if self.current >= self.results.len() {
            return ChildAction::Return(BarkState::Complete);
        }
        controller.set_text(VariableId::LoopValue, self.results[self.current].clone());
        ChildAction::Tick
    }

    /// After the child's tick: a completed text moves on to the next one, and
    /// the child is to be reset; any other state stops the tick with it.
    pub fn on_child(&mut self, state: BarkState) -> (r: Option<BarkState>)
        requires
            old(self).current < old(self).results@.len(),
        ensures
            state == BarkState::Complete ==> r is None && final(self).current == old(self).current
                + 1,
            state != BarkState::Complete ==> r == Some(state) && final(self).current == old(
                self).current,
            final(self).results == old(self).results,
            final(self).compared == old(self).compared,
            final(self).path == old(self).path,
            final(self).k == old(self).k,
    {
        match state {
            BarkState::Complete => {
                let n = self.results.len();
                assert(self.current < n);
                self.current = self.current + 1;
                None
            },
            other => Some(other),
        }
    }

    /// Back to the state of a fresh wrapper.
    pub fn reset(&mut self)
        ensures
            final(self).results@.len() == 0,
            final(self).current == 0,
            final(self).compared == old(self).compared,
            final(self).path == old(self).path,
            final(self).k == old(self).k,
    {
        self.current = 0;
        self.results = Vec::new();
    }
}

/// Which child of a composite to tick next, or the state to stop with.
#[derive(Clone, Copy, Debug, PartialEq, Eq, Structural)]
pub enum CompositeAction {
    TickChild(usize),
    Return(BarkState),
}

/// How a composite reads its children's results: a sequence goes on while
/// children complete, a selector while they fail.
#[derive(Clone, Copy, Debug, PartialEq, Eq, Structural)]
pub enum CompositeKind {
    Sequence,
    Selector,
}

/// Ticks its children in order: a sequence completes when every child has
/// completed and fails with the first failure; a selector completes with the
/// first completion and fails when every child has failed.
pub struct Composite {
    pub kind: CompositeKind,
    pub count: usize,
    pub current: usize,
}

impl Composite {
    pub fn new(kind: CompositeKind, count: usize) -> (r: Composite)
        ensures
            r.kind == kind,
            r.count == count,
            r.current == 0,
    {
        Composite { kind, count, current: 0 }
    }

    /// The state when every child has been through.
    pub open spec fn exhausted_state(kind: CompositeKind) -> BarkState {
        match kind {
            CompositeKind::Sequence => BarkState::Complete,
            CompositeKind::Selector => BarkState::Failed,
        }
    }

    /// The child to tick, or the end state when none is left.
    pub fn start(&self) -> (r: CompositeAction)
        ensures
            self.current < self.count ==> r == CompositeAction::TickChild(self.current),
            self.current >= self.count ==> r == CompositeAction::Return(
                Self::exhausted_state(self.kind),
            ),
    {
        if self.current < self.count {
            CompositeAction::TickChild(self.current)
        } else {
            match self.kind {
                CompositeKind::Sequence => CompositeAction::Return(BarkState::Complete),
                CompositeKind::Selector => CompositeAction::Return(BarkState::Failed),
            }
        }
    }

    /// After the current child's tick: the composite moves to the next child
    /// on a completion (sequence) or a failure (selector), and otherwise stops
    /// with the child's state.
    pub fn on_child(&mut self, state: BarkState) -> (r: CompositeAction)
        requires
            old(self).current < old(self).count,
        ensures
            final(self).kind == old(self).kind,
            final(self).count == old(self).count,
            ({
                let moves_on = match old(self).kind {
                    CompositeKind::Sequence => state == BarkState::Complete,
                    CompositeKind::Selector => state == BarkState::Failed,
                };
                &&& moves_on ==> final(self).current == old(self).current + 1 && (if final(
                    self).current < final(self).count {
                    r == CompositeAction::TickChild(final(self).current)
                } else {
                    r == CompositeAction::Return(Self::exhausted_state(old(self).kind))
                })
                &&& !moves_on ==> final(self).current == old(self).current && r
                    == CompositeAction::Return(state)
            }),
    {
        let moves_on = match self.kind {
            CompositeKind::Sequence => state == BarkState::Complete,
            CompositeKind::Selector => state == BarkState::Failed,
        };
        if !moves_on {
            return CompositeAction::Return(state);
        }
        self.current = self.current + 1;
        self.start()
    }

    /// Back to the first child.
    pub fn reset(&mut self)
        ensures
            final(self).kind == old(self).kind,
            final(self).count == old(self).count,
            final(self).current == 0,
    {
        self.current = 0;
    }
}

} // verus!
