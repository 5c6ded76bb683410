use bark_bot::agent::BarkState;
use bark_bot::controller::BarkController;
use bark_bot::describe::InputOutputPair;
use bark_bot::interactive::{context_prompt, extend_last_message, indexed_path, interpret_pick, FileCounter, InteractivePrompt, PickBestPrompt, PickBestStep, PickCommand, PickStep};
use bark_bot::messages::{user, BarkContent};
use bark_bot::nodes::{AddSystemFromVariable, AddUserMessage, ExtendPrompt, GetEmbedding, MatchResponse, ResetMessages, SetTemplate, SetText, StartPrompt, Unescape};
use bark_bot::values::{MessageValue, PromptValue, TextMatcher, TextValue, VariableId};
use bark_bot::wrappers::{ChildAction, Interrogate, Knn, RepeatAction, RepeatUntil, Repl};

fn var(s: &str) -> VariableId {
    VariableId::User(s.to_string())
}

#[test]
fn scenario_interrogate_lines() {
    let mut c = BarkController::new();
    let mut w = Interrogate::new(TextValue::Simple("a\nb\n".to_string()));
    let child = SetText(VariableId::Accumulator, TextValue::Variable(VariableId::LoopValue));
    let mut action = w.start(&mut c);
    let mut ticks = 0;
    loop {
        match action {
            ChildAction::Return(s) => {
                assert_eq!(s, BarkState::Complete);
                break;
            }
            _ => {
                ticks += 1;
                let s = child.resume_with(&mut c);
                action = w.on_child(&mut c, s);
            }
        }
    }
    assert_eq!(ticks, 2);
    assert_eq!(c.get_text(&TextValue::Variable(VariableId::Accumulator)), "b");
}

#[test]
fn interrogate_resumes_a_waiting_child() {
    let mut c = BarkController::new();
    let mut w = Interrogate::new(TextValue::Simple("only".to_string()));
    assert_eq!(w.start(&mut c), ChildAction::ResetAndTick);
    assert_eq!(w.on_child(&mut c, BarkState::Waiting), ChildAction::Return(BarkState::Waiting));
    assert_eq!(w.start(&mut c), ChildAction::Tick);
    assert_eq!(w.on_child(&mut c, BarkState::Complete), ChildAction::Return(BarkState::Complete));
}

#[test]
fn repeat_until_flow() {
    let mut r = RepeatUntil::new();
    assert_eq!(r.start(), RepeatAction::TickCondition);
    assert_eq!(r.on_condition(BarkState::Failed), RepeatAction::TickAction);
    assert_eq!(r.on_action(BarkState::Complete), RepeatAction::TickCondition);
    assert_eq!(r.on_condition(BarkState::Complete), RepeatAction::Return(BarkState::Complete));
    assert_eq!(r.on_action(BarkState::Waiting), RepeatAction::Return(BarkState::Waiting));
}

#[test]
fn repl_picks_case_insensitively() {
    let c = BarkController::new();
    let mut r = Repl::new(None, vec![TextValue::Simple("Go".to_string()), TextValue::Simple("stop".to_string())]);
    assert_eq!(r.pick(&c, &"STOP".to_string()), Some(1));
    assert_eq!(r.pick(&c, &"".to_string()), None);
    assert_eq!(r.pick(&c, &"other".to_string()), None);
    assert_eq!(r.on_child(BarkState::Failed), Some(BarkState::Failed));
}

#[test]
fn knn_iterates_results() {
    let mut c = BarkController::new();
    let mut k = Knn::new(TextValue::Simple("apex".to_string()), TextValue::Simple("db".to_string()), 1);
    assert_eq!(k.take_results(vec![]), Some(BarkState::Failed));
    assert_eq!(k.take_results(vec!["apple".to_string()]), None);
    assert_eq!(k.advance(&mut c), ChildAction::Tick);
    assert_eq!(c.get_text(&TextValue::Variable(VariableId::LoopValue)), "apple");
    assert_eq!(k.on_child(BarkState::Complete), None);
    assert_eq!(k.advance(&mut c), ChildAction::Return(BarkState::Complete));
}

#[test]
fn variable_nodes() {
    let mut c = BarkController::new();
    assert_eq!(SetTemplate(var("t"), vec![MessageValue::User("x".to_string())]).resume_with(&mut c), BarkState::Complete);
    assert_eq!(c.get_prompt(&PromptValue::Template(var("t"))).len(), 1);
    StartPrompt(var("p"), PromptValue::Quick("a".to_string())).resume_with(&mut c);
    ExtendPrompt(var("p"), PromptValue::Quick("b".to_string())).resume_with(&mut c);
    AddUserMessage(var("p"), "c".to_string()).resume_with(&mut c);
    c.text_variables.insert(var("s"), "sys".to_string());
    AddSystemFromVariable(var("p"), var("s")).resume_with(&mut c);
    assert_eq!(c.get_prompt(&PromptValue::Variable(var("p"))).len(), 4);
    AddUserMessage(var("missing"), "c".to_string()).resume_with(&mut c);
    assert!(c.prompt(&var("missing")).is_none());
    ResetMessages(var("p")).resume_with(&mut c);
    assert_eq!(c.get_prompt(&PromptValue::Variable(var("p"))).len(), 0);
}

#[test]
fn unescape_decodes_json_strings() {
    let mut c = BarkController::new();
    c.text_variables.insert(var("j"), "\"a\\nb\"".to_string());
    assert_eq!(Unescape(var("j")).resume_with(&mut c), BarkState::Complete);
    assert_eq!(c.get_text(&TextValue::Variable(var("j"))), "a\nb");
    c.text_variables.insert(var("bad"), "not json".to_string());
    assert_eq!(Unescape(var("bad")).resume_with(&mut c), BarkState::Failed);
    assert_eq!(Unescape(var("missing")).resume_with(&mut c), BarkState::Failed);
}

#[test]
fn match_response_checks_reply() {
    let mut c = BarkController::new();
    let mut m = MatchResponse::new(None, TextMatcher::Contains(TextValue::Simple("yes".to_string())), PromptValue::Quick("q".to_string()));
    let mut gas = Some(10);
    assert!(m.begin(&c).is_some());
    assert_eq!(m.finish(&mut c, Ok("oh yes".to_string()), &mut gas, Some(5)), BarkState::Complete);
    assert!(m.begin(&c).is_some());
    assert_eq!(m.finish(&mut c, Ok("no".to_string()), &mut gas, Some(1)), BarkState::Failed);
    assert!(m.begin(&c).is_some());
    assert_eq!(m.finish(&mut c, Ok("yes".to_string()), &mut gas, Some(0)), BarkState::WaitingForGas);
    assert_eq!(c.get_text(&TextValue::Variable(VariableId::LastOutput)), "no");
}

#[test]
fn embedding_node_stores_vector() {
    let mut c = BarkController::new();
    let mut g = GetEmbedding::new(TextValue::Simple("t".to_string()), var("e"));
    assert_eq!(g.begin(&c), "t");
    assert_eq!(g.finish(&mut c, Ok(vec![1u32, 2u32])), BarkState::Complete);
    assert_eq!(c.embedding_variables.get(&var("e")).unwrap(), &vec![1u32, 2u32]);
}

#[test]
fn interactive_picks() {
    assert_eq!(interpret_pick(&"Q".to_string(), 2), PickCommand::Quit);
    assert_eq!(interpret_pick(&"r".to_string(), 2), PickCommand::Retry);
    assert_eq!(interpret_pick(&"E".to_string(), 2), PickCommand::ExtendPrompt);
    assert_eq!(interpret_pick(&"x".to_string(), 2), PickCommand::AskWithContext);
    assert_eq!(interpret_pick(&"1".to_string(), 2), PickCommand::Select(1));
    assert_eq!(interpret_pick(&"+0".to_string(), 2), PickCommand::Select(0));
    assert_eq!(interpret_pick(&"2".to_string(), 2), PickCommand::Invalid);
    assert_eq!(interpret_pick(&"99999999999999999999999".to_string(), 2), PickCommand::Invalid);
    assert_eq!(interpret_pick(&"1a".to_string(), 2), PickCommand::Invalid);
}

#[test]
fn context_and_extension_prompts() {
    let p = context_prompt(&vec!["one".to_string(), "two".to_string()], &"why".to_string());
    assert_eq!(p.len(), 5);
    assert!(matches!(p[2].content, BarkContent::Text(ref t) if t == "Item 1:\ntwo"));
    assert!(matches!(p[4].content, BarkContent::Text(ref t) if t == "why"));
    let e = extend_last_message(&vec![user("a"), user("b")], &"c".to_string()).unwrap();
    assert!(matches!(e[1].content, BarkContent::Text(ref t) if t == "b\nc"));
    assert!(extend_last_message(&vec![], &"c".to_string()).is_none());
}

#[test]
fn indexed_files() {
    assert_eq!(indexed_path(&"out.txt".to_string(), 12), "out.txt-12");
    let c = BarkController::new();
    let mut f = FileCounter::new(TextValue::Simple("f".to_string()));
    assert_eq!(f.current_path(&c), "f-0");
    f.advance();
    assert_eq!(f.current_path(&c), "f-1");
}

#[test]
fn describe_pairs() {
    let pair = InputOutputPair { input: vec![vec![1, 20], vec![255]], output: vec![vec![0]] };
    assert_eq!(pair.describe_input(), "The input looks like this:\n```\n1, 20\n255\n```\n\n");
    assert_eq!(pair.describe(), format!("{}{}", pair.describe_input(), "The output looks like this:\n```\n0\n```\n\n"));
}

#[test]
fn interactive_prompt_steps() {
    let mut c = BarkController::new();
    let node = InteractivePrompt::new(None, 2, PromptValue::Chat(vec![MessageValue::User("ask".to_string())]));
    let results = vec!["one".to_string(), "two".to_string()];
    assert_eq!(node.on_answers(&vec![]), Some(BarkState::Failed));
    assert_eq!(node.on_answers(&results), None);
    assert_eq!(node.on_pick(&mut c, &results, interpret_pick(&"Q".to_string(), 2)), PickStep::Finish(BarkState::Failed));
    assert_eq!(node.on_pick(&mut c, &results, PickCommand::Invalid), PickStep::Finish(BarkState::Failed));
    assert_eq!(node.on_pick(&mut c, &results, PickCommand::Retry), PickStep::Retry);
    let next = node.next_prompt(&c, PickStep::Retry, &results, &String::new());
    assert_eq!(next.as_ref().map(|p| p.len()), Some(1));
    assert_eq!(InteractivePrompt::respawned_state(&next), BarkState::Waiting);
    let ext = node.next_prompt(&c, PickStep::ExtendPrompt, &results, &"more".to_string()).unwrap();
    assert!(matches!(ext[0].content, BarkContent::Text(ref t) if t == "ask\nmore"));
    let ctx = node.next_prompt(&c, PickStep::AskWithContext, &results, &"why".to_string()).unwrap();
    assert_eq!(ctx.len(), 5);
    assert_eq!(InteractivePrompt::respawned_state(&None), BarkState::Failed);
    assert_eq!(node.on_pick(&mut c, &results, PickCommand::Select(1)), PickStep::Finish(BarkState::Complete));
    assert_eq!(c.get_text(&TextValue::Variable(VariableId::LastOutput)), "two");
}

#[test]
fn pick_best_asks_again_on_unknown_commands() {
    let mut c = BarkController::new();
    let node = PickBestPrompt(2, PromptValue::Quick("q".to_string()));
    let results = vec!["a".to_string()];
    assert_eq!(node.on_pick(&mut c, &results, PickCommand::Select(3)), PickBestStep::AskAgain);
    assert_eq!(node.on_pick(&mut c, &results, PickCommand::Retry), PickBestStep::AskAgain);
    assert_eq!(node.on_pick(&mut c, &results, PickCommand::Quit), PickBestStep::Finish(BarkState::Failed));
    assert_eq!(node.on_pick(&mut c, &results, PickCommand::Select(0)), PickBestStep::Finish(BarkState::Complete));
    assert_eq!(c.get_text(&TextValue::Variable(VariableId::LastOutput)), "a");
}
