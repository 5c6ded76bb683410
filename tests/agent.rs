use bark_bot::agent::{agent_on_response, agent_on_tool_result, charge_gas, check_gas, prompt_reply, AgentStep, BarkState, ModelError};
use bark_bot::controller::BarkController;
use bark_bot::messages::{user, BarkContent, BarkResponse, BarkRole, BarkToolCall, BarkToolCallResponse, Choice};
use bark_bot::nodes::{reply_mentions, Prompt, RejectInResponse, RequireInResponse};
use bark_bot::values::{PromptValue, TextValue, VariableId};

fn chat(text: &str, usage: Option<u32>) -> BarkResponse {
    BarkResponse::Chat { choices: vec![Choice { index: 0, value: text.to_string() }], usage }
}

#[test]
fn gas_is_charged_and_checked() {
    let mut gas = Some(50);
    let r = prompt_reply(chat("a", Some(30)), &mut gas);
    assert!(matches!(r, Ok(ref t) if t == "a"));
    assert_eq!(gas, Some(20));
    assert!(!check_gas(&gas));
    let _ = prompt_reply(chat("b", Some(30)), &mut gas);
    assert_eq!(gas, Some(-10));
    assert!(check_gas(&gas));
}

#[test]
fn gas_default_usage_and_unlimited() {
    let mut gas = Some(5000);
    charge_gas(&mut gas, None);
    assert_eq!(gas, Some(4000));
    let mut none: Option<i32> = None;
    charge_gas(&mut none, Some(10));
    assert_eq!(none, None);
    let mut low = Some(i32::MIN + 1);
    charge_gas(&mut low, Some(5));
    assert_eq!(low, Some(i32::MIN));
}

#[test]
fn prompt_reply_errors() {
    let mut gas = None;
    let empty = BarkResponse::Chat { choices: vec![], usage: None };
    assert!(matches!(prompt_reply(empty, &mut gas), Err(ModelError::EmptyResponse)));
    assert!(matches!(prompt_reply(chat("", None), &mut gas), Err(ModelError::EmptyMessage)));
    let two = BarkResponse::Chat {
        choices: vec![
            Choice { index: 0, value: "a".to_string() },
            Choice { index: 1, value: "b".to_string() },
        ],
        usage: None,
    };
    assert!(matches!(prompt_reply(two, &mut gas), Err(ModelError::MultipleChoices)));
    let calls = BarkResponse::ToolCalls { calls: vec![], usage: None };
    assert!(matches!(prompt_reply(calls, &mut gas), Err(ModelError::UnexpectedToolCalls)));
}

#[test]
fn prompt_reply_drops_assistant_header() {
    let mut gas = None;
    let r = prompt_reply(chat("<|start_header_id|>assistant<|end_header_id|>\nhi", None), &mut gas);
    assert!(matches!(r, Ok(ref t) if t == "hi"));
}

#[test]
fn scenario_agent_with_one_tool_call() {
    let mut prompt = vec![user("echo hi")];
    let mut gas = None;
    let call = BarkToolCall {
        id: "c1".to_string(),
        function_name: "svc__echo".to_string(),
        arguments: Some("{\"x\":\"hi\"}".to_string()),
    };
    let step = agent_on_response(
        &mut prompt,
        BarkResponse::ToolCalls { calls: vec![call.copy()], usage: Some(1) },
        true,
        &mut gas,
    );
    let calls = match step {
        AgentStep::RunTools(calls) => calls,
        _ => panic!("expected tool calls"),
    };
    for c in &calls {
        let resp = BarkToolCallResponse {
            id: c.id.clone(),
            function_name: c.function_name.clone(),
            arguments: c.arguments.clone(),
            result: Some("hi".to_string()),
        };
        assert!(agent_on_tool_result(&mut prompt, c, Ok(resp)).is_ok());
    }
    let step = agent_on_response(&mut prompt, chat("done", Some(1)), true, &mut gas);
    assert!(matches!(step, AgentStep::Done(ref t) if t == "done"));
    assert_eq!(prompt.len(), 4);
    assert!(matches!(prompt[1].content, BarkContent::ToolCall(ref c) if c.function_name == "svc__echo"));
    assert_eq!(prompt[2].role, BarkRole::Tool);
    assert!(matches!(prompt[2].content, BarkContent::ToolResponse { ref response, .. } if response == "hi"));
    assert!(matches!(prompt[3].content, BarkContent::Text(ref t) if t == "done"));
    let mut c = BarkController::new();
    let mut agent = bark_bot::nodes::Agent::new(None, PromptValue::Quick("x".to_string()), TextValue::Simple("".to_string()));
    assert!(matches!(agent.begin(&c, &Some(0)), Err(BarkState::WaitingForGas)));
    assert!(agent.begin(&c, &None).is_ok());
    assert_eq!(agent.finish(&mut c, Ok(("done".to_string(), prompt))), BarkState::Complete);
    assert_eq!(c.get_text(&TextValue::Variable(VariableId::LastOutput)), "done");
    assert_eq!(c.get_prompt(&PromptValue::Variable(VariableId::LastOutput)).len(), 4);
}

#[test]
fn agent_strips_thoughts_only_in_the_conversation() {
    let mut prompt = vec![];
    let mut gas = None;
    let step = agent_on_response(&mut prompt, chat("<think>t</think> ans", None), true, &mut gas);
    assert!(matches!(step, AgentStep::Done(ref t) if t == "<think>t</think> ans"));
    assert!(matches!(prompt[0].content, BarkContent::Text(ref t) if t == "ans"));
}

#[test]
fn failed_tool_call_stops_the_loop() {
    let mut prompt = vec![];
    let call = BarkToolCall { id: "1".to_string(), function_name: "a__b".to_string(), arguments: None };
    let r = agent_on_tool_result(&mut prompt, &call, Err("boom".to_string()));
    assert!(matches!(r, Err(ModelError::ToolFailed(ref e)) if e == "boom"));
    assert_eq!(prompt.len(), 1);
    let none = BarkToolCallResponse { id: "1".to_string(), function_name: "a__b".to_string(), arguments: None, result: None };
    assert!(matches!(agent_on_tool_result(&mut prompt, &call, Ok(none)), Err(ModelError::NoToolResult)));
}

#[test]
fn prompt_node_records_last_output() {
    let mut c = BarkController::new();
    let mut node = Prompt::new(None, PromptValue::Quick("question".to_string()));
    let mut gas = None;
    let req = node.begin(&c, &gas).ok().expect("request");
    assert_eq!(req.messages.len(), 1);
    assert_eq!(node.finish(&mut c, Ok("answer".to_string()), &mut gas, None), BarkState::Complete);
    assert_eq!(c.get_text(&TextValue::Variable(VariableId::LastOutput)), "answer");
    let p = c.get_prompt(&PromptValue::Variable(VariableId::LastOutput));
    assert_eq!(p.len(), 2);
    assert_eq!(p[1].role, BarkRole::Assistant);
    assert!(matches!(p[1].content, BarkContent::Text(ref t) if t == "answer"));
}

#[test]
fn empty_prompt_fails_the_node() {
    let c = BarkController::new();
    let mut node = Prompt::new(None, PromptValue::Chat(vec![]));
    assert!(matches!(node.begin(&c, &None), Err(BarkState::Failed)));
}

#[test]
fn replies_are_checked_for_words_in_lowercase() {
    let words = vec!["yes".to_string()];
    assert!(reply_mentions(&words, &"Oh YES indeed".to_string()));
    assert!(!reply_mentions(&words, &"no".to_string()));
    let mut c = BarkController::new();
    let require = RequireInResponse(words.clone(), PromptValue::Quick("q".to_string()));
    assert!(require.begin(&c).is_some());
    assert_eq!(require.finish(&mut c, Ok("YES".to_string())), BarkState::Complete);
    assert_eq!(c.get_text(&TextValue::Variable(VariableId::LastOutput)), "YES");
    let reject = RejectInResponse(words, PromptValue::Quick("q".to_string()));
    assert_eq!(reject.finish(&mut c, Ok("Yes".to_string())), BarkState::Failed);
    assert_eq!(reject.finish(&mut c, Err(ModelError::EmptyResponse)), BarkState::Failed);
}

#[test]
fn scenario_gas_runs_out_on_the_second_chat() {
    let mut c = BarkController::new();
    let mut gas = Some(50);
    let mut node = Prompt::new(None, PromptValue::Quick("q".to_string()));
    assert!(node.begin(&c, &gas).is_ok());
    let mut after = gas;
    let reply = prompt_reply(chat("one", Some(30)), &mut after);
    assert_eq!(node.finish(&mut c, reply, &mut gas, after), BarkState::Complete);
    assert_eq!(gas, Some(20));
    assert!(node.begin(&c, &gas).is_ok());
    let mut after = gas;
    let reply = prompt_reply(chat("two", Some(30)), &mut after);
    assert_eq!(node.finish(&mut c, reply, &mut gas, after), BarkState::WaitingForGas);
    assert_eq!(gas, Some(-10));
    assert_eq!(c.get_text(&TextValue::Variable(VariableId::LastOutput)), "one");
    assert!(matches!(node.begin(&c, &gas), Err(BarkState::WaitingForGas)));
}

#[test]
fn consecutive_texts_of_one_role_are_joined() {
    let call = BarkToolCall { id: "1".to_string(), function_name: "a__b".to_string(), arguments: None };
    let msgs = vec![
        user("a"),
        user("b"),
        bark_bot::messages::system("s"),
        bark_bot::messages::BarkMessage { role: BarkRole::Assistant, content: BarkContent::ToolCall(call) },
        user("c"),
        user("d"),
    ];
    let m = bark_bot::messages::merge_text_messages(&msgs);
    assert_eq!(m.len(), 4);
    assert!(matches!(m[0].content, BarkContent::Text(ref t) if t == "ab"));
    assert_eq!(m[1].role, BarkRole::System);
    assert!(matches!(m[3].content, BarkContent::Text(ref t) if t == "cd"));
}
