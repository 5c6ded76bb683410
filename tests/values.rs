use bark_bot::controller::BarkController;
use bark_bot::messages::{BarkContent, BarkMessage, BarkRole};
use bark_bot::values::{MessageValue, PromptValue, TextMatcher, TextValue, VariableId};

fn text_of(m: &BarkMessage) -> String {
    match &m.content {
        BarkContent::Text(t) => t.clone(),
        _ => panic!("not a text message"),
    }
}

#[test]
fn user_slots_by_name() {
    let mut c = BarkController::new();
    c.text_variables.insert(VariableId::from_name("n"), "v".to_string());
    assert_eq!(c.replace_template_variables("{{n}}"), "v");
    assert!(VariableId::from_name("n").same(&VariableId::User("n".to_string())));
    assert!(!VariableId::from_name("n").same(&VariableId::PreLoaded("n".to_string())));
}

#[test]
fn fresh_controller_holds_pre_embed() {
    let c = BarkController::new();
    assert_eq!(
        c.get_text(&TextValue::Variable(VariableId::PreEmbed)),
        "Represent this sentence for searching relevant passages: "
    );
    assert_eq!(c.get_text(&TextValue::Variable(VariableId::LoopValue)), "");
}

#[test]
fn scenario_two_builtin_placeholders() {
    let mut c = BarkController::new();
    c.text_variables.insert(VariableId::LastOutput, "Hello world".to_string());
    c.text_variables.insert(VariableId::Accumulator, "Goodbye world".to_string());
    assert_eq!(
        c.replace_template_variables("{{last_output}} and {{accumulator}}"),
        "Hello world and Goodbye world"
    );
}

#[test]
fn scenario_mutual_cycle_gives_marker() {
    let mut c = BarkController::new();
    c.text_variables.insert(VariableId::User("x".to_string()), "{{y}}".to_string());
    c.text_variables.insert(VariableId::User("y".to_string()), "{{x}}".to_string());
    assert_eq!(c.replace_template_variables("{{x}}"), "<<WARNING:LOOP>>");
}

#[test]
fn default_used_only_when_expansion_empty() {
    let mut c = BarkController::new();
    c.text_variables.insert(VariableId::User("a".to_string()), "{{b}}".to_string());
    assert_eq!(c.replace_template_variables("{{a|dflt}}"), "dflt");
    c.text_variables.insert(VariableId::User("b".to_string()), "B".to_string());
    assert_eq!(c.replace_template_variables("{{a|dflt}}"), "B");
}

#[test]
fn alt_variable_chain_checks_loops() {
    let mut c = BarkController::new();
    c.text_variables.insert(VariableId::User("alt".to_string()), "<{{alt}}>".to_string());
    assert_eq!(c.replace_template_variables("{{absent|=alt}}"), "<<<WARNING:LOOP>>>");
}

#[test]
fn unclosed_placeholder_is_kept() {
    let mut c = BarkController::new();
    c.text_variables.insert(VariableId::User("a".to_string()), "A".to_string());
    assert_eq!(c.replace_template_variables("x {{a}} {{a"), "x A {{a");
    assert_eq!(c.replace_template_variables("}} {{a}}"), "}} A");
    assert_eq!(c.replace_template_variables(""), "");
}

#[test]
fn text_value_variants() {
    let mut c = BarkController::new();
    let id = VariableId::User("v".to_string());
    c.text_variables.insert(id.copy(), "  before <think>deep</think> after ".to_string());
    assert_eq!(c.get_text(&TextValue::Thoughts(id.copy())), "deep");
    assert_eq!(c.get_text(&TextValue::WithoutThoughts(id.copy())), "before  after");
    assert_eq!(
        c.get_text(&TextValue::Default(VariableId::User("none".to_string()), "d".to_string())),
        "d"
    );
    assert_eq!(c.get_text(&TextValue::Variable(VariableId::User("none".to_string()))), "");
    let multi = TextValue::Multi(vec![
        TextValue::Simple("a".to_string()),
        TextValue::Simple("b".to_string()),
        TextValue::Simple("c".to_string()),
    ]);
    assert_eq!(c.get_text(&multi), "abc");
}

#[test]
fn structured_text_is_a_json_object() {
    let c = BarkController::new();
    let t = TextValue::Structured(vec![
        ("a".to_string(), TextValue::Simple("x\"y".to_string())),
        ("b".to_string(), TextValue::Simple("z".to_string())),
    ]);
    assert_eq!(c.get_text(&t), "{\"a\":\"x\\\"y\",\"b\":\"z\"}");
    assert_eq!(c.get_text(&TextValue::Structured(vec![])), "{}");
    let escapes = TextValue::Structured(vec![(
        "k".to_string(),
        TextValue::Simple("a\u{1}\n\\é".to_string()),
    )]);
    assert_eq!(c.get_text(&escapes), "{\"k\":\"a\\u0001\\n\\\\é\"}");
    let unsorted = TextValue::Structured(vec![
        ("b".to_string(), TextValue::Simple("1".to_string())),
        ("a".to_string(), TextValue::Simple("2".to_string())),
        ("b".to_string(), TextValue::Simple("3".to_string())),
        ("ab".to_string(), TextValue::Simple("4".to_string())),
    ]);
    assert_eq!(c.get_text(&unsorted), "{\"a\":\"2\",\"ab\":\"4\",\"b\":\"3\"}");
}

#[test]
fn thoughts_without_closing_tag() {
    let mut c = BarkController::new();
    let id = VariableId::User("v".to_string());
    c.text_variables.insert(id.copy(), "<think>open".to_string());
    assert_eq!(c.get_text(&TextValue::Thoughts(id.copy())), "");
    assert_eq!(c.get_text(&TextValue::WithoutThoughts(id.copy())), "<think>open");
}

fn simple(s: &str) -> TextValue {
    TextValue::Simple(s.to_string())
}

#[test]
fn matchers_evaluate() {
    let c = BarkController::new();
    let t = simple("  Hello World ");
    assert!(c.text_matches(&t, &TextMatcher::Exact(simple("hello world"))));
    assert!(c.text_matches(&t, &TextMatcher::Contains(simple("lo W"))));
    assert!(!c.text_matches(&t, &TextMatcher::StartsWith(simple("Hello"))));
    assert!(c.text_matches(&t, &TextMatcher::EndsWith(simple("d "))));
    assert!(c.text_matches(&t, &TextMatcher::Any(vec![
        TextMatcher::Contains(simple("nope")),
        TextMatcher::Contains(simple("World")),
    ])));
    assert!(!c.text_matches(&t, &TextMatcher::All(vec![
        TextMatcher::Contains(simple("nope")),
        TextMatcher::Contains(simple("World")),
    ])));
    assert!(c.text_matches(&t, &TextMatcher::All(vec![])));
    assert!(!c.text_matches(&t, &TextMatcher::Any(vec![])));
}

#[test]
fn not_any_equals_all_not() {
    let c = BarkController::new();
    for text in ["apple", "banana", "cherry pie"] {
        let t = simple(text);
        let x = || TextMatcher::Contains(simple("an"));
        let y = || TextMatcher::StartsWith(simple("ch"));
        let left = TextMatcher::Not(Box::new(TextMatcher::Any(vec![x(), y()])));
        let right = TextMatcher::All(vec![
            TextMatcher::Not(Box::new(x())),
            TextMatcher::Not(Box::new(y())),
        ]);
        assert_eq!(c.text_matches(&t, &left), c.text_matches(&t, &right));
    }
}

#[test]
fn exact_ignores_space_and_case() {
    let c = BarkController::new();
    let m = TextMatcher::Exact(simple("YES"));
    assert!(c.text_matches(&simple(" yes\n"), &m));
    assert!(c.text_matches(&simple("Yes"), &m));
    assert!(!c.text_matches(&simple("yes!"), &m));
}

#[test]
fn prompt_values_resolve() {
    let mut c = BarkController::new();
    c.text_variables.insert(VariableId::User("n".to_string()), "Ann".to_string());
    let chat = PromptValue::Chat(vec![
        MessageValue::System("sys".to_string()),
        MessageValue::UserVar(VariableId::User("n".to_string())),
        MessageValue::AssistantVal(simple("ok")),
    ]);
    let p = c.get_prompt(&chat);
    assert_eq!(p.len(), 3);
    assert_eq!(p[0].role, BarkRole::System);
    assert_eq!(text_of(&p[1]), "Ann");
    assert_eq!(p[2].role, BarkRole::Assistant);
    let q = c.get_prompt(&PromptValue::Quick("hi".to_string()));
    assert_eq!(q.len(), 1);
    assert_eq!(q[0].role, BarkRole::User);
    assert_eq!(c.get_prompt(&PromptValue::Variable(VariableId::User("none".to_string()))).len(), 0);
    let joined = PromptValue::Joined(vec![PromptValue::Quick("a".to_string()), chat]);
    assert_eq!(c.get_prompt(&joined).len(), 4);
}

#[test]
fn template_cycles_expand_to_nothing() {
    let mut c = BarkController::new();
    let t = VariableId::User("t".to_string());
    c.templates.insert(
        t.copy(),
        vec![MessageValue::User("u".to_string()), MessageValue::Template(t.copy())],
    );
    let p = c.get_prompt(&PromptValue::Template(t.copy()));
    assert_eq!(p.len(), 1);
    assert_eq!(text_of(&p[0]), "u");
}

#[test]
fn prompt_mutations() {
    let mut c = BarkController::new();
    let id = VariableId::User("p".to_string());
    c.start_prompt(id.copy(), &PromptValue::Chat(vec![
        MessageValue::System("old".to_string()),
        MessageValue::User("q1".to_string()),
    ]));
    c.extend_prompt(id.copy(), &PromptValue::Quick("q2".to_string()));
    c.replace_system_prompt(id.copy(), &PromptValue::Chat(vec![MessageValue::System("new".to_string())]));
    let p = c.get_prompt(&PromptValue::Variable(id.copy()));
    let texts: Vec<String> = p.iter().map(text_of).collect();
    assert_eq!(texts, vec!["new", "q1", "q2"]);
    assert_eq!(p[0].role, BarkRole::System);
}

#[test]
fn template_text_lines() {
    let mut c = BarkController::new();
    c.text_variables.insert(VariableId::User("who".to_string()), "Bo".to_string());
    let ms = c.template_from_str("system: be kind\nuser:  hi {{who}}\r\nassistant:ok\nplain line\n");
    assert_eq!(ms.len(), 4);
    match &ms[0] { MessageValue::System(s) => assert_eq!(s, "be kind"), _ => panic!() }
    match &ms[1] { MessageValue::User(s) => assert_eq!(s, "hi Bo"), _ => panic!() }
    match &ms[2] { MessageValue::Assistant(s) => assert_eq!(s, "ok"), _ => panic!() }
    match &ms[3] { MessageValue::User(s) => assert_eq!(s, "plain line"), _ => panic!() }
}

#[test]
fn template_files_resolve_by_path() {
    let mut c = BarkController::new();
    c.load_template_file("t.txt", vec![MessageValue::User("from file".to_string())]);
    let p = c.get_prompt(&PromptValue::TemplateFile(simple("t.txt")));
    assert_eq!(p.len(), 1);
    assert_eq!(text_of(&p[0]), "from file");
    assert_eq!(c.get_prompt(&PromptValue::TemplateFile(simple("other.txt"))).len(), 0);
}

#[test]
fn preloaded_controller() {
    let c = BarkController::new_preloaded(
        vec![("k".to_string(), "v".to_string())],
        vec![("t".to_string(), vec![MessageValue::User("m".to_string())])],
    );
    assert_eq!(c.get_text(&TextValue::Variable(VariableId::User("k".to_string()))), "v");
    assert_eq!(c.get_prompt(&PromptValue::Template(VariableId::User("t".to_string()))).len(), 1);
    assert_eq!(
        c.get_text(&TextValue::Variable(VariableId::PreEmbed)),
        "Represent this sentence for searching relevant passages: "
    );
}
