use bark_bot::controller::BarkController;
use bark_bot::strip_thoughts;
use bark_bot::values::VariableId;

#[test]
fn test_strip_thoughts() {
    let input = "<think>this is a thought</think>Hello World".to_string();
    let expected = "Hello World".to_string();
    assert_eq!(strip_thoughts(&input), expected);
}

#[test]
fn test_strip_thoughts_no_thoughts() {
    let input = "Hello World".to_string();
    let expected = "Hello World".to_string();
    assert_eq!(strip_thoughts(&input), expected);
}

#[test]
fn test_replace_single_template() {
    let mut controller = BarkController::new();
    let id = VariableId::LastOutput;
    controller
        .text_variables
        .insert(id, "Hello world".to_string());
    let line = "{{last_output}}";
    let replaced = controller.replace_template_variables(line);
    assert_eq!(replaced, "Hello world");
}

#[test]
fn test_replace_multiple_templates() {
    let mut controller = BarkController::new();
    let id1 = VariableId::LastOutput;
    let id2 = VariableId::Accumulator;
    controller
        .text_variables
        .insert(id1, "Hello world".to_string());
    controller
        .text_variables
        .insert(id2, "Goodbye world".to_string());
    let line = "{{last_output}} and {{accumulator}}";
    let replaced = controller.replace_template_variables(line);
    assert_eq!(replaced, "Hello world and Goodbye world");
}

#[test]
fn test_replace_templates_recursive() {
    let mut controller = BarkController::new();
    let id1 = VariableId::LastOutput;
    let id2 = VariableId::Accumulator;
    controller
        .text_variables
        .insert(id1, "{{accumulator}}".to_string());
    controller
        .text_variables
        .insert(id2, "Goodbye world".to_string());
    let line = "{{last_output}} and {{accumulator}}!";
    let replaced = controller.replace_template_variables(line);
    assert_eq!(replaced, "Goodbye world and Goodbye world!");
}

#[test]
fn test_replace_templates_loop_detection() {
    let mut controller = BarkController::new();
    let id1 = VariableId::LastOutput;
    let id2 = VariableId::Accumulator;
    controller
        .text_variables
        .insert(id1, "{{accumulator}}".to_string());
    controller
        .text_variables
        .insert(id2, "{{last_output}}".to_string());
    let line = "{{last_output}}";
    let replaced = controller.replace_template_variables(line);
    assert_eq!(replaced, "<<WARNING:LOOP>>");
}

#[test]
fn test_replace_templates_self_reference() {
    let mut controller = BarkController::new();
    let id = VariableId::LastOutput;
    controller
        .text_variables
        .insert(id, "I am {{last_output}}".to_string());
    let line = "{{last_output}}";
    let replaced = controller.replace_template_variables(line);
    assert_eq!(replaced, "I am <<WARNING:LOOP>>");
}

#[test]
fn test_replace_template_with_default_value() {
    let controller = BarkController::new();
    let line = "{{missing_var|default text}}";
    let replaced = controller.replace_template_variables(line);
    assert_eq!(replaced, "default text");
}

#[test]
fn test_replace_template_with_default_value_existing_var() {
    let mut controller = BarkController::new();
    let id = VariableId::User("test_var".to_string());
    controller
        .text_variables
        .insert(id, "actual value".to_string());
    let line = "{{test_var|default text}}";
    let replaced = controller.replace_template_variables(line);
    assert_eq!(replaced, "actual value");
}

#[test]
fn test_replace_template_with_default_value_empty_var() {
    let mut controller = BarkController::new();
    let id = VariableId::User("empty_var".to_string());
    controller.text_variables.insert(id, "".to_string());
    let line = "{{empty_var|default text}}";
    let replaced = controller.replace_template_variables(line);
    assert_eq!(replaced, "default text");
}

#[test]
fn test_replace_template_with_default_value_built_in_var() {
    let mut controller = BarkController::new();
    controller
        .text_variables
        .insert(VariableId::LastOutput, "".to_string());
    let line = "{{last_output|no output yet}}";
    let replaced = controller.replace_template_variables(line);
    assert_eq!(replaced, "no output yet");
}

#[test]
fn test_replace_template_with_default_value_mixed() {
    let mut controller = BarkController::new();
    let id = VariableId::User("name".to_string());
    controller.text_variables.insert(id, "Alice".to_string());
    let line = "Hello {{name|Anonymous}}! Your score is {{score|0}}.";
    let replaced = controller.replace_template_variables(line);
    assert_eq!(replaced, "Hello Alice! Your score is 0.");
}

#[test]
fn test_replace_template_with_default_value_recursive() {
    let mut controller = BarkController::new();
    let id1 = VariableId::User("greeting".to_string());
    let id2 = VariableId::User("name".to_string());
    controller
        .text_variables
        .insert(id1, "Hello {{name|World}}!".to_string());
    controller.text_variables.insert(id2, "".to_string());
    let line = "{{greeting|Hi there!}}";
    let replaced = controller.replace_template_variables(line);
    assert_eq!(replaced, "Hello World!");
}

#[test]
fn test_replace_template_with_default_value_containing_pipe() {
    let controller = BarkController::new();
    let line = "{{missing_var|option1|option2}}";
    let replaced = controller.replace_template_variables(line);
    assert_eq!(replaced, "option1|option2");
}

#[test]
fn test_replace_template_with_variable_fallback() {
    let mut controller = BarkController::new();
    let fallback_id = VariableId::User("fallback_var".to_string());
    controller
        .text_variables
        .insert(fallback_id, "fallback value".to_string());
    let line = "{{missing_var|=fallback_var}}";
    let replaced = controller.replace_template_variables(line);
    assert_eq!(replaced, "fallback value");
}

#[test]
fn test_replace_template_with_variable_fallback_existing_var() {
    let mut controller = BarkController::new();
    let primary_id = VariableId::User("primary_var".to_string());
    let fallback_id = VariableId::User("fallback_var".to_string());
    controller
        .text_variables
        .insert(primary_id, "primary value".to_string());
    controller
        .text_variables
        .insert(fallback_id, "fallback value".to_string());
    let line = "{{primary_var|=fallback_var}}";
    let replaced = controller.replace_template_variables(line);
    assert_eq!(replaced, "primary value");
}

#[test]
fn test_replace_template_with_variable_fallback_empty_var() {
    let mut controller = BarkController::new();
    let primary_id = VariableId::User("empty_var".to_string());
    let fallback_id = VariableId::User("fallback_var".to_string());
    controller.text_variables.insert(primary_id, "".to_string());
    controller
        .text_variables
        .insert(fallback_id, "fallback value".to_string());
    let line = "{{empty_var|=fallback_var}}";
    let replaced = controller.replace_template_variables(line);
    assert_eq!(replaced, "fallback value");
}

#[test]
fn test_replace_template_with_variable_fallback_builtin_vars() {
    let mut controller = BarkController::new();
    controller
        .text_variables
        .insert(VariableId::LastOutput, "".to_string());
    controller
        .text_variables
        .insert(VariableId::Accumulator, "accumulated data".to_string());
    let line = "{{last_output|=accumulator}}";
    let replaced = controller.replace_template_variables(line);
    assert_eq!(replaced, "accumulated data");
}

#[test]
fn test_replace_template_with_variable_fallback_missing_both() {
    let controller = BarkController::new();
    let line = "{{missing_var|=missing_fallback}}";
    let replaced = controller.replace_template_variables(line);
    assert_eq!(replaced, "");
}

#[test]
fn test_replace_template_with_variable_fallback_recursive() {
    let mut controller = BarkController::new();
    let primary_id = VariableId::User("primary".to_string());
    let fallback_id = VariableId::User("fallback".to_string());
    let nested_id = VariableId::User("nested".to_string());
    controller.text_variables.insert(primary_id, "".to_string());
    controller
        .text_variables
        .insert(fallback_id, "Hello {{nested}}!".to_string());
    controller
        .text_variables
        .insert(nested_id, "World".to_string());
    let line = "{{primary|=fallback}}";
    let replaced = controller.replace_template_variables(line);
    assert_eq!(replaced, "Hello World!");
}

#[test]
fn test_replace_template_with_variable_fallback_loop_detection() {
    let mut controller = BarkController::new();
    let primary_id = VariableId::User("primary".to_string());
    let fallback_id = VariableId::User("fallback".to_string());
    controller.text_variables.insert(primary_id, "".to_string());
    controller
        .text_variables
        .insert(fallback_id, "{{primary|=fallback}}".to_string());
    let line = "{{primary|=fallback}}";
    let replaced = controller.replace_template_variables(line);
    assert_eq!(replaced, "<<WARNING:LOOP>>");
}
