use rust_agent::tags::{
    extract_action, extract_final_answer, extract_thought, has_complete_action,
    should_process_buffer,
};

#[test]
fn test_has_complete_action() {
    // a complete action tag pair
    assert!(has_complete_action("<action>read_file(\"test.txt\")</action>"));

    // incomplete action tags
    assert!(!has_complete_action("<action>read_file(\"test.txt\")"));
    assert!(!has_complete_action("read_file(\"test.txt\")</action>"));
    assert!(!has_complete_action(""));

    // tags in the wrong order
    assert!(!has_complete_action("</action>read_file(\"test.txt\")<action>"));
}

#[test]
fn test_extract_action() {
    let result = extract_action("<action>read_file(\"test.txt\")</action>");
    assert!(result.is_some());
    assert_eq!(result.unwrap(), "read_file(\"test.txt\")");

    let result = extract_action("没有action标签");
    assert!(result.is_none());
}

#[test]
fn extract_action_trims_content() {
    let r = extract_action("prose before <action>  foo(1)\n</action> prose after");
    assert_eq!(r.unwrap(), "foo(1)");
}

#[test]
fn extract_action_takes_first_pair() {
    let r = extract_action("<action>a()</action><action>b()</action>");
    assert_eq!(r.unwrap(), "a()");
}

#[test]
fn extract_action_none_without_close_after_open() {
    assert!(extract_action("</action>x<action>y").is_none());
}

#[test]
fn extract_final_answer_basic() {
    let r = extract_final_answer("<final_answer> Done </final_answer>");
    assert_eq!(r.unwrap(), "Done");
    assert!(extract_final_answer("<final_answer>unterminated").is_none());
    assert!(extract_final_answer("").is_none());
}

#[test]
fn extract_thought_basic() {
    let r = extract_thought("<thought>思考中</thought> rest");
    assert_eq!(r.unwrap(), "思考中");
    assert!(extract_thought("no tags at all").is_none());
}

#[test]
fn buffer_processing_detects_any_complete_pair() {
    assert!(should_process_buffer("<thought>x</thought>"));
    assert!(should_process_buffer("<action>x</action>"));
    assert!(should_process_buffer("<final_answer>x</final_answer>"));
    assert!(!should_process_buffer("<action>still streaming"));
    assert!(!should_process_buffer("plain text"));
}
