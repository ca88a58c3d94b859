use rust_agent::errors::AgentError;
use rust_agent::parser::{parse_action, parse_arguments, parse_single_arg};

#[test]
fn parse_canonical_call() {
    // quoted arguments: a comma inside quotes does not split, and \n
    // decodes to a newline
    let (name, args) = parse_action("name(\"a, b\", 'c\\n')").unwrap();
    assert_eq!(name, "name");
    assert_eq!(args, vec!["a, b".to_string(), "c\n".to_string()]);
}

#[test]
fn parse_nested_parentheses() {
    // nested parentheses inside an unquoted argument do not split at depth > 0
    let (name, args) = parse_action("outer(inner(1,2), \"x\")").unwrap();
    assert_eq!(name, "outer");
    assert_eq!(args, vec!["inner(1,2)".to_string(), "x".to_string()]);
}

#[test]
fn parse_rejects_malformed_shapes() {
    let r = parse_action("not a call");
    assert!(matches!(r, Err(AgentError::ParseError(_))));
    if let Err(AgentError::ParseError(m)) = parse_action("not a call") {
        assert_eq!(m, "invalid function call syntax: not a call");
    }
    assert!(parse_action("").is_err());
    assert!(parse_action("f(").is_err());
    assert!(parse_action("(x)").is_err());
    assert!(parse_action("f)x(").is_err());
}

#[test]
fn parse_empty_argument_list() {
    let (name, args) = parse_action("list_files()").unwrap();
    assert_eq!(name, "list_files");
    assert!(args.is_empty());
}

#[test]
fn parse_trailing_text_uses_last_paren() {
    let (name, args) = parse_action("f(a) trailing").unwrap();
    assert_eq!(name, "f");
    assert_eq!(args, vec!["a".to_string()]);
}

#[test]
fn arguments_split_only_at_top_level() {
    assert_eq!(parse_arguments("a,,b"), vec!["a", "", "b"]);
    assert_eq!(parse_arguments("a,b,"), vec!["a", "b"]);
    assert_eq!(parse_arguments(""), Vec::<String>::new());
    assert_eq!(parse_arguments("  "), Vec::<String>::new());
    assert_eq!(parse_arguments("'x,y', z"), vec!["x,y", "z"]);
}

#[test]
fn single_arg_decodes_escapes_in_order() {
    assert_eq!(parse_single_arg("\"a\\\"b\""), "a\"b");
    assert_eq!(parse_single_arg("'a\\'b'"), "a'b");
    assert_eq!(parse_single_arg("'a\\nb'"), "a\nb");
    assert_eq!(parse_single_arg("'a\\tb'"), "a\tb");
    assert_eq!(parse_single_arg("'a\\rb'"), "a\rb");
    assert_eq!(parse_single_arg("\"ab\\\\\""), "ab\\");
}

#[test]
fn single_arg_unquoted_kept_as_written() {
    assert_eq!(parse_single_arg("bare"), "bare");
    assert_eq!(parse_single_arg("  42  "), "42");
    assert_eq!(parse_single_arg("\"unterminated"), "\"unterminated");
}

#[test]
fn single_arg_lone_quote_is_empty() {
    assert_eq!(parse_single_arg("\""), "");
    assert_eq!(parse_single_arg("'"), "");
    assert_eq!(parse_single_arg("\"\""), "");
}

#[test]
fn quote_lookback_is_a_single_character() {
    // the closing quote is preceded by a backslash, so the string never
    // closes: the comma stays inside and nothing splits
    let args = parse_arguments("\"a\\\\\", \"b\"");
    assert_eq!(args, vec!["a\\\", \"b".to_string()]);
}

#[test]
fn non_ascii_arguments_survive() {
    let (name, args) = parse_action("write_to_file(\"笔记.txt\", \"你好\")").unwrap();
    assert_eq!(name, "write_to_file");
    assert_eq!(args, vec!["笔记.txt".to_string(), "你好".to_string()]);
}
