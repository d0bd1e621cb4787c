use ptx_parser::scan::{
    parse_braced_balanced, parse_braced_naive, parse_name, parse_parenthesized_naive,
};

#[test]
fn mod_no_newline() {
    let input = "(hello)";
    let expected = Ok(("", "hello"));
    assert_eq!(parse_parenthesized_naive(input), expected)
}

#[test]
fn mod_newline() {
    let input = "(hello\n)";
    let expected = Ok(("", "hello\n"));
    assert_eq!(parse_parenthesized_naive(input), expected)
}

#[test]
fn one_left_parenthesis() {
    let input = "(hello";
    assert!(parse_parenthesized_naive(input).is_err())
}

#[test]
fn mod_two_left_one_right() {
    let input = "((hello)";
    assert_eq!(parse_parenthesized_naive(input), Ok(("", "(hello")),)
}

#[test]
fn braced_no_newline() {
    let input = "{hello}";
    let expected = Ok(("", "hello"));
    assert_eq!(parse_braced_naive(input), expected)
}

#[test]
fn braced_newline() {
    let input = "{hello\n}";
    let expected = Ok(("", "hello\n"));
    assert_eq!(parse_braced_naive(input), expected)
}

#[test]
fn one_left_brace() {
    let input = "{hello";
    assert!(parse_braced_naive(input).is_err())
}

#[test]
fn braced_two_left_one_right() {
    let input = "{{hello}";
    assert_eq!(parse_braced_naive(input), Ok(("", "{hello")),)
}

#[test]
fn mock_function_body() {
    let input = "{.reg .b32 %r<3>}";
    let expected = Ok(("", ".reg .b32 %r<3>"));
    assert_eq!(parse_braced_naive(input), expected)
}

#[test]
fn one_pair() {
    let input = "{hello}";
    let expected = Ok(("", "hello"));
    assert_eq!(parse_braced_balanced(input), expected)
}

#[test]
fn two_pairs() {
    let input = "{hello}{world}";
    let expected = Ok(("{world}", "hello"));
    assert_eq!(parse_braced_balanced(input), expected)
}

#[test]
fn nested_pair() {
    let input = "{hello{world}}";
    let expected = Ok(("", "hello{world}"));
    assert_eq!(parse_braced_balanced(input), expected)
}

#[test]
fn imbalanced() {
    let input = "{hello{world}";
    assert!(parse_braced_balanced(input).is_err())
}

#[test]
fn paren_rewrapped_round_trips() {
    let (_, inner) = parse_parenthesized_naive("((hello)").unwrap();
    let wrapped = format!("({})", inner);
    assert_eq!(parse_parenthesized_naive(&wrapped), Ok(("", "(hello")));
}

#[test]
fn empty_parentheses_give_empty_text() {
    assert_eq!(parse_parenthesized_naive("()"), Ok(("", "")));
    assert_eq!(parse_parenthesized_naive("();"), Ok((";", "")));
    assert!(parse_parenthesized_naive("hello)").is_err());
}

#[test]
fn empty_braces_balance() {
    assert_eq!(parse_braced_balanced("{}rest"), Ok(("rest", "")));
    assert!(parse_braced_balanced("hello}").is_err());
}

#[test]
fn deeply_nested_braces() {
    assert_eq!(
        parse_braced_balanced("{a{b{c}d}e}{f}"),
        Ok(("{f}", "a{b{c}d}e"))
    );
}

#[test]
fn name_stops_at_punctuation_and_space() {
    assert_eq!(parse_name("_Z6kernel(x)"), Ok(("(x)", "_Z6kernel")));
    assert_eq!(parse_name("abc def"), Ok((" def", "abc")));
    assert_eq!(parse_name("a\u{3000}b"), Ok(("\u{3000}b", "a")));
    assert_eq!(parse_name("x%r"), Ok(("%r", "x")));
    assert!(parse_name(".func").is_err());
    assert!(parse_name("").is_err());
}

#[test]
fn unclosed_groups_fail_at_the_end() {
    assert_eq!(
        parse_parenthesized_naive("(abc"),
        Err(ptx_parser::scan::ParseError::Mismatch(""))
    );
    assert_eq!(
        parse_parenthesized_naive("abc)"),
        Err(ptx_parser::scan::ParseError::Mismatch("abc)"))
    );
    assert_eq!(
        parse_braced_balanced("{a{b}"),
        Err(ptx_parser::scan::ParseError::Mismatch(""))
    );
    assert_eq!(
        parse_braced_naive("{}x"),
        Err(ptx_parser::scan::ParseError::Mismatch("{}x"))
    );
}
