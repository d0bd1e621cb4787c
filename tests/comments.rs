use ptx_parser::comment::{many1_comments_or_whitespace, parse_line_comment, Comment};

#[test]
fn test_parse_line_comment_single_line() {
    assert_eq!(
        parse_line_comment("// This is a comment\n"),
        Ok(("\n", Comment::Line(" This is a comment")))
    );
}

#[test]
fn test_parse_line_comment_single_line_with_trailing_whitespace() {
    assert_eq!(
        parse_line_comment("// This is another comment with trailing whitespace    \n"),
        Ok((
            "\n",
            Comment::Line(" This is another comment with trailing whitespace    ")
        ))
    );
}

#[test]
fn test_parse_line_comment_single_line_empty() {
    assert_eq!(parse_line_comment("//\n"), Ok(("\n", Comment::Line(""))));
}

#[test]
fn test_parse_line_comment_single_line_with_leading_whitespace() {
    assert!(parse_line_comment("  // This is a comment with leading whitespace\n").is_err());
}

#[test]
fn test_parse_line_comment_multi_line() {
    assert_eq!(
        parse_line_comment(
            "// This is a comment that extends over multiple lines\n// with another line\n"
        ),
        Ok((
            "\n// with another line\n",
            Comment::Line(" This is a comment that extends over multiple lines")
        ))
    );
}

#[test]
fn test_parse_line_comment_block_comment() {
    assert_eq!(
        parse_line_comment("/* This is a block comment\n and it's on \n 3 lines */\n"),
        Ok((
            "\n",
            Comment::Block(" This is a block comment\n and it's on \n 3 lines ")
        ))
    );
}

#[test]
fn test_empty_string() {
    assert!(many1_comments_or_whitespace("").is_err());
}

#[test]
fn test_new_line() {
    assert_eq!(many1_comments_or_whitespace("\n"), Ok(("", 1)));
}

#[test]
fn test_empty_comments_and_whitespace() {
    assert_eq!(
        many1_comments_or_whitespace("  // This is a comment\n  // with another line\n"),
        Ok(("", 5))
    );
}

#[test]
fn test_empty_comments_and_whitespace_with_leading_whitespace() {
    assert_eq!(
        many1_comments_or_whitespace("  // This is a comment\n  // with another line\n"),
        Ok(("", 5))
    );
}

#[test]
fn slash_alone_is_not_a_comment() {
    assert!(parse_line_comment("/ x").is_err());
    assert!(parse_line_comment("/").is_err());
}

#[test]
fn unclosed_block_comment_is_refused() {
    assert!(parse_line_comment("/* never closed\n").is_err());
}

#[test]
fn block_comment_stops_at_first_close() {
    assert_eq!(
        parse_line_comment("/* a /* b */ c */"),
        Ok((" c */", Comment::Block(" a /* b ")))
    );
}

#[test]
fn empty_block_comment() {
    assert_eq!(parse_line_comment("/**/x"), Ok(("x", Comment::Block(""))));
}

#[test]
fn skipper_mixes_block_comments_and_whitespace() {
    assert_eq!(
        many1_comments_or_whitespace("/* a */\t/* b */\n.func"),
        Ok((".func", 4))
    );
}

#[test]
fn skipper_stops_at_a_slash_that_opens_no_comment() {
    assert_eq!(many1_comments_or_whitespace("  / x"), Ok(("/ x", 1)));
}

#[test]
fn skipper_refuses_text() {
    assert!(many1_comments_or_whitespace(".version").is_err());
}
