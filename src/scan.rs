//! Character classes and the primitive scanners the grammar is built from.
use vstd::prelude::*;

verus! {

/// Why a parse failed.
#[derive(Debug, PartialEq, Eq)]
pub enum ParseError<'a> {
    /// The rule does not match; holds the input at which matching was tried.
    Mismatch(&'a str),
    /// A parameter names a type whose width is not known; holds that type.
    UnknownType(&'a str),
}

/// Sets of characters that scanners run over.
#[derive(Clone, Copy, Debug, PartialEq, Eq)]
pub enum CharClass {
    /// Characters that may occur in a name.
    Name,
    /// Space and tab.
    Blank,
    /// Space, tab, carriage return and line feed.
    Space,
    /// Every character but a line feed.
    NotNewline,
    /// Every character but `)`.
    NotCloseParen,
    /// Every character but `}`.
    NotCloseBrace,
    /// Every character but a space.
    NotSpace,
    /// Every character but `;`.
    NotSemicolon,
    /// Unicode white space.
    White,
}

/// Unicode white space, as `char::is_whitespace` has it.
pub open spec fn is_white(c: char) -> bool {
    ('\t' <= c && c <= '\r') || c == ' ' || c == '\u{85}' || c == '\u{A0}' || c == '\u{1680}'
        || ('\u{2000}' <= c && c <= '\u{200A}') || c == '\u{2028}' || c == '\u{2029}'
        || c == '\u{202F}' || c == '\u{205F}' || c == '\u{3000}'
}

/// Punctuation that ends a name.
pub open spec fn is_special(c: char) -> bool {
    c == '.' || c == '/' || c == '(' || c == ')' || c == '[' || c == ']' || c == '{' || c == '}'
        || c == ',' || c == ';' || c == ':' || c == '%'
}

/// Whether `c` is in the class `k`.
pub open spec fn in_class(k: CharClass, c: char) -> bool {
    match k {
        CharClass::Name => !is_white(c) && !is_special(c),
        CharClass::Blank => c == ' ' || c == '\t',
        CharClass::Space => c == ' ' || c == '\t' || c == '\r' || c == '\n',
        CharClass::NotNewline => c != '\n',
        CharClass::NotCloseParen => c != ')',
        CharClass::NotCloseBrace => c != '}',
        CharClass::NotSpace => c != ' ',
        CharClass::NotSemicolon => c != ';',
        CharClass::White => is_white(c),
    }
}

/// The first index at or after `i` whose character is not in `k`, or the length.
pub open spec fn run_end(s: Seq<char>, i: int, k: CharClass) -> int
    decreases s.len() - i,
{
    if i < 0 || i >= s.len() || !in_class(k, s[i]) {
        if i < 0 { 0 } else if i > s.len() { s.len() as int } else { i }
    } else {
        run_end(s, i + 1, k)
    }
}

/// `run_end` lies between `i` and the length, passes only characters of the
/// class, and stops at one outside it.
pub proof fn lemma_run_end(s: Seq<char>, i: int, k: CharClass)
    requires
        0 <= i <= s.len(),
    ensures
        i <= run_end(s, i, k) <= s.len(),
        forall|j: int| i <= j < run_end(s, i, k) ==> in_class(k, #[trigger] s[j]),
        run_end(s, i, k) < s.len() ==> !in_class(k, s[run_end(s, i, k)]),
    decreases s.len() - i,
{
    if i < s.len() && in_class(k, s[i]) {
        lemma_run_end(s, i + 1, k);
    }
}

/// Whether `c` is Unicode white space.
pub fn is_white_char(c: char) -> (r: bool)
    ensures
        r == is_white(c),
{
    ('\t' <= c && c <= '\r') || c == ' ' || c == '\u{85}' || c == '\u{A0}' || c == '\u{1680}'
        || ('\u{2000}' <= c && c <= '\u{200A}') || c == '\u{2028}' || c == '\u{2029}'
        || c == '\u{202F}' || c == '\u{205F}' || c == '\u{3000}'
}

/// Whether `c` is punctuation that ends a name.
pub fn is_special_char(c: char) -> (r: bool)
    ensures
        r == is_special(c),
{
    c == '.' || c == '/' || c == '(' || c == ')' || c == '[' || c == ']' || c == '{' || c == '}'
        || c == ',' || c == ';' || c == ':' || c == '%'
}

/// Whether `c` is in the class `k`.
pub fn class_has(k: CharClass, c: char) -> (r: bool)
    ensures
        r == in_class(k, c),
{
    match k {
        CharClass::Name => !is_white_char(c) && !is_special_char(c),
        CharClass::Blank => c == ' ' || c == '\t',
        CharClass::Space => c == ' ' || c == '\t' || c == '\r' || c == '\n',
        CharClass::NotNewline => c != '\n',
        CharClass::NotCloseParen => c != ')',
        CharClass::NotCloseBrace => c != '}',
        CharClass::NotSpace => c != ' ',
        CharClass::NotSemicolon => c != ';',
        CharClass::White => is_white_char(c),
    }
}

/// Index of the first character at or after `i` that is not in `k`.
pub fn scan_class(s: &str, len: usize, i: usize, k: CharClass) -> (r: usize)
    requires
        len == s@.len(),
        i <= len,
    ensures
        r == run_end(s@, i as int, k),
        i <= r <= len,
{
    let mut it = s.chars();
    let mut j: usize = 0;
    while j < i
        invariant
            len == s@.len(),
            j <= i <= len,
            vstd::std_specs::iter::IteratorSpec::remaining(&it) == s@.subrange(j as int, len as int),
        decreases i - j,
    {
        let _ = it.next();
        j = j + 1;
    }
    let mut done = false;
    while !done
        invariant
            len == s@.len(),
            i <= j <= len,
            !done ==> vstd::std_specs::iter::IteratorSpec::remaining(&it) == s@.subrange(
                j as int,
                len as int,
            ),
            run_end(s@, i as int, k) == run_end(s@, j as int, k),
            done ==> j == len || !in_class(k, s@[j as int]),
        decreases len - j + (if done { 0int } else { 1int }),
    {
        match it.next() {
            Some(c) => {
                assert(c == s@[j as int]);
                if class_has(k, c) {
                    j = j + 1;
                } else {
                    done = true;
                }
            },
            None => {
                done = true;
            },
        }
    }
    proof {
        lemma_run_end(s@, i as int, k);
    }
    j
}

/// A name at the start of `s`: its length and text, when it is not empty.
pub open spec fn spec_name(s: Seq<char>) -> Option<(int, Seq<char>)> {
    let e = run_end(s, 0, CharClass::Name);
    if e > 0 {
        Some((e, s.subrange(0, e)))
    } else {
        None
    }
}

/// A parenthesised group without nesting: `(`, then everything up to the first
/// `)`, then that `)`. Gives the length consumed and the inner text.
pub open spec fn spec_paren(s: Seq<char>) -> Option<(int, Seq<char>)> {
    if s.len() > 0 && s[0] == '(' {
        let e = run_end(s, 1, CharClass::NotCloseParen);
        if 1 <= e < s.len() {
            Some((e + 1, s.subrange(1, e)))
        } else {
            None
        }
    } else {
        None
    }
}

/// A braced group without nesting: `{`, a nonempty run up to the first `}`, then
/// that `}`. Gives the length consumed and the inner text.
pub open spec fn spec_braced_naive(s: Seq<char>) -> Option<(int, Seq<char>)> {
    if s.len() > 0 && s[0] == '{' {
        let e = run_end(s, 1, CharClass::NotCloseBrace);
        if 1 < e < s.len() {
            Some((e + 1, s.subrange(1, e)))
        } else {
            None
        }
    } else {
        None
    }
}

/// Index of the `}` that brings the depth `d` (counted from `i`) back to zero, or -1.
pub open spec fn brace_close(s: Seq<char>, i: int, d: nat) -> int
    decreases s.len() - i,
{
    if i < 0 || i >= s.len() {
        -1
    } else if s[i] == '{' {
        brace_close(s, i + 1, d + 1)
    } else if s[i] == '}' {
        if d <= 1 {
            i
        } else {
            brace_close(s, i + 1, (d - 1) as nat)
        }
    } else {
        brace_close(s, i + 1, d)
    }
}

/// A braced group with nesting: `{`, text whose braces balance, and the `}` that
/// closes the first. Gives the length consumed and the inner text.
pub open spec fn spec_braced(s: Seq<char>) -> Option<(int, Seq<char>)> {
    if s.len() > 0 && s[0] == '{' {
        let e = brace_close(s, 1, 1);
        if e >= 1 {
            Some((e + 1, s.subrange(1, e)))
        } else {
            None
        }
    } else {
        None
    }
}

/// How a scanner that yields a piece of text relates to its spec: on a match the
/// rest and the piece are the spec's, else the input is refused.
pub open spec fn text_result(
    r: Result<(&str, &str), ParseError>,
    s: Seq<char>,
    m: Option<(int, Seq<char>)>,
) -> bool {
    match m {
        Some((n, v)) => r is Ok && r->Ok_0.0@ == s.subrange(n, s.len() as int) && r->Ok_0.1@ == v,
        None => r is Err && r->Err_0 is Mismatch,
    }
}

/// Where a group that opens with `open` fails: at the end of the input when `s`
/// opens with it and the group is never closed, else at `s` itself.
pub open spec fn group_error_at(s: Seq<char>, open: char) -> Seq<char> {
    if s.len() > 0 && s[0] == open {
        Seq::empty()
    } else {
        s
    }
}

/// The text that a failure is anchored at.
pub open spec fn error_at(e: ParseError) -> Seq<char> {
    match e {
        ParseError::Mismatch(at) => at@,
        ParseError::UnknownType(ty) => ty@,
    }
}

/// Whether `s` starts with `p`.
pub open spec fn starts_with(s: Seq<char>, p: Seq<char>) -> bool {
    p.len() <= s.len() && s.subrange(0, p.len() as int) == p
}

/// How a parse went, over sequences: what is left and what was read, a refusal
/// with the text at which matching failed, or a type without a known width.
pub ghost enum Outcome<T> {
    Parsed(Seq<char>, T),
    Refused(Seq<char>),
    BadType(Seq<char>),
}

/// How a parser's result relates to the outcome its spec gives.
pub open spec fn outcome_result<T: View>(r: Result<(&str, T), ParseError>, o: Outcome<T::V>) -> bool {
    match o {
        Outcome::Parsed(rest, v) => r is Ok && r->Ok_0.0@ == rest && r->Ok_0.1@ == v,
        Outcome::Refused(at) => r is Err && r->Err_0 is Mismatch && error_at(r->Err_0) == at,
        Outcome::BadType(ty) => r is Err && r->Err_0 is UnknownType && error_at(r->Err_0) == ty,
    }
}

/// `s` after the run of characters of class `k` at its start.
pub open spec fn after_run(s: Seq<char>, k: CharClass) -> Seq<char> {
    s.subrange(run_end(s, 0, k), s.len() as int)
}

/// Whether `s` starts with `p`.
pub fn starts_with_text(s: &str, p: &str) -> (r: bool)
    ensures
        r == starts_with(s@, p@),
{
    let n = p.unicode_len();
    if n > s.unicode_len() {
        return false;
    }
    let mut i: usize = 0;
    while i < n
        invariant
            n == p@.len() <= s@.len(),
            i <= n,
            forall|j: int| 0 <= j < i ==> s@[j] == p@[j],
        decreases n - i,
    {
        if s.get_char(i) != p.get_char(i) {
            assert(s@.subrange(0, n as int)[i as int] != p@[i as int]);
            return false;
        }
        i = i + 1;
    }
    assert(s@.subrange(0, n as int) =~= p@);
    true
}

/// Skips the run of characters of class `k` at the start of `input`.
pub fn skip_run<'a>(input: &'a str, k: CharClass) -> (r: &'a str)
    ensures
        r@ == after_run(input@, k),
        r@.len() <= input@.len(),
{
    let len = input.unicode_len();
    let e = scan_class(input, len, 0, k);
    input.substring_char(e, len)
}

/// Recognises a name: the longest nonempty run of characters that are neither
/// white space nor punctuation.
pub fn parse_name<'a>(input: &'a str) -> (r: Result<(&'a str, &'a str), ParseError<'a>>)
    ensures
        r is Ok ==> r->Ok_0.0@.len() < input@.len(),
        text_result(r, input@, spec_name(input@)),
        r is Err ==> error_at(r->Err_0) == input@,
{
    let len = input.unicode_len();
    let e = scan_class(input, len, 0, CharClass::Name);
    if e > 0 {
        Ok((input.substring_char(e, len), input.substring_char(0, e)))
    } else {
        Err(ParseError::Mismatch(input))
    }
}

/// Recognises `(`, any text, and the first `)` after it; nested
/// parentheses are not tracked. Fails at the end of the input when no `)` comes.
pub fn parse_parenthesized_naive<'a>(input: &'a str) -> (r: Result<(&'a str, &'a str), ParseError<'a>>)
    ensures
        r is Ok ==> r->Ok_0.0@.len() < input@.len(),
        text_result(r, input@, spec_paren(input@)),
        r is Err ==> error_at(r->Err_0) == group_error_at(input@, '('),
{
    let len = input.unicode_len();
    if len == 0 || input.get_char(0) != '(' {
        return Err(ParseError::Mismatch(input));
    }
    let e = scan_class(input, len, 1, CharClass::NotCloseParen);
    if e == len {
        Err(ParseError::Mismatch(input.substring_char(len, len)))
    } else {
        Ok((input.substring_char(e + 1, len), input.substring_char(1, e)))
    }
}

/// Recognises `{`, a nonempty run of text, and the first `}` after it; nested
/// braces are not tracked. Fails at the end of the input when no `}` comes.
pub fn parse_braced_naive<'a>(input: &'a str) -> (r: Result<(&'a str, &'a str), ParseError<'a>>)
    ensures
        r is Ok ==> r->Ok_0.0@.len() < input@.len(),
        text_result(r, input@, spec_braced_naive(input@)),
        r is Err ==> error_at(r->Err_0) == if input@.len() > 1 && input@[0] == '{' && input@[1]
            != '}' {
            Seq::<char>::empty()
        } else {
            input@
        },
{
    let len = input.unicode_len();
    if len == 0 || input.get_char(0) != '{' {
        return Err(ParseError::Mismatch(input));
    }
    proof {
        if len > 1 {
            lemma_run_end(input@, 2, CharClass::NotCloseBrace);
        }
    }
    let e = scan_class(input, len, 1, CharClass::NotCloseBrace);
    if e == 1 {
        Err(ParseError::Mismatch(input))
    } else if e == len {
        Err(ParseError::Mismatch(input.substring_char(len, len)))
    } else {
        Ok((input.substring_char(e + 1, len), input.substring_char(1, e)))
    }
}

/// Recognises `{`, text in which braces nest, and the `}` that closes the first
/// one. Fails at the end of the input when the braces never balance.
pub fn parse_braced_balanced<'a>(input: &'a str) -> (r: Result<(&'a str, &'a str), ParseError<'a>>)
    ensures
        r is Ok ==> r->Ok_0.0@.len() < input@.len(),
        text_result(r, input@, spec_braced(input@)),
        r is Err ==> error_at(r->Err_0) == group_error_at(input@, '{'),
{
    let len = input.unicode_len();
    if len == 0 || input.get_char(0) != '{' {
        return Err(ParseError::Mismatch(input));
    }
    let mut it = input.chars();
    let _ = it.next();
    let mut depth: usize = 1;
    let mut j: usize = 1;
    let mut end: usize = 0;
    while j < len && end == 0
        invariant
            len == input@.len(),
            end == 0 ==> vstd::std_specs::iter::IteratorSpec::remaining(&it) == input@.subrange(
                j as int,
                len as int,
            ),
            1 <= j <= len,
            1 <= depth <= j,
            end == 0 ==> brace_close(input@, 1, 1) == brace_close(input@, j as int, depth as nat),
            end != 0 ==> end == brace_close(input@, 1, 1) && 1 <= end < len,
        decreases len - j + (if end == 0 { 1int } else { 0int }),
    {
        match it.next() {
            Some(c) => {
                assert(c == input@[j as int]);
                if c == '{' {
                    depth = depth + 1;
                    j = j + 1;
                } else if c == '}' {
                    if depth == 1 {
                        end = j;
                    } else {
                        depth = depth - 1;
                        j = j + 1;
                    }
                } else {
                    j = j + 1;
                }
            },
            None => {},
        }
    }
    if end == 0 {
        Err(ParseError::Mismatch(input.substring_char(len, len)))
    } else {
        Ok((input.substring_char(end + 1, len), input.substring_char(1, end)))
    }
}

} // verus!
