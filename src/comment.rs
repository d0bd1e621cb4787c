//! Comments, and the runs of comments and white space between tokens.
use vstd::prelude::*;
use crate::scan::{CharClass, ParseError, run_end, lemma_run_end, scan_class};

verus! {

/// A comment, holding its text without the markers.
#[derive(Debug, PartialEq, Eq)]
pub enum Comment<'a> {
    /// `//` up to the end of the line; the line feed is not part of it.
    Line(&'a str),
    /// `/*` up to the first `*/`; may span lines.
    Block(&'a str),
}

/// A comment's kind and text.
pub ghost enum CommentView {
    Line(Seq<char>),
    Block(Seq<char>),
}

impl<'a> View for Comment<'a> {
    type V = CommentView;

    open spec fn view(&self) -> CommentView {
        match self {
            Comment::Line(t) => CommentView::Line(t@),
            Comment::Block(t) => CommentView::Block(t@),
        }
    }
}

/// Index of the first `*/` at or after `i`, or -1.
pub open spec fn block_end(s: Seq<char>, i: int) -> int
    decreases s.len() - i,
{
    if i < 0 || i + 1 >= s.len() {
        -1
    } else if s[i] == '*' && s[i + 1] == '/' {
        i
    } else {
        block_end(s, i + 1)
    }
}

/// `block_end` is -1 or the index of a `*/` with none before it from `i`.
pub proof fn lemma_block_end(s: Seq<char>, i: int)
    requires
        0 <= i,
    ensures
        block_end(s, i) == -1 || (i <= block_end(s, i) && block_end(s, i) + 1 < s.len()),
        block_end(s, i) != -1 ==> s[block_end(s, i)] == '*' && s[block_end(s, i) + 1] == '/',
        forall|j: int|
            i <= j && (block_end(s, i) == -1 || j < block_end(s, i)) && j + 1 < s.len() ==> !(
            #[trigger] s[j] == '*' && s[j + 1] == '/'),
    decreases s.len() - i,
{
    if i + 1 < s.len() && !(s[i] == '*' && s[i + 1] == '/') {
        lemma_block_end(s, i + 1);
    }
}

/// A comment at the start of `s`: the length consumed and the comment.
pub open spec fn spec_comment(s: Seq<char>) -> Option<(int, CommentView)> {
    if s.len() >= 2 && s[0] == '/' && s[1] == '/' {
        let e = run_end(s, 2, CharClass::NotNewline);
        Some((e, CommentView::Line(s.subrange(2, e))))
    } else if s.len() >= 2 && s[0] == '/' && s[1] == '*' {
        let e = block_end(s, 2);
        if e >= 2 {
            Some((e + 2, CommentView::Block(s.subrange(2, e))))
        } else {
            None
        }
    } else {
        None
    }
}

/// The length of one stretch at the start of `s`: a run of spaces, tabs and line
/// breaks, or else one comment.
pub open spec fn spec_stretch(s: Seq<char>) -> Option<int> {
    let w = run_end(s, 0, CharClass::Space);
    if w > 0 {
        Some(w)
    } else {
        match spec_comment(s) {
            Some((n, _)) => Some(n),
            None => None,
        }
    }
}

/// The text a stretch yields: the run itself, or the comment's text.
pub open spec fn stretch_text(s: Seq<char>) -> Seq<char> {
    let w = run_end(s, 0, CharClass::Space);
    if w > 0 {
        s.subrange(0, w)
    } else {
        match spec_comment(s) {
            Some((_, CommentView::Line(t))) => t,
            Some((_, CommentView::Block(t))) => t,
            None => Seq::empty(),
        }
    }
}

/// Skips stretches for as long as one starts: the length consumed and how many
/// stretches were found.
pub open spec fn spec_skip(s: Seq<char>) -> (int, nat)
    decreases s.len(),
{
    match spec_stretch(s) {
        Some(n) => if 0 < n <= s.len() {
            let t = spec_skip(s.subrange(n, s.len() as int));
            (n + t.0, t.1 + 1)
        } else {
            (0, 0)
        },
        None => (0, 0),
    }
}

/// A comment consumes at least its two-character opener and no more than `s`.
pub proof fn lemma_comment_bounds(s: Seq<char>)
    ensures
        spec_comment(s) matches Some((n, _)) ==> 2 <= n <= s.len(),
{
    if s.len() >= 2 {
        lemma_run_end(s, 2, CharClass::NotNewline);
        lemma_block_end(s, 2);
    }
}

/// A stretch is nonempty and lies within `s`.
pub proof fn lemma_stretch_bounds(s: Seq<char>)
    ensures
        spec_stretch(s) matches Some(n) ==> 0 < n <= s.len(),
{
    lemma_run_end(s, 0, CharClass::Space);
    lemma_comment_bounds(s);
}

/// Skipping stays within `s`, counts no more stretches than characters, and
/// stops where no stretch starts.
pub proof fn lemma_skip(s: Seq<char>)
    ensures
        0 <= spec_skip(s).0 <= s.len(),
        spec_skip(s).1 <= spec_skip(s).0,
        spec_stretch(s.subrange(spec_skip(s).0, s.len() as int)) is None,
    decreases s.len(),
{
    lemma_stretch_bounds(s);
    if let Some(n) = spec_stretch(s) {
        let t = s.subrange(n, s.len() as int);
        lemma_skip(t);
        assert(t.subrange(spec_skip(t).0, t.len() as int) =~= s.subrange(
            spec_skip(s).0,
            s.len() as int,
        ));
    } else {
        assert(s.subrange(0, s.len() as int) =~= s);
    }
}

/// Skipping from a stretch is that stretch and the skipping after it.
pub proof fn lemma_skip_step(s: Seq<char>)
    requires
        spec_stretch(s) is Some,
    ensures
        0 < spec_stretch(s)->0 <= s.len(),
        spec_skip(s).0 == spec_stretch(s)->0 + spec_skip(
            s.subrange(spec_stretch(s)->0, s.len() as int),
        ).0,
        spec_skip(s).1 == 1 + spec_skip(s.subrange(spec_stretch(s)->0, s.len() as int)).1,
{
    lemma_stretch_bounds(s);
}

/// Recognises one comment. A `/` followed by neither `/` nor `*` is refused, as is
/// a block comment that is never closed.
pub fn parse_line_comment<'a>(input: &'a str) -> (r: Result<(&'a str, Comment<'a>), ParseError<'a>>)
    ensures
        match spec_comment(input@) {
            Some((n, c)) => r is Ok && r->Ok_0.0@ == input@.subrange(n, input@.len() as int)
                && r->Ok_0.1@ == c,
            None => r == Err::<(&str, Comment), ParseError>(ParseError::Mismatch(input)),
        },
{
    let len = input.unicode_len();
    if len < 2 || input.get_char(0) != '/' {
        return Err(ParseError::Mismatch(input));
    }
    let second = input.get_char(1);
    if second == '/' {
        let e = scan_class(input, len, 2, CharClass::NotNewline);
        Ok((input.substring_char(e, len), Comment::Line(input.substring_char(2, e))))
    } else if second == '*' {
        let mut it = input.chars();
        let _ = it.next();
        let _ = it.next();
        let mut j: usize = 2;
        let mut prev_star = false;
        let mut found = false;
        while j < len && !found
            invariant
                len == input@.len(),
                2 <= j <= len,
                !found ==> vstd::std_specs::iter::IteratorSpec::remaining(&it) == input@.subrange(
                    j as int,
                    len as int,
                ),
                !found ==> prev_star == (j >= 3 && input@[j - 1] == '*'),
                !found ==> block_end(input@, 2) == block_end(
                    input@,
                    if j >= 3 { j - 1 } else { 2 },
                ),
                found ==> 3 <= j < len && block_end(input@, 2) == j - 1,
            decreases len - j + (if found { 0int } else { 1int }),
        {
            match it.next() {
                Some(c) => {
                    assert(c == input@[j as int]);
                    if prev_star && c == '/' {
                        found = true;
                    } else {
                        prev_star = c == '*';
                        j = j + 1;
                    }
                },
                None => {},
            }
        }
        if found {
            proof {
                lemma_block_end(input@, 2);
            }
            Ok((input.substring_char(j + 1, len), Comment::Block(input.substring_char(2, j - 1))))
        } else {
            Err(ParseError::Mismatch(input))
        }
    } else {
        Err(ParseError::Mismatch(input))
    }
}

/// Recognises one stretch: a run of spaces, tabs and line breaks, or a comment.
/// Gives the run, or the comment's text.
pub fn comment_or_whitespace<'a>(input: &'a str) -> (r: Result<(&'a str, &'a str), ParseError<'a>>)
    ensures
        match spec_stretch(input@) {
            Some(n) => r is Ok && r->Ok_0.0@ == input@.subrange(n, input@.len() as int),
            None => r == Err::<(&str, &str), ParseError>(ParseError::Mismatch(input)),
        },
        r is Ok ==> r->Ok_0.1@ == stretch_text(input@),
{
    let len = input.unicode_len();
    let w = scan_class(input, len, 0, CharClass::Space);
    if w > 0 {
        return Ok((input.substring_char(w, len), input.substring_char(0, w)));
    }
    match parse_line_comment(input) {
        Ok((rest, Comment::Line(t))) => Ok((rest, t)),
        Ok((rest, Comment::Block(t))) => Ok((rest, t)),
        Err(e) => Err(e),
    }
}

/// Skips one or more stretches of white space and comments, as many as follow
/// each other, and counts them. Refuses input that starts with neither.
pub fn many1_comments_or_whitespace<'a>(input: &'a str) -> (r: Result<(&'a str, usize), ParseError<'a>>)
    ensures
        spec_skip(input@).1 > 0 <==> r is Ok,
        r is Ok ==> r->Ok_0.0@ == input@.subrange(spec_skip(input@).0, input@.len() as int)
            && r->Ok_0.1 == spec_skip(input@).1,
        r is Ok ==> spec_stretch(r->Ok_0.0@) is None,
        r is Err ==> r->Err_0 == ParseError::Mismatch(input),
{
    let len = input.unicode_len();
    let mut cur = input;
    let mut count: usize = 0;
    let ghost mut consumed: int = 0;
    let mut done = false;
    proof {
        lemma_skip(input@);
        assert(input@.subrange(0, input@.len() as int) =~= input@);
    }
    while !done
        invariant
            len == input@.len(),
            0 <= consumed <= input@.len(),
            count <= consumed,
            cur@ == input@.subrange(consumed, input@.len() as int),
            spec_skip(input@).0 == consumed + spec_skip(cur@).0,
            spec_skip(input@).1 == count + spec_skip(cur@).1,
            done ==> spec_stretch(cur@) is None,
        decreases cur@.len() + (if done { 0int } else { 1int }),
    {
        proof {
            lemma_stretch_bounds(cur@);
        }
        match comment_or_whitespace(cur) {
            Ok((rest, _)) => {
                let ghost n = spec_stretch(cur@)->0;
                proof {
                    lemma_skip_step(cur@);
                    assert(cur@.subrange(n, cur@.len() as int) =~= input@.subrange(
                        consumed + n,
                        input@.len() as int,
                    ));
                    consumed = consumed + n;
                }
                cur = rest;
                count = count + 1;
            },
            Err(_) => {
                done = true;
            },
        }
    }
    proof {
        lemma_skip(cur@);
    }
    if count == 0 {
        Err(ParseError::Mismatch(input))
    } else {
        Ok((cur, count))
    }
}


/// `s` after the comments and white space at its start, if any.
pub open spec fn after_skip(s: Seq<char>) -> Seq<char> {
    s.subrange(spec_skip(s).0, s.len() as int)
}

/// Skips whatever comments and white space start `input`; none is fine.
pub fn skip_comments_and_whitespace<'a>(input: &'a str) -> (r: &'a str)
    ensures
        r@ == after_skip(input@),
        r@.len() <= input@.len(),
{
    proof {
        lemma_skip(input@);
    }
    match many1_comments_or_whitespace(input) {
        Ok((rest, _)) => rest,
        Err(_) => {
            assert(input@.subrange(0, input@.len() as int) =~= input@);
            input
        },
    }
}

} // verus!
