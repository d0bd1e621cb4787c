//! Properties that relate the parsers' specifications, proved for all inputs.
use vstd::prelude::*;
use crate::function::{
    FunctionView, SignatureView, spec_body, spec_function, spec_marker, spec_param_clause,
    spec_signature,
};
use crate::scan::{
    CharClass, Outcome, after_run, brace_close, in_class, lemma_run_end, run_end, spec_braced,
    spec_name, spec_paren, starts_with,
};
use crate::params::{
    decode_from, decode_line, decode_params, prepend, strip_comma, trim_back, trimmed, type_size,
};
use crate::function::ParameterView;
use crate::comment::{
    CommentView, after_skip, block_end, lemma_stretch_bounds, spec_comment, spec_skip,
    spec_stretch,
};

verus! {

/// `run_end` from `i` is `j` when every character in between is in the class and
/// the one at `j`, if any, is not.
pub proof fn lemma_run_end_at(s: Seq<char>, i: int, j: int, k: CharClass)
    requires
        0 <= i <= j <= s.len(),
        forall|m: int| i <= m < j ==> in_class(k, #[trigger] s[m]),
        j == s.len() || !in_class(k, s[j]),
    ensures
        run_end(s, i, k) == j,
    decreases j - i,
{
    if i < j {
        lemma_run_end_at(s, i + 1, j, k);
    }
}

/// `block_end` from `i` is `j` when `*/` first occurs at `j`.
pub proof fn lemma_block_end_at(s: Seq<char>, i: int, j: int)
    requires
        0 <= i <= j,
        j + 1 < s.len(),
        s[j] == '*' && s[j + 1] == '/',
        forall|m: int| i <= m < j ==> !(#[trigger] s[m] == '*' && s[m + 1] == '/'),
    ensures
        block_end(s, i) == j,
    decreases j - i,
{
    if i < j {
        lemma_block_end_at(s, i + 1, j);
    }
}

/// A line comment holds the rest of its line and leaves the line feed that ends
/// it, if any, to what follows.
pub proof fn law_line_comment(t: Seq<char>, r: Seq<char>)
    requires
        forall|i: int| 0 <= i < t.len() ==> #[trigger] t[i] != '\n',
        r.len() == 0 || r[0] == '\n',
    ensures
        spec_comment(seq!['/', '/'] + t + r) == Some(
            ((t.len() as int + 2) as int, CommentView::Line(t)),
        ),
{
    let s = seq!['/', '/'] + t + r;
    assert forall|m: int| 2 <= m < t.len() as int + 2 implies in_class(CharClass::NotNewline, #[trigger] s[m]) by {
        assert(s[m] == t[m - 2]);
    }
    if r.len() > 0 {
        assert(s[t.len() as int + 2] == r[0]);
    }
    lemma_run_end_at(s, 2, t.len() as int + 2, CharClass::NotNewline);
    assert(s.subrange(2, t.len() as int + 2) =~= t);
}

/// A block comment holds everything up to the first `*/`, line feeds included.
pub proof fn law_block_comment(t: Seq<char>, r: Seq<char>)
    requires
        forall|i: int| 0 <= i && i + 1 < t.len() ==> !(#[trigger] t[i] == '*' && t[i + 1] == '/'),
    ensures
        spec_comment(seq!['/', '*'] + t + seq!['*', '/'] + r) == Some(
            ((t.len() as int + 4) as int, CommentView::Block(t)),
        ),
{
    let s = seq!['/', '*'] + t + seq!['*', '/'] + r;
    let j = t.len() as int + 2;
    assert(s[j] == '*' && s[j + 1] == '/');
    assert forall|m: int| 2 <= m < j implies !(#[trigger] s[m] == '*' && s[m + 1] == '/') by {
        assert(s[m] == t[m - 2]);
        if m + 1 < j {
            assert(s[m + 1] == t[m - 1]);
        } else {
            assert(s[m + 1] == '*');
        }
    }
    lemma_block_end_at(s, 2, j);
    assert(s.subrange(2, j) =~= t);
}

/// `ps` joined end to end.
pub open spec fn joined(ps: Seq<Seq<char>>) -> Seq<char>
    decreases ps.len(),
{
    if ps.len() == 0 {
        Seq::empty()
    } else {
        ps[0] + joined(ps.drop_first())
    }
}

/// Input made only of stretches, each of which is read whole where it stands, is
/// skipped entirely, and the count is the number of stretches.
pub proof fn law_skip_consumes_stretches(ps: Seq<Seq<char>>)
    requires
        forall|i: int|
            0 <= i < ps.len() ==> spec_stretch(#[trigger] joined(ps.subrange(i, ps.len() as int)))
                == Some(ps[i].len() as int),
    ensures
        spec_skip(joined(ps)) == (joined(ps).len() as int, ps.len()),
    decreases ps.len(),
{
    if ps.len() > 0 {
        let s = joined(ps);
        let tail = ps.drop_first();
        assert(ps.subrange(0, ps.len() as int) =~= ps);
        assert forall|i: int| 0 <= i < tail.len() implies spec_stretch(
            #[trigger] joined(tail.subrange(i, tail.len() as int)),
        ) == Some(tail[i].len() as int) by {
            assert(tail.subrange(i, tail.len() as int) =~= ps.subrange(i + 1, ps.len() as int));
            assert(spec_stretch(joined(ps.subrange(i + 1, ps.len() as int))) == Some(
                ps[i + 1].len() as int,
            ));
        }
        law_skip_consumes_stretches(tail);
        lemma_stretch_bounds(s);
        assert(s.subrange(ps[0].len() as int, s.len() as int) =~= joined(tail));
    }
}

/// Wrapping what a parenthesised group captured in one more pair of parentheses
/// captures the same text again, whatever follows.
pub proof fn law_paren_rewrap(s: Seq<char>, n: int, t: Seq<char>, r: Seq<char>)
    requires
        spec_paren(s) == Some((n, t)),
    ensures
        spec_paren(seq!['('] + t + seq![')'] + r) == Some(((t.len() as int + 2) as int, t)),
{
    lemma_run_end(s, 1, CharClass::NotCloseParen);
    let w = seq!['('] + t + seq![')'] + r;
    assert forall|m: int| 1 <= m < t.len() as int + 1 implies in_class(CharClass::NotCloseParen, #[trigger] w[m]) by {
        assert(w[m] == t[m - 1]);
        assert(t[m - 1] == s[m]);
    }
    assert(w[t.len() as int + 1] == ')');
    lemma_run_end_at(w, 1, t.len() as int + 1, CharClass::NotCloseParen);
    assert(w.subrange(1, t.len() as int + 1) =~= t);
}

/// Nesting depth after the first `i` characters of `t`: opening braces less
/// closing ones.
pub open spec fn depth(t: Seq<char>, i: int) -> int
    decreases i,
{
    if i <= 0 || i > t.len() {
        0
    } else {
        depth(t, i - 1) + if t[i - 1] == '{' {
            1int
        } else if t[i - 1] == '}' {
            -1int
        } else {
            0int
        }
    }
}

/// Whether the braces in `t` balance: the depth never drops below zero and ends
/// at zero.
pub open spec fn balanced(t: Seq<char>) -> bool {
    depth(t, t.len() as int) == 0 && forall|i: int| 0 <= i <= t.len() ==> #[trigger] depth(t, i) >= 0
}

/// Inside `{t}` with `t` balanced, the closing brace is the one after `t`,
/// from any point of `t` at the depth reached there.
proof fn lemma_close_after(t: Seq<char>, r: Seq<char>, i: int)
    requires
        balanced(t),
        0 <= i <= t.len(),
    ensures
        brace_close(seq!['{'] + t + seq!['}'] + r, i + 1, (1 + depth(t, i)) as nat) == t.len() as int + 1,
    decreases t.len() - i,
{
    let s = seq!['{'] + t + seq!['}'] + r;
    assert(depth(t, i) >= 0);
    if i == t.len() {
        assert(s[i + 1] == '}');
    } else {
        assert(s[i + 1] == t[i]);
        assert(depth(t, i + 1) >= 0);
        lemma_close_after(t, r, i + 1);
    }
}

/// A balanced brace group captures everything between its outer braces, nested
/// braces included, and leaves what follows it untouched.
pub proof fn law_braced_balanced(t: Seq<char>, r: Seq<char>)
    requires
        balanced(t),
    ensures
        spec_braced(seq!['{'] + t + seq!['}'] + r) == Some(((t.len() as int + 2) as int, t)),
{
    let s = seq!['{'] + t + seq!['}'] + r;
    lemma_close_after(t, r, 0);
    assert(s.subrange(1, t.len() as int + 1) =~= t);
}


/// A function whose signature is followed, past comments and white space, by `;`
/// has no body; what follows the `;` is left.
pub proof fn law_function_without_body(s: Seq<char>, t: Seq<char>, sig: SignatureView, r: Seq<char>)
    requires
        spec_signature(s) == Outcome::Parsed(t, sig),
        after_skip(t) == seq![';'] + r,
    ensures
        spec_function(s) == Outcome::Parsed(r, FunctionView { signature: sig, body: None }),
{
    assert(after_skip(t).subrange(1, after_skip(t).len() as int) =~= r);
}

/// A function whose signature is followed, past comments and white space, by a
/// balanced brace group has that group's inner text, nested braces included, as
/// its body.
pub proof fn law_function_with_body(
    s: Seq<char>,
    t: Seq<char>,
    sig: SignatureView,
    b: Seq<char>,
    r: Seq<char>,
)
    requires
        spec_signature(s) == Outcome::Parsed(t, sig),
        after_skip(t) == seq!['{'] + b + seq!['}'] + r,
        balanced(b),
    ensures
        spec_function(s) == Outcome::Parsed(r, FunctionView { signature: sig, body: Some(Some(b)) }),
{
    law_braced_balanced(b, r);
    let u = after_skip(t);
    assert(u[0] == '{');
    assert(u.subrange(b.len() as int + 2, u.len() as int) =~= r);
    assert(spec_body(u) == Some((r, b)));
}

/// A signature sets its two flags together, and sets them exactly when it opens
/// with `.visible`.
pub proof fn law_signature_flags(s: Seq<char>, t: Seq<char>, sig: SignatureView)
    requires
        spec_signature(s) == Outcome::Parsed(t, sig),
    ensures
        sig.visible == sig.entry,
        sig.visible == starts_with(s, ".visible"@),
{
    reveal_strlit(".visible");
    reveal_strlit(".func");
    if starts_with(s, ".func"@) && starts_with(s, ".visible"@) {
        assert(s.subrange(0, 5)[1] == s[1]);
        assert(s.subrange(0, 8)[1] == s[1]);
        assert(".func"@[1] == 'f');
        assert(".visible"@[1] == 'v');
    }
}


/// Whether `n` can stand as a name: nonempty, with no white space or punctuation.
pub open spec fn is_name(n: Seq<char>) -> bool {
    n.len() > 0 && forall|i: int| 0 <= i < n.len() ==> in_class(CharClass::Name, #[trigger] n[i])
}

/// Nothing is skipped in empty text.
proof fn lemma_skip_empty()
    ensures
        after_skip(Seq::<char>::empty()) == Seq::<char>::empty(),
{
    let e = Seq::<char>::empty();
    lemma_run_end_at(e, 0, 0, CharClass::Space);
    assert(e.subrange(0, 0) =~= e);
}

/// How the steps after the marker read a bare name.
proof fn lemma_name_tail(n: Seq<char>)
    requires
        is_name(n),
    ensures
        after_run(n, CharClass::Blank) == n,
        spec_paren(n) is None,
        spec_name(n) == Some((n.len() as int, n)),
        spec_param_clause(Seq::<char>::empty()) == Outcome::Parsed(Seq::<char>::empty(), None::<crate::function::ParametersView>),
{
    assert(in_class(CharClass::Name, n[0]));
    lemma_run_end_at(n, 0, 0, CharClass::Blank);
    assert(n.subrange(0, n.len() as int) =~= n);
    lemma_run_end_at(n, 0, n.len() as int, CharClass::Name);
    let e = Seq::<char>::empty();
    lemma_run_end_at(e, 0, 0, CharClass::Space);
}

/// `.func`, a space and a name give a signature with neither flag, no
/// return-value group and no parameters, and leave nothing.
pub proof fn law_func_signature(n: Seq<char>)
    requires
        is_name(n),
    ensures
        spec_signature(".func "@ + n) == Outcome::Parsed(
            Seq::<char>::empty(),
            SignatureView { visible: false, entry: false, return_value: None, name: n, parameters: None },
        ),
{
    reveal_strlit(".func ");
    reveal_strlit(".func");
    reveal_strlit(".visible");
    let s = ".func "@ + n;
    if s.len() >= 8 {
        assert(s.subrange(0, 8)[1] == s[1]);
    }
    assert(!starts_with(s, ".visible"@));
    assert(s.subrange(0, 5) =~= ".func"@);
    let t0 = s.subrange(5, s.len() as int);
    assert(t0 =~= seq![' '] + n);
    assert(spec_marker(s) == Some((t0, false)));
    assert(in_class(CharClass::Name, n[0]));
    assert(t0[1] == n[0]);
    lemma_run_end_at(t0, 0, 1, CharClass::Blank);
    assert(after_run(t0, CharClass::Blank) =~= n);
    lemma_name_tail(n);
    assert(n.subrange(n.len() as int, n.len() as int) =~= Seq::<char>::empty());
    lemma_skip_empty();
}

/// `.visible .entry`, a space and a name give a signature with both flags, no
/// return-value group and no parameters, and leave nothing.
pub proof fn law_visible_entry_signature(n: Seq<char>)
    requires
        is_name(n),
    ensures
        spec_signature(".visible .entry "@ + n) == Outcome::Parsed(
            Seq::<char>::empty(),
            SignatureView { visible: true, entry: true, return_value: None, name: n, parameters: None },
        ),
{
    reveal_strlit(".visible .entry ");
    reveal_strlit(".entry ");
    reveal_strlit(".entry");
    reveal_strlit(".visible");
    let s = ".visible .entry "@ + n;
    assert(s.subrange(0, 8) =~= ".visible"@);
    let t = s.subrange(8, s.len() as int);
    assert(t =~= seq![' '] + ".entry "@ + n);
    lemma_run_end_at(t, 0, 1, CharClass::Blank);
    let u = after_run(t, CharClass::Blank);
    assert(u =~= ".entry "@ + n);
    assert(u.subrange(0, 6) =~= ".entry"@);
    let t0 = u.subrange(6, u.len() as int);
    assert(t0 =~= seq![' '] + n);
    assert(spec_marker(s) == Some((t0, true)));
    assert(in_class(CharClass::Name, n[0]));
    assert(t0[1] == n[0]);
    lemma_run_end_at(t0, 0, 1, CharClass::Blank);
    assert(after_run(t0, CharClass::Blank) =~= n);
    lemma_name_tail(n);
    assert(n.subrange(n.len() as int, n.len() as int) =~= Seq::<char>::empty());
    lemma_skip_empty();
}


/// A line that is one word, with no white space in it, decodes to no parameter.
pub proof fn law_single_word_line(w: Seq<char>)
    requires
        forall|i: int| 0 <= i < w.len() ==> !crate::scan::is_white(#[trigger] w[i]),
    ensures
        decode_line(w) is None,
{
    lemma_run_end_at(w, 0, 0, CharClass::White);
    assert(trim_back(w, w.len() as int, 0) == w.len());
    assert(w.subrange(0, w.len() as int) =~= w);
    assert(trimmed(w) == w);
    let t = strip_comma(w);
    assert forall|i: int| 0 <= i < t.len() implies in_class(CharClass::NotSpace, #[trigger] t[i]) by {
        assert(t[i] == w[i]);
    }
    lemma_run_end_at(t, 0, t.len() as int, CharClass::NotSpace);
}

/// The line `.param .b64 NAME` after `lead`, with or without a trailing comma.
pub open spec fn b64_line(lead: Seq<char>, n: Seq<char>, comma: bool) -> Seq<char> {
    lead + ".param .b64 "@ + n + if comma {
        seq![',']
    } else {
        Seq::<char>::empty()
    }
}

/// The parameter that `.param .b64 NAME` stands for.
pub open spec fn b64_param(n: Seq<char>) -> ParameterView {
    ParameterView { name: n, ty: ".b64"@, size: 8, raw: ".param .b64 "@ + n }
}

/// Whether `n` can name a parameter: nonempty, with no white space or comma.
pub open spec fn is_param_name(n: Seq<char>) -> bool {
    n.len() > 0 && forall|i: int|
        0 <= i < n.len() ==> !crate::scan::is_white(#[trigger] n[i]) && n[i] != ','
}

/// A line `.param .b64 NAME`, indented by white space and ended by a comma or
/// not, decodes to a parameter named NAME, of type `.b64` and width 8, whose
/// text is the line without its indent and comma.
pub proof fn law_b64_param_line(lead: Seq<char>, n: Seq<char>, comma: bool)
    requires
        forall|i: int| 0 <= i < lead.len() ==> crate::scan::is_white(#[trigger] lead[i]),
        is_param_name(n),
    ensures
        decode_line(b64_line(lead, n, comma)) == Some(Ok::<ParameterView, Seq<char>>(b64_param(n))),
{
    reveal_strlit(".param .b64 ");
    reveal_strlit(".b64");
    reveal_strlit(".s8");
    reveal_strlit(".u8");
    reveal_strlit(".b8");
    reveal_strlit(".s16");
    reveal_strlit(".u16");
    reveal_strlit(".f16");
    reveal_strlit(".b16");
    reveal_strlit(".s32");
    reveal_strlit(".u32");
    reveal_strlit(".f16x2");
    reveal_strlit(".f32");
    reveal_strlit(".b32");
    reveal_strlit(".s64");
    reveal_strlit(".u64");
    reveal_strlit(".f64");
    let b = ".b64"@;
    assert(b[1] != ".s64"@[1]);
    assert(b[1] != ".u64"@[1]);
    assert(b[1] != ".f64"@[1]);
    assert(b[2] != ".b32"@[2]);
    assert(b[2] != ".s32"@[2]);
    assert(b[2] != ".u32"@[2]);
    assert(b[2] != ".f32"@[2]);
    assert(b[2] != ".s16"@[2]);
    assert(b[2] != ".u16"@[2]);
    assert(b[2] != ".f16"@[2]);
    assert(b[2] != ".b16"@[2]);
    assert(type_size(b) == Some(8nat));
    let line = ".param .b64 "@ + n;
    let tail = if comma { seq![','] } else { Seq::<char>::empty() };
    let w = b64_line(lead, n, comma);
    assert(w =~= lead + (line + tail));
    assert forall|m: int| 0 <= m < lead.len() implies in_class(CharClass::White, #[trigger] w[m]) by {
        assert(w[m] == lead[m]);
    }
    assert(w[lead.len() as int] == '.');
    lemma_run_end_at(w, 0, lead.len() as int, CharClass::White);
    if comma {
        assert(w[w.len() - 1] == ',');
    } else {
        assert(w[w.len() - 1] == n[n.len() - 1]);
    }
    assert(trim_back(w, w.len() as int, lead.len() as int) == w.len());
    assert(trimmed(w) =~= line + tail);
    if comma {
        assert((line + tail).drop_last() =~= line);
    } else {
        assert(line + tail =~= line);
        assert(line.last() == n[n.len() - 1]);
    }
    let t = strip_comma(line + tail);
    assert(t == line);
    assert forall|m: int| 0 <= m < 6 implies in_class(CharClass::NotSpace, #[trigger] t[m]) by {}
    assert(t[6] == ' ');
    lemma_run_end_at(t, 0, 6, CharClass::NotSpace);
    assert forall|m: int| 7 <= m < 11 implies in_class(CharClass::NotSpace, #[trigger] t[m]) by {}
    assert(t[11] == ' ');
    lemma_run_end_at(t, 7, 11, CharClass::NotSpace);
    assert forall|m: int| 12 <= m < t.len() implies in_class(CharClass::NotSpace, #[trigger] t[m]) by {
        assert(t[m] == n[m - 12]);
    }
    lemma_run_end_at(t, 12, t.len() as int, CharClass::NotSpace);
    assert(t.subrange(7, 11) =~= b);
    assert(t.subrange(12, t.len() as int) =~= n);
}


/// Whether every character of `w` is a space or a tab.
pub open spec fn is_blanks(w: Seq<char>) -> bool {
    forall|i: int| 0 <= i < w.len() ==> in_class(CharClass::Blank, #[trigger] w[i])
}

/// Whether `rest` may follow a signature: nothing, or `;` or `{`.
pub open spec fn ends_signature(rest: Seq<char>) -> bool {
    rest.len() == 0 || rest[0] == ';' || rest[0] == '{'
}

/// What follows the marker of a signature with a return-value group and no
/// parameter group is read as that group, the name, and nothing more.
proof fn lemma_after_marker(
    w1: Seq<char>,
    rv: Seq<char>,
    w0: Seq<char>,
    n: Seq<char>,
    rest: Seq<char>,
)
    requires
        w1.len() > 0,
        is_blanks(w1),
        forall|i: int| 0 <= i < rv.len() ==> #[trigger] rv[i] != ')',
        is_blanks(w0),
        is_name(n),
        ends_signature(rest),
    ensures
        ({
            let t0 = w1 + seq!['('] + rv + seq![')'] + w0 + n + rest;
            let t1 = after_run(t0, CharClass::Blank);
            &&& t1.len() != t0.len()
            &&& spec_paren(t1) == Some(((rv.len() + 2) as int, rv))
            &&& after_run(t1.subrange(rv.len() as int + 2, t1.len() as int), CharClass::Blank) == n + rest
            &&& spec_name(n + rest) == Some((n.len() as int, n))
            &&& spec_param_clause(after_skip((n + rest).subrange(n.len() as int, (n + rest).len() as int)))
                == Outcome::Parsed(rest, None::<crate::function::ParametersView>)
        }),
{
    let t0 = w1 + seq!['('] + rv + seq![')'] + w0 + n + rest;
    assert forall|m: int| 0 <= m < w1.len() implies in_class(CharClass::Blank, #[trigger] t0[m]) by {
        assert(t0[m] == w1[m]);
    }
    assert(t0[w1.len() as int] == '(');
    lemma_run_end_at(t0, 0, w1.len() as int, CharClass::Blank);
    let t1 = after_run(t0, CharClass::Blank);
    assert(t1 =~= seq!['('] + rv + seq![')'] + w0 + n + rest);
    assert forall|m: int| 1 <= m < rv.len() as int + 1 implies in_class(CharClass::NotCloseParen, #[trigger] t1[m]) by {
        assert(t1[m] == rv[m - 1]);
    }
    assert(t1[rv.len() as int + 1] == ')');
    lemma_run_end_at(t1, 1, rv.len() as int + 1, CharClass::NotCloseParen);
    assert(t1.subrange(1, rv.len() as int + 1) =~= rv);
    let t2 = t1.subrange(rv.len() as int + 2, t1.len() as int);
    assert(t2 =~= w0 + n + rest);
    assert forall|m: int| 0 <= m < w0.len() implies in_class(CharClass::Blank, #[trigger] t2[m]) by {
        assert(t2[m] == w0[m]);
    }
    assert(in_class(CharClass::Name, n[0]));
    assert(t2[w0.len() as int] == n[0]);
    lemma_run_end_at(t2, 0, w0.len() as int, CharClass::Blank);
    assert(after_run(t2, CharClass::Blank) =~= n + rest);
    let t3 = n + rest;
    assert forall|m: int| 0 <= m < n.len() implies in_class(CharClass::Name, #[trigger] t3[m]) by {
        assert(t3[m] == n[m]);
    }
    if rest.len() > 0 {
        assert(t3[n.len() as int] == rest[0]);
    }
    lemma_run_end_at(t3, 0, n.len() as int, CharClass::Name);
    assert(t3.subrange(0, n.len() as int) =~= n);
    assert(t3.subrange(n.len() as int, t3.len() as int) =~= rest);
    lemma_run_end_at(rest, 0, 0, CharClass::Space);
    assert(rest.subrange(0, rest.len() as int) =~= rest);
    assert(after_skip(rest) == rest);
}

/// `.func`, blanks, a return-value group, blanks and a name, followed by nothing,
/// `;` or `{`: the group's text is the return value, verbatim, and is kept out
/// of the name; there are no parameters and no flags, and what follows is left.
pub proof fn law_func_return_clause(
    w1: Seq<char>,
    rv: Seq<char>,
    w0: Seq<char>,
    n: Seq<char>,
    rest: Seq<char>,
)
    requires
        w1.len() > 0,
        is_blanks(w1),
        forall|i: int| 0 <= i < rv.len() ==> #[trigger] rv[i] != ')',
        is_blanks(w0),
        is_name(n),
        ends_signature(rest),
    ensures
        spec_signature(".func"@ + (w1 + seq!['('] + rv + seq![')'] + w0 + n + rest)) == Outcome::Parsed(
            rest,
            SignatureView {
                visible: false,
                entry: false,
                return_value: Some(rv),
                name: n,
                parameters: None,
            },
        ),
{
    reveal_strlit(".func");
    reveal_strlit(".visible");
    let t0 = w1 + seq!['('] + rv + seq![')'] + w0 + n + rest;
    let s = ".func"@ + t0;
    if s.len() >= 8 {
        assert(s.subrange(0, 8)[1] == s[1]);
    }
    assert(!starts_with(s, ".visible"@));
    assert(s.subrange(0, 5) =~= ".func"@);
    assert(s.subrange(5, s.len() as int) =~= t0);
    assert(spec_marker(s) == Some((t0, false)));
    lemma_after_marker(w1, rv, w0, n, rest);
}

/// `.visible .entry`, blanks, a return-value group, blanks and a name, followed
/// by nothing, `;` or `{`: the group's text is the return value, verbatim, and is
/// kept out of the name; there are no parameters, both flags are set, and what
/// follows is left.
pub proof fn law_entry_return_clause(
    w1: Seq<char>,
    rv: Seq<char>,
    w0: Seq<char>,
    n: Seq<char>,
    rest: Seq<char>,
)
    requires
        w1.len() > 0,
        is_blanks(w1),
        forall|i: int| 0 <= i < rv.len() ==> #[trigger] rv[i] != ')',
        is_blanks(w0),
        is_name(n),
        ends_signature(rest),
    ensures
        spec_signature(".visible .entry"@ + (w1 + seq!['('] + rv + seq![')'] + w0 + n + rest))
            == Outcome::Parsed(
            rest,
            SignatureView {
                visible: true,
                entry: true,
                return_value: Some(rv),
                name: n,
                parameters: None,
            },
        ),
{
    reveal_strlit(".visible .entry");
    reveal_strlit(".entry");
    reveal_strlit(".visible");
    let t0 = w1 + seq!['('] + rv + seq![')'] + w0 + n + rest;
    let s = ".visible .entry"@ + t0;
    assert(s.subrange(0, 8) =~= ".visible"@);
    let t = s.subrange(8, s.len() as int);
    assert(t =~= seq![' '] + ".entry"@ + t0);
    lemma_run_end_at(t, 0, 1, CharClass::Blank);
    let u = after_run(t, CharClass::Blank);
    assert(u =~= ".entry"@ + t0);
    assert(u.subrange(0, 6) =~= ".entry"@);
    assert(u.subrange(6, u.len() as int) =~= t0);
    assert(spec_marker(s) == Some((t0, true)));
    lemma_after_marker(w1, rv, w0, n, rest);
}


/// Decoding from `i` reads the line that ends at the line feed `j`, then goes on
/// after it.
proof fn lemma_decode_step(s: Seq<char>, i: int, j: int)
    requires
        0 <= i <= j < s.len(),
        s[j] == '\n',
        forall|m: int| i <= m < j ==> #[trigger] s[m] != '\n',
    ensures
        decode_from(s, i) == match decode_line(s.subrange(i, j)) {
            Some(Err(ty)) => Err(ty),
            Some(Ok(p)) => prepend(seq![p], decode_from(s, j + 1)),
            None => decode_from(s, j + 1),
        },
{
    assert forall|m: int| i <= m < j implies in_class(CharClass::NotNewline, #[trigger] s[m]) by {}
    lemma_run_end_at(s, i, j, CharClass::NotNewline);
}

/// Decoding from the end reads one empty line, which gives nothing.
proof fn lemma_decode_end(s: Seq<char>)
    ensures
        decode_from(s, s.len() as int) == Ok::<Seq<ParameterView>, Seq<char>>(Seq::empty()),
{
    lemma_run_end_at(s, s.len() as int, s.len() as int, CharClass::NotNewline);
    law_single_word_line(s.subrange(s.len() as int, s.len() as int));
}

/// A tab-indented `.param .b64` line holds no line feed.
proof fn lemma_b64_line_no_newline(n: Seq<char>, comma: bool)
    requires
        is_param_name(n),
    ensures
        forall|k: int|
            0 <= k < b64_line(seq!['\t'], n, comma).len() ==> #[trigger] b64_line(
                seq!['\t'],
                n,
                comma,
            )[k] != '\n',
{
    reveal_strlit(".param .b64 ");
    let l = b64_line(seq!['\t'], n, comma);
    assert forall|k: int| 0 <= k < l.len() implies #[trigger] l[k] != '\n' by {
        if 13 <= k < 13 + n.len() {
            assert(l[k] == n[k - 13]);
        }
    }
}

/// Decoding at `a`, where the parameter line `l` stands followed by a line
/// feed, gives its parameter and then what decoding after it gives.
proof fn lemma_b64_line_at(s: Seq<char>, a: int, n: Seq<char>, comma: bool)
    requires
        0 <= a,
        a + b64_line(seq!['\t'], n, comma).len() < s.len(),
        s.subrange(a, a + b64_line(seq!['\t'], n, comma).len()) == b64_line(seq!['\t'], n, comma),
        s[a + b64_line(seq!['\t'], n, comma).len()] == '\n',
        is_param_name(n),
    ensures
        decode_from(s, a) == prepend(
            seq![b64_param(n)],
            decode_from(s, a + b64_line(seq!['\t'], n, comma).len() + 1),
        ),
{
    let l = b64_line(seq!['\t'], n, comma);
    let j = a + l.len();
    lemma_b64_line_no_newline(n, comma);
    assert forall|m: int| a <= m < j implies #[trigger] s[m] != '\n' by {
        assert(s.subrange(a, j)[m - a] == s[m]);
    }
    lemma_decode_step(s, a, j);
    law_b64_param_line(seq!['\t'], n, comma);
}

/// A group whose lines, between a leading and a trailing line feed, are three
/// tab-indented `.param .b64 NAME` lines, the first two ended by commas,
/// decodes to those three parameters in order; the empty first and last lines
/// give nothing.
pub proof fn law_three_b64_params(n0: Seq<char>, n1: Seq<char>, n2: Seq<char>)
    requires
        is_param_name(n0),
        is_param_name(n1),
        is_param_name(n2),
    ensures
        decode_params(
            seq!['\n'] + b64_line(seq!['\t'], n0, true) + seq!['\n'] + b64_line(seq!['\t'], n1, true)
                + seq!['\n'] + b64_line(seq!['\t'], n2, false) + seq!['\n'],
        ) == Ok::<Seq<ParameterView>, Seq<char>>(seq![b64_param(n0), b64_param(n1), b64_param(n2)]),
{
    let l0 = b64_line(seq!['\t'], n0, true);
    let l1 = b64_line(seq!['\t'], n1, true);
    let l2 = b64_line(seq!['\t'], n2, false);
    let nl = seq!['\n'];
    let s = nl + l0 + nl + l1 + nl + l2 + nl;
    let e1 = 1 + l0.len() as int;
    let a2 = e1 + 1;
    let e2 = a2 + l1.len() as int;
    let a3 = e2 + 1;
    let e3 = a3 + l2.len() as int;
    assert(s.len() == e3 + 1);
    assert(s[0] == '\n');
    assert(s.subrange(1, e1) =~= l0);
    assert(s[e1] == '\n');
    assert(s.subrange(a2, e2) =~= l1);
    assert(s[e2] == '\n');
    assert(s.subrange(a3, e3) =~= l2);
    assert(s[e3] == '\n');
    lemma_decode_step(s, 0, 0);
    law_single_word_line(s.subrange(0, 0));
    lemma_b64_line_at(s, 1, n0, true);
    lemma_b64_line_at(s, a2, n1, true);
    lemma_b64_line_at(s, a3, n2, false);
    lemma_decode_end(s);
    assert(seq![b64_param(n2)] + Seq::<ParameterView>::empty() =~= seq![b64_param(n2)]);
    assert(seq![b64_param(n1)] + seq![b64_param(n2)] =~= seq![b64_param(n1), b64_param(n2)]);
    assert(seq![b64_param(n0)] + seq![b64_param(n1), b64_param(n2)] =~= seq![
        b64_param(n0),
        b64_param(n1),
        b64_param(n2),
    ]);
}


/// Whether `p` is a nonempty run of spaces, tabs and line breaks.
pub open spec fn is_space_run(p: Seq<char>) -> bool {
    p.len() > 0 && forall|i: int| 0 <= i < p.len() ==> in_class(CharClass::Space, #[trigger] p[i])
}

/// Whether `p` is `//` and the rest of a line, without its line feed.
pub open spec fn is_line_comment(p: Seq<char>) -> bool {
    p.len() >= 2 && p[0] == '/' && p[1] == '/' && forall|i: int| 2 <= i < p.len() ==> #[trigger] p[i] != '\n'
}

/// Whether `p` is `/*`, text in which `*/` does not occur, and `*/`.
pub open spec fn is_block_comment(p: Seq<char>) -> bool {
    &&& p.len() >= 4
    &&& p[0] == '/' && p[1] == '*'
    &&& p[p.len() - 2] == '*' && p[p.len() - 1] == '/'
    &&& forall|i: int| 2 <= i && i + 1 < p.len() - 2 ==> !(#[trigger] p[i] == '*' && p[i + 1] == '/')
}

/// Whether `ps` splits a text into white-space runs and comments: each piece is
/// one of them, a run is followed by a comment or by nothing, and a line comment
/// by a line feed or by nothing.
pub open spec fn splits_into_stretches(ps: Seq<Seq<char>>) -> bool {
    forall|i: int|
        0 <= i < ps.len() ==> {
            &&& is_space_run(#[trigger] ps[i]) || is_line_comment(ps[i]) || is_block_comment(ps[i])
            &&& is_space_run(ps[i]) && i + 1 < ps.len() ==> !is_space_run(ps[i + 1])
            &&& is_line_comment(ps[i]) && i + 1 < ps.len() ==> ps[i + 1][0] == '\n'
        }
}

/// Joining from piece `i` is that piece and the joining after it.
proof fn lemma_joined_from(ps: Seq<Seq<char>>, i: int)
    requires
        0 <= i < ps.len(),
    ensures
        joined(ps.subrange(i, ps.len() as int)) == ps[i] + joined(ps.subrange(i + 1, ps.len() as int)),
{
    let q = ps.subrange(i, ps.len() as int);
    assert(q.drop_first() =~= ps.subrange(i + 1, ps.len() as int));
}

/// Each piece of a split is read whole, as one stretch, where it stands.
proof fn lemma_piece_is_stretch(ps: Seq<Seq<char>>, i: int)
    requires
        splits_into_stretches(ps),
        0 <= i < ps.len(),
    ensures
        spec_stretch(joined(ps.subrange(i, ps.len() as int))) == Some(ps[i].len() as int),
{
    let p = ps[i];
    let r = joined(ps.subrange(i + 1, ps.len() as int));
    lemma_joined_from(ps, i);
    let j = p + r;
    if i + 1 < ps.len() {
        lemma_joined_from(ps, i + 1);
        let p1 = ps[i + 1];
        assert(p1.len() > 0);
        assert(r[0] == p1[0]);
        assert(j[p.len() as int] == p1[0]);
        if is_space_run(p) {
            assert(!is_space_run(p1));
            assert(is_line_comment(p1) || is_block_comment(p1));
            assert(p1[0] == '/');
        }
    } else {
        assert(ps.subrange(i + 1, ps.len() as int) =~= Seq::<Seq<char>>::empty());
        assert(r =~= Seq::<char>::empty());
    }
    if is_space_run(p) {
        assert forall|m: int| 0 <= m < p.len() implies in_class(CharClass::Space, #[trigger] j[m]) by {
            assert(j[m] == p[m]);
        }
        lemma_run_end_at(j, 0, p.len() as int, CharClass::Space);
    } else {
        assert(j[0] == '/');
        lemma_run_end_at(j, 0, 0, CharClass::Space);
        if is_line_comment(p) {
            let t = p.subrange(2, p.len() as int);
            assert forall|k: int| 0 <= k < t.len() implies #[trigger] t[k] != '\n' by {
                assert(t[k] == p[k + 2]);
            }
            law_line_comment(t, r);
            assert(j =~= seq!['/', '/'] + t + r);
        } else {
            let t = p.subrange(2, p.len() - 2);
            assert forall|k: int| 0 <= k && k + 1 < t.len() implies !(#[trigger] t[k] == '*' && t[k + 1] == '/') by {
                assert(t[k] == p[k + 2]);
                assert(t[k + 1] == p[k + 3]);
            }
            law_block_comment(t, r);
            assert(j =~= seq!['/', '*'] + t + seq!['*', '/'] + r);
        }
    }
}

/// Text made only of white-space runs and comments, split as above, is skipped
/// entirely, and the count is the number of runs plus the number of comments.
pub proof fn law_skip_whitespace_and_comments(ps: Seq<Seq<char>>)
    requires
        splits_into_stretches(ps),
    ensures
        spec_skip(joined(ps)) == (joined(ps).len() as int, ps.len()),
{
    assert forall|i: int| 0 <= i < ps.len() implies spec_stretch(
        #[trigger] joined(ps.subrange(i, ps.len() as int)),
    ) == Some(ps[i].len() as int) by {
        lemma_piece_is_stretch(ps, i);
    }
    law_skip_consumes_stretches(ps);
}


/// From a point `i` reached at positive depth, the closing brace found is the
/// first return of the depth to zero, and there is none exactly when the depth
/// never returns to zero.
proof fn lemma_close_is_first_zero(s: Seq<char>, i: int)
    requires
        1 <= i <= s.len(),
        depth(s, i) >= 1,
    ensures
        brace_close(s, i, depth(s, i) as nat) == -1 <==> forall|m: int|
            i < m <= s.len() ==> #[trigger] depth(s, m) != 0,
        brace_close(s, i, depth(s, i) as nat) != -1 ==> {
            let c = brace_close(s, i, depth(s, i) as nat);
            &&& i <= c < s.len()
            &&& depth(s, c + 1) == 0
            &&& forall|m: int| i <= m <= c ==> #[trigger] depth(s, m) >= 1
        },
    decreases s.len() - i,
{
    if i < s.len() {
        assert(depth(s, i + 1) == depth(s, i) + if s[i] == '{' {
            1int
        } else if s[i] == '}' {
            -1int
        } else {
            0int
        });
        if s[i] == '}' && depth(s, i) <= 1 {
            assert(depth(s, i + 1) == 0);
        } else {
            lemma_close_is_first_zero(s, i + 1);
            assert(depth(s, i + 1) != 0);
        }
    }
}

/// A balanced brace group is found exactly when the input opens with `{` and the
/// depth, counted from its start, returns to zero; it then ends at the first such
/// return, and its text is everything between the outer braces.
pub proof fn law_braced_first_zero(s: Seq<char>)
    ensures
        spec_braced(s) is Some <==> (s.len() > 0 && s[0] == '{' && exists|k: int|
            1 <= k <= s.len() && #[trigger] depth(s, k) == 0),
        spec_braced(s) matches Some((n, c)) ==> {
            &&& depth(s, n) == 0
            &&& forall|k: int| 1 <= k < n ==> #[trigger] depth(s, k) > 0
            &&& c == s.subrange(1, n - 1)
        },
{
    if s.len() > 0 && s[0] == '{' {
        assert(depth(s, 0) == 0);
        assert(depth(s, 1) == 1);
        lemma_close_is_first_zero(s, 1);
        if exists|k: int| 1 <= k <= s.len() && #[trigger] depth(s, k) == 0 {
            let k = choose|k: int| 1 <= k <= s.len() && #[trigger] depth(s, k) == 0;
            assert(k != 1);
            assert(brace_close(s, 1, 1) != -1);
        }
    }
}

} // verus!
