//! Decoding a parameter group into parameters, one per line.
use vstd::prelude::*;
use crate::scan::{CharClass, ParseError, run_end, is_white, is_white_char, scan_class};
use crate::function::{Parameter, ParameterView, Parameters, param_views};

verus! {

/// The width in bytes of a type that has a known width.
pub open spec fn type_size(t: Seq<char>) -> Option<nat> {
    if t == ".s8"@ || t == ".u8"@ || t == ".b8"@ {
        Some(1)
    } else if t == ".s16"@ || t == ".u16"@ || t == ".f16"@ || t == ".b16"@ {
        Some(2)
    } else if t == ".s32"@ || t == ".u32"@ || t == ".f16x2"@ || t == ".f32"@ || t == ".b32"@ {
        Some(4)
    } else if t == ".s64"@ || t == ".u64"@ || t == ".f64"@ || t == ".b64"@ {
        Some(8)
    } else if t == ".b128"@ {
        Some(16)
    } else {
        None
    }
}

/// Whether two texts are the same.
pub fn same_text(a: &str, b: &str) -> (r: bool)
    ensures
        r == (a@ == b@),
{
    let n = a.unicode_len();
    if n != b.unicode_len() {
        return false;
    }
    let mut i: usize = 0;
    while i < n
        invariant
            n == a@.len() == b@.len(),
            i <= n,
            forall|j: int| 0 <= j < i ==> a@[j] == b@[j],
        decreases n - i,
    {
        if a.get_char(i) != b.get_char(i) {
            return false;
        }
        i = i + 1;
    }
    assert(a@ =~= b@);
    true
}

/// The width in bytes of a type, from a fixed table.
pub fn type_width(ty: &str) -> (r: Option<usize>)
    ensures
        match type_size(ty@) {
            Some(n) => r == Some(n as usize),
            None => r is None,
        },
{
    if same_text(ty, ".s8") || same_text(ty, ".u8") || same_text(ty, ".b8") {
        Some(1)
    } else if same_text(ty, ".s16") || same_text(ty, ".u16") || same_text(ty, ".f16") || same_text(ty, ".b16") {
        Some(2)
    } else if same_text(ty, ".s32") || same_text(ty, ".u32") || same_text(ty, ".f16x2") || same_text(ty, ".f32")
        || same_text(ty, ".b32") {
        Some(4)
    } else if same_text(ty, ".s64") || same_text(ty, ".u64") || same_text(ty, ".f64") || same_text(ty, ".b64") {
        Some(8)
    } else if same_text(ty, ".b128") {
        Some(16)
    } else {
        None
    }
}


/// Index just past the last character before `j`, and not before `lo`, that is
/// not white space.
pub open spec fn trim_back(s: Seq<char>, j: int, lo: int) -> int
    decreases j - lo,
{
    if j <= lo || j > s.len() || !is_white(s[j - 1]) {
        j
    } else {
        trim_back(s, j - 1, lo)
    }
}

/// `s` without white space at either end.
pub open spec fn trimmed(s: Seq<char>) -> Seq<char> {
    let a = run_end(s, 0, CharClass::White);
    s.subrange(a, trim_back(s, s.len() as int, a))
}

/// `t` without one trailing comma.
pub open spec fn strip_comma(t: Seq<char>) -> Seq<char> {
    if t.len() > 0 && t.last() == ',' {
        t.drop_last()
    } else {
        t
    }
}

/// What one line of a parameter group decodes to: nothing, unless it holds
/// exactly three fields split by single spaces; then a parameter whose type is
/// the second field and whose name is the third, or the type when its width is
/// not known.
pub open spec fn decode_line(seg: Seq<char>) -> Option<Result<ParameterView, Seq<char>>> {
    let t = strip_comma(trimmed(seg));
    let a = run_end(t, 0, CharClass::NotSpace);
    let b = run_end(t, a + 1, CharClass::NotSpace);
    let c = run_end(t, b + 1, CharClass::NotSpace);
    if a < t.len() && b < t.len() && c == t.len() {
        let ty = t.subrange(a + 1, b);
        match type_size(ty) {
            Some(n) => Some(
                Ok(ParameterView { name: t.subrange(b + 1, t.len() as int), ty, size: n, raw: t }),
            ),
            None => Some(Err(ty)),
        }
    } else {
        None
    }
}

/// Decodes the lines of `s` from index `i` on, in order; the first line whose
/// type is unknown decides the failure.
pub open spec fn decode_from(s: Seq<char>, i: int) -> Result<Seq<ParameterView>, Seq<char>>
    decreases s.len() - i,
{
    if 0 <= i <= s.len() {
        let e = run_end(s, i, CharClass::NotNewline);
        let rest = if i <= e < s.len() {
            decode_from(s, e + 1)
        } else {
            Ok(Seq::empty())
        };
        match decode_line(s.subrange(i, e)) {
            Some(Err(ty)) => Err(ty),
            Some(Ok(p)) => match rest {
                Ok(ps) => Ok(seq![p] + ps),
                Err(ty) => Err(ty),
            },
            None => rest,
        }
    } else {
        Ok(Seq::empty())
    }
}

/// The parameters that a group's text decodes to, or the first unknown type.
pub open spec fn decode_params(s: Seq<char>) -> Result<Seq<ParameterView>, Seq<char>> {
    decode_from(s, 0)
}

/// `s` without white space at either end.
pub fn trim_text<'a>(s: &'a str) -> (r: &'a str)
    ensures
        r@ == trimmed(s@),
{
    let len = s.unicode_len();
    let a = scan_class(s, len, 0, CharClass::White);
    let mut j: usize = len;
    while j > a && is_white_char(s.get_char(j - 1))
        invariant
            len == s@.len(),
            a <= j <= len,
            trim_back(s@, len as int, a as int) == trim_back(s@, j as int, a as int),
        decreases j,
    {
        j = j - 1;
    }
    s.substring_char(a, j)
}

/// Decodes one line of a parameter group.
pub fn decode_param_line<'a>(seg: &'a str) -> (r: Option<Result<Parameter<'a>, ParseError<'a>>>)
    ensures
        match decode_line(seg@) {
            None => r is None,
            Some(Ok(p)) => r matches Some(Ok(q)) && q@ == p,
            Some(Err(ty)) => r matches Some(Err(e)) && e is UnknownType && e->UnknownType_0@ == ty,
        },
{
    let t0 = trim_text(seg);
    let n0 = t0.unicode_len();
    let t = if n0 > 0 && t0.get_char(n0 - 1) == ',' {
        t0.substring_char(0, n0 - 1)
    } else {
        t0
    };
    proof {
        if n0 > 0 && t0@.last() == ',' {
            assert(t0@.subrange(0, n0 - 1) =~= t0@.drop_last());
        }
    }
    let len = t.unicode_len();
    let a = scan_class(t, len, 0, CharClass::NotSpace);
    if a == len {
        return None;
    }
    let b = scan_class(t, len, a + 1, CharClass::NotSpace);
    if b == len {
        return None;
    }
    let c = scan_class(t, len, b + 1, CharClass::NotSpace);
    if c != len {
        return None;
    }
    let ty = t.substring_char(a + 1, b);
    match type_width(ty) {
        Some(size) => Some(Ok(Parameter { name: t.substring_char(b + 1, len), ty, size, raw_string: t })),
        None => Some(Err(ParseError::UnknownType(ty))),
    }
}


/// `ps` put before the parameters of `r`, when `r` holds parameters.
pub open spec fn prepend(ps: Seq<ParameterView>, r: Result<Seq<ParameterView>, Seq<char>>) -> Result<
    Seq<ParameterView>,
    Seq<char>,
> {
    match r {
        Ok(q) => Ok(ps + q),
        Err(t) => Err(t),
    }
}

impl<'a> Parameters<'a> {
    /// Decodes the group's text line by line and appends the parameters found.
    /// A line whose type has no known width fails the whole group, and then
    /// nothing is appended.
    pub fn parse(&mut self) -> (r: Result<(), ParseError<'a>>)
        ensures
            final(self).raw_string == old(self).raw_string,
            match decode_params(old(self).raw_string@) {
                Ok(ps) => r is Ok && param_views(final(self).params@) == param_views(
                    old(self).params@,
                ) + ps,
                Err(ty) => r matches Err(e) && e is UnknownType && e->UnknownType_0@ == ty
                    && final(self).params@ == old(self).params@,
            },
    {
        let raw = self.raw_string;
        let len = raw.unicode_len();
        let mut found: Vec<Parameter<'a>> = Vec::new();
        let mut i: usize = 0;
        let mut more = true;
        proof {
            assert(param_views(found@) =~= Seq::<ParameterView>::empty());
            assert(decode_params(raw@) =~= prepend(param_views(found@), decode_from(raw@, 0))) by {
                match decode_from(raw@, 0) {
                    Ok(q) => assert(Seq::<ParameterView>::empty() + q =~= q),
                    Err(_) => {},
                }
            }
        }
        while more
            invariant
                raw == self.raw_string,
                self.params@ == old(self).params@,
                len == raw@.len(),
                i <= len,
                more ==> decode_params(raw@) == prepend(param_views(found@), decode_from(raw@, i as int)),
                !more ==> decode_params(raw@) == Ok::<Seq<ParameterView>, Seq<char>>(param_views(found@)),
            decreases len - i + (if more { 1int } else { 0int }),
        {
            let e = scan_class(raw, len, i, CharClass::NotNewline);
            let seg = raw.substring_char(i, e);
            let ghost before = param_views(found@);
            let ghost rest = if e < len { decode_from(raw@, e + 1) } else { Ok(Seq::empty()) };
            assert(decode_from(raw@, i as int) == match decode_line(seg@) {
                Some(Err(ty)) => Err(ty),
                Some(Ok(p)) => match rest {
                    Ok(ps) => Ok(seq![p] + ps),
                    Err(ty) => Err(ty),
                },
                None => rest,
            });
            match decode_param_line(seg) {
                Some(Err(err)) => {
                    return Err(err);
                },
                Some(Ok(p)) => {
                    found.push(p);
                    proof {
                        assert(param_views(found@) =~= before + seq![p@]);
                        match rest {
                            Ok(q) => assert(before + (seq![p@] + q) =~= before + seq![p@] + q),
                            Err(_) => {},
                        }
                    }
                },
                None => {},
            }
            if e < len {
                i = e + 1;
            } else {
                proof {
                    assert(before + Seq::<ParameterView>::empty() =~= before);
                    assert(param_views(found@) + Seq::<ParameterView>::empty() =~= param_views(found@));
                }
                more = false;
            }
        }
        let ghost old_params = self.params@;
        let ghost new_params = found@;
        self.params.append(&mut found);
        proof {
            assert(param_views(self.params@) =~= param_views(old_params) + param_views(new_params));
        }
        Ok(())
    }
}

} // verus!
