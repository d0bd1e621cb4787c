//! Function declarations: their records, and the parsers for signatures, bodies
//! and whole functions.
use vstd::prelude::*;
use crate::scan::{
    CharClass, Outcome, ParseError, after_run, error_at, group_error_at, outcome_result, parse_braced_balanced, parse_name,
    parse_parenthesized_naive, skip_run, spec_braced, spec_name, spec_paren, starts_with,
    starts_with_text,
};
use crate::params::decode_params;
use crate::comment::{after_skip, skip_comments_and_whitespace};

verus! {

/// A function: its signature, and its body unless it ends with `;`.
#[derive(Debug, PartialEq)]
pub struct Function<'a> {
    pub signature: FunctionSignature<'a>,
    pub body: Option<FunctionBody<'a>>,
}

/// What comes before a function's body.
#[derive(Debug, PartialEq)]
pub struct FunctionSignature<'a> {
    pub visible: bool,
    pub entry: bool,
    pub return_value: Option<ReturnValue<'a>>,
    pub name: &'a str,
    pub parameters: Option<Parameters<'a>>,
}

/// The text inside a function's return-value clause, left undecoded.
#[derive(Debug, PartialEq)]
pub struct ReturnValue<'a> {
    pub raw_string: &'a str,
}

/// One decoded parameter: its name, its type and the type's width in bytes.
#[derive(Debug, PartialEq)]
pub struct Parameter<'a> {
    pub name: &'a str,
    pub ty: &'a str,
    pub size: usize,
    pub raw_string: &'a str,
}

/// A parameter group: its text, and the parameters decoded from it.
#[derive(Debug, PartialEq)]
pub struct Parameters<'a> {
    pub params: Vec<Parameter<'a>>,
    pub raw_string: &'a str,
}

/// The text strictly inside a function's outermost braces.
#[derive(Debug, PartialEq)]
pub struct FunctionBody<'a> {
    pub body: Option<&'a str>,
}

/// A parameter as sequences: name, type, width in bytes, and its line.
pub ghost struct ParameterView {
    pub name: Seq<char>,
    pub ty: Seq<char>,
    pub size: nat,
    pub raw: Seq<char>,
}

/// A parameter group as sequences: its text and its decoded parameters.
pub ghost struct ParametersView {
    pub raw: Seq<char>,
    pub params: Seq<ParameterView>,
}

/// A signature as sequences.
pub ghost struct SignatureView {
    pub visible: bool,
    pub entry: bool,
    pub return_value: Option<Seq<char>>,
    pub name: Seq<char>,
    pub parameters: Option<ParametersView>,
}

/// A function as sequences; `body` is `None` for a function ended by `;`.
pub ghost struct FunctionView {
    pub signature: SignatureView,
    pub body: Option<Option<Seq<char>>>,
}

impl<'a> View for Parameter<'a> {
    type V = ParameterView;

    open spec fn view(&self) -> ParameterView {
        ParameterView { name: self.name@, ty: self.ty@, size: self.size as nat, raw: self.raw_string@ }
    }
}

/// The views of a list of parameters.
pub open spec fn param_views(ps: Seq<Parameter>) -> Seq<ParameterView> {
    ps.map_values(|p: Parameter| p@)
}

impl<'a> View for Parameters<'a> {
    type V = ParametersView;

    open spec fn view(&self) -> ParametersView {
        ParametersView { raw: self.raw_string@, params: param_views(self.params@) }
    }
}

impl<'a> View for FunctionSignature<'a> {
    type V = SignatureView;

    open spec fn view(&self) -> SignatureView {
        SignatureView {
            visible: self.visible,
            entry: self.entry,
            return_value: match self.return_value {
                Some(rv) => Some(rv.raw_string@),
                None => None,
            },
            name: self.name@,
            parameters: match self.parameters {
                Some(ps) => Some(ps@),
                None => None,
            },
        }
    }
}

impl<'a> View for FunctionBody<'a> {
    type V = Option<Seq<char>>;

    open spec fn view(&self) -> Option<Seq<char>> {
        match self.body {
            Some(t) => Some(t@),
            None => None,
        }
    }
}

impl<'a> View for Function<'a> {
    type V = FunctionView;

    open spec fn view(&self) -> FunctionView {
        FunctionView {
            signature: self.signature@,
            body: match self.body {
                Some(b) => Some(b@),
                None => None,
            },
        }
    }
}


/// The marker that opens a signature: `.visible`, blanks and `.entry` (both flags
/// set), or else `.func` (neither). Gives what follows and the flag.
pub open spec fn spec_marker(s: Seq<char>) -> Option<(Seq<char>, bool)> {
    let t = s.subrange(8, s.len() as int);
    let u = after_run(t, CharClass::Blank);
    if starts_with(s, ".visible"@) && u.len() < t.len() && starts_with(u, ".entry"@) {
        Some((u.subrange(6, u.len() as int), true))
    } else if starts_with(s, ".func"@) {
        Some((s.subrange(5, s.len() as int), false))
    } else {
        None
    }
}

/// The parameter clause after a signature's name, if one is there: nothing read,
/// the group and its decoded parameters, or the first unknown type.
pub open spec fn spec_param_clause(s: Seq<char>) -> Outcome<Option<ParametersView>> {
    match spec_paren(s) {
        None => Outcome::Parsed(s, None),
        Some((n, raw)) => match decode_params(raw) {
            Ok(ps) => Outcome::Parsed(
                s.subrange(n, s.len() as int),
                Some(ParametersView { raw, params: ps }),
            ),
            Err(ty) => Outcome::BadType(ty),
        },
    }
}

/// A signature: the marker, one or more blanks, an optional return-value group,
/// blanks, a name, comments and white space, and an optional parameter group.
pub open spec fn spec_signature(s: Seq<char>) -> Outcome<SignatureView> {
    match spec_marker(s) {
        None => Outcome::Refused(s),
        Some((t0, flag)) => {
            let t1 = after_run(t0, CharClass::Blank);
            if t1.len() == t0.len() {
                Outcome::Refused(t0)
            } else {
                let (t2, rv) = match spec_paren(t1) {
                    Some((n, v)) => (t1.subrange(n, t1.len() as int), Some(v)),
                    None => (t1, None),
                };
                let t3 = after_run(t2, CharClass::Blank);
                match spec_name(t3) {
                    None => Outcome::Refused(t3),
                    Some((n, name)) => {
                        let t4 = after_skip(t3.subrange(n, t3.len() as int));
                        match spec_param_clause(t4) {
                            Outcome::Parsed(rest, ps) => Outcome::Parsed(
                                rest,
                                SignatureView {
                                    visible: flag,
                                    entry: flag,
                                    return_value: rv,
                                    name,
                                    parameters: ps,
                                },
                            ),
                            Outcome::Refused(at) => Outcome::Refused(at),
                            Outcome::BadType(ty) => Outcome::BadType(ty),
                        }
                    },
                }
            }
        },
    }
}

/// Reads the marker that opens a signature.
fn parse_marker<'a>(input: &'a str) -> (r: Option<(&'a str, bool)>)
    ensures
        match spec_marker(input@) {
            Some((t, f)) => r matches Some((rest, g)) && rest@ == t && g == f,
            None => r is None,
        },
        r matches Some((rest, _)) ==> rest@.len() < input@.len(),
{
    proof {
        reveal_strlit(".visible");
        reveal_strlit(".entry");
        reveal_strlit(".func");
    }
    if starts_with_text(input, ".visible") {
        let len = input.unicode_len();
        let t = input.substring_char(8, len);
        let u = skip_run(t, CharClass::Blank);
        if u.unicode_len() < t.unicode_len() && starts_with_text(u, ".entry") {
            let ul = u.unicode_len();
            return Some((u.substring_char(6, ul), true));
        }
    }
    if starts_with_text(input, ".func") {
        let len = input.unicode_len();
        Some((input.substring_char(5, len), false))
    } else {
        None
    }
}

/// Reads an optional parameter group and decodes its lines.
fn parse_param_clause<'a>(input: &'a str) -> (r: Result<(&'a str, Option<Parameters<'a>>), ParseError<'a>>)
    ensures
        match spec_param_clause(input@) {
            Outcome::Parsed(rest, v) => r matches Ok((q, ps)) && q@ == rest && match ps {
                Some(p) => v == Some(p@),
                None => v is None,
            },
            Outcome::Refused(_) => false,
            Outcome::BadType(ty) => r matches Err(e) && e is UnknownType && e->UnknownType_0@ == ty,
        },
        r matches Ok((q, _)) ==> q@.len() <= input@.len(),
{
    match parse_parenthesized_naive(input) {
        Err(_) => Ok((input, None)),
        Ok((rest, raw)) => {
            let mut group = Parameters { params: Vec::new(), raw_string: raw };
            proof {
                assert(param_views(group.params@) =~= Seq::<ParameterView>::empty());
            }
            match group.parse() {
                Ok(()) => {
                    proof {
                        let ps = decode_params(raw@)->Ok_0;
                        assert(Seq::<ParameterView>::empty() + ps =~= ps);
                    }
                    Ok((rest, Some(group)))
                },
                Err(e) => Err(e),
            }
        },
    }
}

/// Parses a function signature: `.visible .entry` or `.func`, blanks, an optional
/// return-value group, a name, and an optional parameter group whose lines are
/// decoded into parameters.
pub fn parse_function_signature<'a>(input: &'a str) -> (r: Result<(&'a str, FunctionSignature<'a>), ParseError<'a>>)
    ensures
        outcome_result(r, spec_signature(input@)),
        r is Ok ==> r->Ok_0.0@.len() < input@.len(),
{
    let (t0, flag) = match parse_marker(input) {
        Some(m) => m,
        None => return Err(ParseError::Mismatch(input)),
    };
    let t1 = skip_run(t0, CharClass::Blank);
    if t1.unicode_len() == t0.unicode_len() {
        return Err(ParseError::Mismatch(t0));
    }
    let (t2, return_value) = match parse_parenthesized_naive(t1) {
        Ok((rest, raw)) => (rest, Some(ReturnValue { raw_string: raw })),
        Err(_) => (t1, None),
    };
    let t3 = skip_run(t2, CharClass::Blank);
    let (t4, name) = match parse_name(t3) {
        Ok(v) => v,
        Err(e) => return Err(e),
    };
    let t5 = skip_comments_and_whitespace(t4);
    match parse_param_clause(t5) {
        Ok((rest, parameters)) => Ok(
            (rest, FunctionSignature { visible: flag, entry: flag, return_value, name, parameters }),
        ),
        Err(e) => Err(e),
    }
}


/// A function body: a balanced braced group; gives what follows and its text.
pub open spec fn spec_body(s: Seq<char>) -> Option<(Seq<char>, Seq<char>)> {
    match spec_braced(s) {
        Some((n, b)) => Some((s.subrange(n, s.len() as int), b)),
        None => None,
    }
}

/// A function: a signature, optional comments and white space, then `;` (no
/// body) or a balanced braced body.
pub open spec fn spec_function(s: Seq<char>) -> Outcome<FunctionView> {
    match spec_signature(s) {
        Outcome::Parsed(t, sig) => {
            let u = after_skip(t);
            if u.len() > 0 && u[0] == ';' {
                Outcome::Parsed(u.subrange(1, u.len() as int), FunctionView { signature: sig, body: None })
            } else {
                match spec_body(u) {
                    Some((rest, b)) => Outcome::Parsed(
                        rest,
                        FunctionView { signature: sig, body: Some(Some(b)) },
                    ),
                    None => Outcome::Refused(group_error_at(u, '{')),
                }
            }
        },
        Outcome::Refused(at) => Outcome::Refused(at),
        Outcome::BadType(ty) => Outcome::BadType(ty),
    }
}

/// Parses a function body: the text inside balanced braces, kept verbatim.
pub fn parse_function_body<'a>(input: &'a str) -> (r: Result<(&'a str, FunctionBody<'a>), ParseError<'a>>)
    ensures
        match spec_body(input@) {
            Some((rest, b)) => r matches Ok((q, fb)) && q@ == rest && fb@ == Some(b),
            None => r is Err && r->Err_0 is Mismatch && error_at(r->Err_0) == group_error_at(
                input@,
                '{',
            ),
        },
        r is Ok ==> r->Ok_0.0@.len() < input@.len(),
{
    match parse_braced_balanced(input) {
        Ok((rest, raw)) => Ok((rest, FunctionBody { body: Some(raw) })),
        Err(e) => Err(e),
    }
}

/// Parses a function: its signature, then `;` or a body, with comments and white
/// space allowed between them.
pub fn parse_function<'a>(input: &'a str) -> (r: Result<(&'a str, Function<'a>), ParseError<'a>>)
    ensures
        outcome_result(r, spec_function(input@)),
        r is Ok ==> r->Ok_0.0@.len() < input@.len(),
{
    let (t, signature) = match parse_function_signature(input) {
        Ok(v) => v,
        Err(e) => return Err(e),
    };
    let u = skip_comments_and_whitespace(t);
    let len = u.unicode_len();
    if len > 0 && u.get_char(0) == ';' {
        return Ok((u.substring_char(1, len), Function { signature, body: None }));
    }
    match parse_function_body(u) {
        Ok((rest, body)) => Ok((rest, Function { signature, body: Some(body) })),
        Err(e) => Err(e),
    }
}

} // verus!
