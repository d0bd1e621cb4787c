//! The module level: the preamble, global variables, and the cursor that walks
//! a module's declarations.
use vstd::prelude::*;
use crate::scan::{
    CharClass, Outcome, ParseError, after_run, error_at, outcome_result, run_end, scan_class, skip_run, starts_with,
    starts_with_text,
};
use crate::comment::{after_skip, skip_comments_and_whitespace};
use crate::function::{Function, FunctionView, parse_function, spec_function};

verus! {

/// The header of a module: the values of its `.version`, `.target` and
/// `.address_size` directives.
#[derive(Debug, PartialEq)]
pub struct Preamble<'a> {
    pub version: &'a str,
    pub target: &'a str,
    pub address_size: &'a str,
}

/// A global variable: the text between `.global` and the `;` that ends it.
#[derive(Debug, PartialEq)]
pub struct Global<'a> {
    pub raw_string: &'a str,
}

/// A preamble as sequences.
pub ghost struct PreambleView {
    pub version: Seq<char>,
    pub target: Seq<char>,
    pub address_size: Seq<char>,
}

impl<'a> View for Preamble<'a> {
    type V = PreambleView;

    open spec fn view(&self) -> PreambleView {
        PreambleView { version: self.version@, target: self.target@, address_size: self.address_size@ }
    }
}

impl<'a> View for Global<'a> {
    type V = Seq<char>;

    open spec fn view(&self) -> Seq<char> {
        self.raw_string@
    }
}

/// A directive `kw`, one or more blanks, and a nonempty value that runs to the
/// end of the line. Gives what follows and the value.
pub open spec fn spec_directive(s: Seq<char>, kw: Seq<char>) -> Option<(Seq<char>, Seq<char>)> {
    let t = s.subrange(kw.len() as int, s.len() as int);
    let u = after_run(t, CharClass::Blank);
    let e = run_end(u, 0, CharClass::NotNewline);
    if starts_with(s, kw) && u.len() < t.len() && e > 0 {
        Some((u.subrange(e, u.len() as int), u.subrange(0, e)))
    } else {
        None
    }
}

/// The preamble: `.version`, `.target` and `.address_size` directives in that
/// order, with comments and white space between them. A failure holds the text
/// at which the directive that did not match was looked for.
pub open spec fn spec_preamble(s: Seq<char>) -> Result<(Seq<char>, PreambleView), Seq<char>> {
    match spec_directive(s, ".version"@) {
        None => Err(s),
        Some((r1, version)) => match spec_directive(after_skip(r1), ".target"@) {
            None => Err(after_skip(r1)),
            Some((r2, target)) => match spec_directive(after_skip(r2), ".address_size"@) {
                None => Err(after_skip(r2)),
                Some((r3, address_size)) => Ok((r3, PreambleView { version, target, address_size })),
            },
        },
    }
}

/// A global variable: `.global`, one or more blanks, and text up to the first
/// `;`, which ends it.
pub open spec fn spec_global(s: Seq<char>) -> Option<(Seq<char>, Seq<char>)> {
    let t = s.subrange(7, s.len() as int);
    let u = after_run(t, CharClass::Blank);
    let e = run_end(u, 0, CharClass::NotSemicolon);
    if starts_with(s, ".global"@) && u.len() < t.len() && e < u.len() {
        Some((u.subrange(e + 1, u.len() as int), u.subrange(0, e)))
    } else {
        None
    }
}

/// Reads one preamble directive and its value.
fn parse_directive<'a>(input: &'a str, kw: &str) -> (r: Option<(&'a str, &'a str)>)
    ensures
        match spec_directive(input@, kw@) {
            Some((rest, v)) => r matches Some((q, w)) && q@ == rest && w@ == v,
            None => r is None,
        },
        r matches Some((q, _)) ==> q@.len() < input@.len(),
{
    if !starts_with_text(input, kw) {
        return None;
    }
    let len = input.unicode_len();
    let t = input.substring_char(kw.unicode_len(), len);
    let u = skip_run(t, CharClass::Blank);
    let ul = u.unicode_len();
    if ul >= t.unicode_len() {
        return None;
    }
    let e = scan_class(u, ul, 0, CharClass::NotNewline);
    if e == 0 {
        return None;
    }
    Some((u.substring_char(e, ul), u.substring_char(0, e)))
}

/// Parses the preamble of a module.
pub fn parse_preamble<'a>(input: &'a str) -> (r: Result<(&'a str, Preamble<'a>), ParseError<'a>>)
    ensures
        match spec_preamble(input@) {
            Ok((rest, p)) => r matches Ok((q, v)) && q@ == rest && v@ == p,
            Err(at) => r matches Err(e) && e is Mismatch && error_at(e) == at,
        },
{
    let (r1, version) = match parse_directive(input, ".version") {
        Some(v) => v,
        None => return Err(ParseError::Mismatch(input)),
    };
    let u1 = skip_comments_and_whitespace(r1);
    let (r2, target) = match parse_directive(u1, ".target") {
        Some(v) => v,
        None => return Err(ParseError::Mismatch(u1)),
    };
    let u2 = skip_comments_and_whitespace(r2);
    match parse_directive(u2, ".address_size") {
        Some((rest, address_size)) => Ok((rest, Preamble { version, target, address_size })),
        None => Err(ParseError::Mismatch(u2)),
    }
}

/// Parses a global variable declaration.
pub fn parse_global<'a>(input: &'a str) -> (r: Result<(&'a str, Global<'a>), ParseError<'a>>)
    ensures
        match spec_global(input@) {
            Some((rest, g)) => r matches Ok((q, v)) && q@ == rest && v@ == g,
            None => r == Err::<(&str, Global), ParseError>(ParseError::Mismatch(input)),
        },
        r is Ok ==> r->Ok_0.0@.len() < input@.len(),
{
    proof {
        reveal_strlit(".global");
    }
    if !starts_with_text(input, ".global") {
        return Err(ParseError::Mismatch(input));
    }
    let len = input.unicode_len();
    let t = input.substring_char(7, len);
    let u = skip_run(t, CharClass::Blank);
    let ul = u.unicode_len();
    if ul >= t.unicode_len() {
        return Err(ParseError::Mismatch(input));
    }
    let e = scan_class(u, ul, 0, CharClass::NotSemicolon);
    if e == ul {
        return Err(ParseError::Mismatch(input));
    }
    Ok((u.substring_char(e + 1, ul), Global { raw_string: u.substring_char(0, e) }))
}


/// One declaration of a module.
#[derive(Debug, PartialEq)]
pub enum FunctionOrGlobal<'a> {
    Function(Function<'a>),
    Global(Global<'a>),
}

/// A declaration as sequences.
pub ghost enum DeclarationView {
    Function(FunctionView),
    Global(Seq<char>),
}

impl<'a> View for FunctionOrGlobal<'a> {
    type V = DeclarationView;

    open spec fn view(&self) -> DeclarationView {
        match self {
            FunctionOrGlobal::Function(f) => DeclarationView::Function(f@),
            FunctionOrGlobal::Global(g) => DeclarationView::Global(g@),
        }
    }
}

/// One step over the text after the preamble: past comments and white space,
/// nothing when no text is left; else a function, failing that a global, both
/// tried at the same place, where a failure of both is anchored. A parameter
/// type without a known width ends the step without trying a global.
pub open spec fn spec_next(s: Seq<char>) -> Option<Outcome<DeclarationView>> {
    let u = after_skip(s);
    if u.len() == 0 {
        None
    } else {
        match spec_function(u) {
            Outcome::Parsed(rest, f) => Some(Outcome::Parsed(rest, DeclarationView::Function(f))),
            Outcome::BadType(ty) => Some(Outcome::BadType(ty)),
            Outcome::Refused(_) => match spec_global(u) {
                Some((rest, g)) => Some(Outcome::Parsed(rest, DeclarationView::Global(g))),
                None => Some(Outcome::Refused(u)),
            },
        }
    }
}

/// A module: optional comments and white space, then its preamble. Gives the
/// text after the preamble and the preamble, or where the preamble failed.
pub open spec fn spec_module(s: Seq<char>) -> Result<(Seq<char>, PreambleView), Seq<char>> {
    spec_preamble(after_skip(s))
}

/// A cursor over the declarations of a module. It holds the preamble and the
/// text that is left, or nothing once the walk has ended.
#[derive(Debug)]
pub struct PtxParser<'a> {
    preamble: Preamble<'a>,
    body: Option<&'a str>,
}

impl<'a> PtxParser<'a> {
    /// The text that is left, or `None` once the walk has ended.
    pub closed spec fn spec_body(&self) -> Option<Seq<char>> {
        match self.body {
            Some(b) => Some(b@),
            None => None,
        }
    }

    /// The preamble the cursor was made with.
    pub closed spec fn spec_preamble(&self) -> PreambleView {
        self.preamble@
    }

    /// Reads the preamble at the start of `text` and makes a cursor over the
    /// declarations that follow it.
    pub fn new(text: &'a str) -> (r: Result<PtxParser<'a>, ParseError<'a>>)
        ensures
            match spec_module(text@) {
                Ok((rest, p)) => r matches Ok(c) && c.spec_body() == Some(rest)
                    && c.spec_preamble() == p,
                Err(at) => r matches Err(e) && e is Mismatch && error_at(e) == at,
            },
    {
        match parse_preamble(skip_comments_and_whitespace(text)) {
            Ok((body, preamble)) => Ok(PtxParser { preamble, body: Some(body) }),
            Err(e) => Err(e),
        }
    }

    /// The module's preamble.
    pub fn preamble(&self) -> (r: &Preamble<'a>)
        ensures
            r@ == self.spec_preamble(),
    {
        &self.preamble
    }

    /// The text that is left, or `None` once the walk has ended.
    pub fn remaining(&self) -> (r: Option<&'a str>)
        ensures
            match r {
                Some(b) => self.spec_body() == Some(b@),
                None => self.spec_body() is None,
            },
    {
        self.body
    }

    /// Reads the next declaration. Gives `None` when only comments and white
    /// space are left, or once the walk has ended; a failure is given once and
    /// ends the walk.
    pub fn next(&mut self) -> (r: Option<Result<(&'a str, FunctionOrGlobal<'a>), ParseError<'a>>>)
        ensures
            final(self).spec_preamble() == old(self).spec_preamble(),
            match old(self).spec_body() {
                None => r is None && final(self).spec_body() is None,
                Some(s) => match spec_next(s) {
                    None => r is None && final(self).spec_body() is None,
                    Some(o) => r matches Some(x) && outcome_result(x, o) && match o {
                        Outcome::Parsed(rest, _) => final(self).spec_body() == Some(rest)
                            && rest.len() < s.len(),
                        _ => final(self).spec_body() is None,
                    },
                },
            },
    {
        let body = match self.body {
            Some(b) => b,
            None => return None,
        };
        let u = skip_comments_and_whitespace(body);
        if u.unicode_len() == 0 {
            self.body = None;
            return None;
        }
        let step = match parse_function(u) {
            Ok((rest, f)) => Ok((rest, FunctionOrGlobal::Function(f))),
            Err(ParseError::UnknownType(ty)) => Err(ParseError::UnknownType(ty)),
            Err(ParseError::Mismatch(_)) => match parse_global(u) {
                Ok((rest, g)) => Ok((rest, FunctionOrGlobal::Global(g))),
                Err(e) => Err(e),
            },
        };
        match step {
            Ok((rest, d)) => {
                self.body = Some(rest);
                Some(Ok((rest, d)))
            },
            Err(e) => {
                self.body = None;
                Some(Err(e))
            },
        }
    }
}


/// A failure, over sequences.
pub ghost enum FailureView {
    Mismatch(Seq<char>),
    UnknownType(Seq<char>),
}

/// A failure as a sequence.
pub open spec fn failure_of(e: ParseError) -> FailureView {
    match e {
        ParseError::Mismatch(at) => FailureView::Mismatch(at@),
        ParseError::UnknownType(ty) => FailureView::UnknownType(ty@),
    }
}

/// The declarations that the steps from `s` yield, in order, when the walk ends
/// with no text left; else the failure of the step that failed.
pub open spec fn spec_declarations(s: Seq<char>) -> Result<Seq<DeclarationView>, FailureView>
    decreases s.len(),
{
    match spec_next(s) {
        None => Ok(Seq::empty()),
        Some(Outcome::Parsed(rest, d)) => if rest.len() < s.len() {
            match spec_declarations(rest) {
                Ok(ds) => Ok(seq![d] + ds),
                Err(f) => Err(f),
            }
        } else {
            Err(FailureView::Mismatch(s))
        },
        Some(Outcome::Refused(at)) => Err(FailureView::Mismatch(at)),
        Some(Outcome::BadType(ty)) => Err(FailureView::UnknownType(ty)),
    }
}

/// The functions among `ds`, in order.
pub open spec fn functions_of(ds: Seq<DeclarationView>) -> Seq<FunctionView>
    decreases ds.len(),
{
    if ds.len() == 0 {
        Seq::empty()
    } else {
        let p = functions_of(ds.drop_last());
        match ds.last() {
            DeclarationView::Function(f) => p.push(f),
            DeclarationView::Global(_) => p,
        }
    }
}

/// The globals among `ds`, in order.
pub open spec fn globals_of(ds: Seq<DeclarationView>) -> Seq<Seq<char>>
    decreases ds.len(),
{
    if ds.len() == 0 {
        Seq::empty()
    } else {
        let p = globals_of(ds.drop_last());
        match ds.last() {
            DeclarationView::Function(_) => p,
            DeclarationView::Global(g) => p.push(g),
        }
    }
}

/// `ds` put before the declarations of `r`, when there are some.
pub open spec fn prepend_declarations(
    ds: Seq<DeclarationView>,
    r: Result<Seq<DeclarationView>, FailureView>,
) -> Result<Seq<DeclarationView>, FailureView> {
    match r {
        Ok(q) => Ok(ds + q),
        Err(f) => Err(f),
    }
}

/// A whole module, read at once: its preamble, its functions and its globals.
#[derive(Debug)]
pub struct PtxFile<'a> {
    preamble: Preamble<'a>,
    functions: Vec<Function<'a>>,
    globals: Vec<Global<'a>>,
}

impl<'a> PtxFile<'a> {
    /// The module's preamble.
    pub closed spec fn spec_preamble(&self) -> PreambleView {
        self.preamble@
    }

    /// The module's functions, in order.
    pub closed spec fn spec_functions(&self) -> Seq<FunctionView> {
        self.functions@.map_values(|f: Function| f@)
    }

    /// The module's globals, in order.
    pub closed spec fn spec_globals(&self) -> Seq<Seq<char>> {
        self.globals@.map_values(|g: Global| g@)
    }

    /// Reads a module: its preamble, then declarations until only comments and
    /// white space are left. Fails when the preamble or a declaration does.
    pub fn parse(text: &'a str) -> (r: Result<PtxFile<'a>, ParseError<'a>>)
        ensures
            match spec_module(text@) {
                Err(at) => r matches Err(e) && failure_of(e) == FailureView::Mismatch(at),
                Ok((rest, pre)) => match spec_declarations(rest) {
                    Ok(ds) => r matches Ok(m) && m.spec_preamble() == pre && m.spec_functions()
                        == functions_of(ds) && m.spec_globals() == globals_of(ds),
                    Err(f) => r matches Err(e) && failure_of(e) == f,
                },
            },
    {
        let mut cursor = match PtxParser::new(text) {
            Ok(c) => c,
            Err(e) => return Err(e),
        };
        let ghost start = cursor.spec_body()->0;
        let ghost mut seen: Seq<DeclarationView> = Seq::empty();
        let mut functions: Vec<Function<'a>> = Vec::new();
        let mut globals: Vec<Global<'a>> = Vec::new();
        let mut done = false;
        proof {
            assert(functions@.map_values(|f: Function| f@) =~= functions_of(seen));
            assert(globals@.map_values(|g: Global| g@) =~= globals_of(seen));
            match spec_declarations(start) {
                Ok(q) => assert(seen + q =~= q),
                Err(_) => {},
            }
        }
        while !done
            invariant
                spec_module(text@) == Ok::<(Seq<char>, PreambleView), Seq<char>>((start, cursor.spec_preamble())),
                !done ==> cursor.spec_body() is Some,
                !done ==> spec_declarations(start) == prepend_declarations(
                    seen,
                    spec_declarations(cursor.spec_body()->0),
                ),
                done ==> spec_declarations(start) == Ok::<Seq<DeclarationView>, FailureView>(seen),
                functions@.map_values(|f: Function| f@) == functions_of(seen),
                globals@.map_values(|g: Global| g@) == globals_of(seen),
            decreases (if done { 0int } else { cursor.spec_body()->0.len() + 1int }),
        {
            let ghost s = cursor.spec_body()->0;
            match cursor.next() {
                None => {
                    assert(seen + Seq::<DeclarationView>::empty() =~= seen);
                    done = true;
                },
                Some(Ok((_, d))) => {
                    let ghost dv = d@;
                    proof {
                        let rest = cursor.spec_body()->0;
                        assert((seen + seq![dv]).drop_last() =~= seen);
                        match spec_declarations(rest) {
                            Ok(q) => assert(seen + (seq![dv] + q) =~= seen + seq![dv] + q),
                            Err(_) => {},
                        }
                    }
                    match d {
                        FunctionOrGlobal::Function(f) => {
                            functions.push(f);
                        },
                        FunctionOrGlobal::Global(g) => {
                            globals.push(g);
                        },
                    }
                    proof {
                        seen = seen + seq![dv];
                        assert(functions@.map_values(|f: Function| f@) =~= functions_of(seen));
                        assert(globals@.map_values(|g: Global| g@) =~= globals_of(seen));
                    }
                },
                Some(Err(e)) => {
                    return Err(e);
                },
            }
        }
        Ok(PtxFile { preamble: cursor.preamble, functions, globals })
    }

    /// The module's preamble.
    pub fn preamble(&self) -> (r: &Preamble<'a>)
        ensures
            r@ == self.spec_preamble(),
    {
        &self.preamble
    }

    /// The module's functions, in order.
    pub fn functions(&self) -> (r: &Vec<Function<'a>>)
        ensures
            r@.map_values(|f: Function| f@) == self.spec_functions(),
    {
        &self.functions
    }

    /// The module's global variables, in order.
    pub fn globals(&self) -> (r: &Vec<Global<'a>>)
        ensures
            r@.map_values(|g: Global| g@) == self.spec_globals(),
    {
        &self.globals
    }
}

} // verus!
