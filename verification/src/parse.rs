//! The public face of the library: template validation, compilation into a
//! `CompiledPattern`, per-line extraction of typed records, and fault-tolerant
//! batch ingestion.
use vstd::prelude::*;

use crate::Hit;
use crate::matcher::Matcher;
use crate::matcher::capture_text;
use crate::matcher::engine_accepts;
use crate::matcher::match_found;
use crate::numbers::parse_ipv4_str;
use crate::numbers::parse_u64_str;
use crate::numbers::spec_parse_ipv4;
use crate::numbers::spec_parse_u64;
use crate::registry::Token;
use crate::registry::name_str;
use crate::registry::placeholder_str;
use crate::registry::required_tokens;
use crate::registry::required_vec;
use crate::registry::token_name;
use crate::registry::token_placeholder;
use crate::template::build_source;
use crate::template::find_missing;
use crate::template::first_missing;
use crate::template::lemma_missing_from;
use crate::template::seg;
use crate::text::chars_of;
use vstd::string::StrSliceExecFns;

verus! {

/// Every way this library can refuse a template or a line, as one closed
/// tagged union: validation errors, compile errors, and per-line extraction
/// errors.
#[derive(Debug, PartialEq)]
pub enum ParseError {
    /// A required placeholder is absent: carries the placeholder text and the
    /// offending template.
    MissingTokenInPattern(String, String),
    /// A placeholder names no registry token: carries the unrecognized name.
    UnknownToken(String),
    /// The assembled pattern was refused by the matcher engine.
    Syntax(String),
    /// The line does not match the compiled pattern at all.
    NoMatch,
    /// A capture the record needs is absent from the match.
    MissingCapture(String),
    /// A captured field does not parse as its semantic type: carries the
    /// token name and the raw captured text.
    InvalidValue(String, String),
}

/// The mathematical image of a `ParseError`, over character sequences.
/// The engine's syntax message is not specified, so `Syntax` carries nothing.
pub enum ErrorView {
    MissingTokenInPattern { token: Seq<char>, template: Seq<char> },
    UnknownToken { token: Seq<char> },
    Syntax,
    NoMatch,
    MissingCapture { token: Seq<char> },
    InvalidValue { token: Seq<char>, raw: Seq<char> },
}

impl View for ParseError {
    type V = ErrorView;

    open spec fn view(&self) -> ErrorView {
        match self {
            ParseError::MissingTokenInPattern(t, p) => ErrorView::MissingTokenInPattern {
                token: t@,
                template: p@,
            },
            ParseError::UnknownToken(t) => ErrorView::UnknownToken { token: t@ },
            ParseError::Syntax(_) => ErrorView::Syntax,
            ParseError::NoMatch => ErrorView::NoMatch,
            ParseError::MissingCapture(t) => ErrorView::MissingCapture { token: t@ },
            ParseError::InvalidValue(t, r) => ErrorView::InvalidValue { token: t@, raw: r@ },
        }
    }
}

/// Check that every required placeholder occurs in the template; fail fast on
/// the first one missing, in registry order, naming the placeholder and the
/// template.
pub fn validate(template: &str) -> (r: Result<(), ParseError>)
    ensures
        r is Ok <==> first_missing(template@) is None,
        r matches Err(e) ==> first_missing(template@) matches Some(k) && e@
            == (ErrorView::MissingTokenInPattern {
            token: token_placeholder(required_tokens()[k]),
            template: template@,
        }),
{
    let tpl = chars_of(template);
    match find_missing(&tpl) {
        None => Ok(()),
        Some(k) => {
            proof {
                lemma_missing_from(template@, 0);
            }
            let req = required_vec();
            let ph = placeholder_str(req[k]);
            Err(ParseError::MissingTokenInPattern(ph.to_owned(), template.to_owned()))
        },
    }
}

/// The immutable result of compiling a template: a matcher and the ordered
/// list of tokens it captures.
pub struct CompiledPattern {
    m: Matcher,
    names: Vec<Token>,
}

impl CompiledPattern {
    /// The matcher source text this pattern was compiled into.
    pub closed spec fn src(&self) -> Seq<char> {
        self.m.src()
    }

    /// The captured tokens, in the order their placeholders stand in the
    /// template.
    pub closed spec fn toks(&self) -> Seq<Token> {
        self.names@
    }

    /// The matcher source text, as characters.
    pub fn source(&self) -> (r: &Vec<char>)
        ensures
            r@ == self.src(),
    {
        self.m.source()
    }

    /// The captured tokens, in template order.
    pub fn tokens(&self) -> (r: Vec<Token>)
        ensures
            r@ == self.toks(),
    {
        let mut r: Vec<Token> = Vec::new();
        let mut i: usize = 0;
        while i < self.names.len()
            invariant
                i <= self.names@.len(),
                r@ == self.names@.take(i as int),
                self.toks() == self.names@,
            decreases self.names@.len() - i,
        {
            r.push(self.names[i]);
            i = i + 1;
            proof {
                assert(r@ =~= self.names@.take(i as int));
            }
        }
        proof {
            assert(self.names@.take(self.names@.len() as int) =~= self.names@);
        }
        r
    }
}

/// Compile a template: validate it, segment it into literal and placeholder
/// spans, escape the literals, substitute named capture groups, and hand the
/// concatenation to the matcher engine. Compilation succeeds exactly where
/// the template validates, every placeholder is recognized, and the engine
/// accepts the assembled source, so the outcome is determined by the
/// template text alone.
pub fn compile(template: &str) -> (r: Result<CompiledPattern, ParseError>)
    ensures
        first_missing(template@) matches Some(k) ==> r matches Err(e) && e@
            == (ErrorView::MissingTokenInPattern {
            token: token_placeholder(required_tokens()[k]),
            template: template@,
        }),
        first_missing(template@) is None ==> (seg(template@) matches Err(u) ==> r matches Err(e)
            && e@ == (ErrorView::UnknownToken { token: u })),
        first_missing(template@) is None ==> (seg(template@) matches Ok(p) ==> (r is Ok
            <==> engine_accepts(p.0))),
        first_missing(template@) is None ==> (seg(template@) matches Ok(p) ==> match r {
            Ok(cp) => cp.src() == p.0 && cp.toks() == p.1,
            Err(e) => e@ == ErrorView::Syntax,
        }),
{
    let tpl = chars_of(template);
    match find_missing(&tpl) {
        Some(k) => {
            proof {
                lemma_missing_from(template@, 0);
            }
            let req = required_vec();
            let ph = placeholder_str(req[k]);
            return Err(ParseError::MissingTokenInPattern(ph.to_owned(), template.to_owned()));
        },
        None => {},
    }
    match build_source(&tpl) {
        Err((a, b)) => {
            let u = template.substring_char(a, b);
            Err(ParseError::UnknownToken(u.to_owned()))
        },
        Ok((src, toks)) => match Matcher::new(src) {
            Ok(m) => Ok(CompiledPattern { m, names: toks }),
            Err(msg) => Err(ParseError::Syntax(msg)),
        },
    }
}

/// The outcome of extracting one line against a pattern with source `src`:
/// no match at all, a missing capture, a field that does not parse, or the
/// typed record. Fields are read in the record's order: address, then status.
pub open spec fn extract_spec(src: Seq<char>, line: Seq<char>) -> Result<Hit, ErrorView> {
    if !match_found(src, line) {
        Err(ErrorView::NoMatch)
    } else {
        match capture_text(src, line, token_name(Token::Addr)) {
            None => Err(ErrorView::MissingCapture { token: token_name(Token::Addr) }),
            Some(a_raw) => match spec_parse_ipv4(a_raw) {
                None => Err(ErrorView::InvalidValue { token: token_name(Token::Addr), raw: a_raw }),
                Some(addr) => match capture_text(src, line, token_name(Token::Status)) {
                    None => Err(ErrorView::MissingCapture { token: token_name(Token::Status) }),
                    Some(s_raw) => match spec_parse_u64(s_raw) {
                        None => Err(
                            ErrorView::InvalidValue {
                                token: token_name(Token::Status),
                                raw: s_raw,
                            },
                        ),
                        Some(status) => Ok(Hit { addr, status }),
                    },
                },
            },
        }
    }
}

/// Extract one line's typed record, or say exactly why the line was refused.
/// Stateless: the pattern is read-only.
pub fn extract(line: &str, cp: &CompiledPattern) -> (r: Result<Hit, ParseError>)
    ensures
        extract_spec(cp.src(), line@) matches Ok(h) ==> r == Ok::<Hit, ParseError>(h),
        extract_spec(cp.src(), line@) matches Err(e) ==> r matches Err(pe) && pe@ == e,
{
    if !cp.m.is_match(line) {
        return Err(ParseError::NoMatch);
    }
    let a_raw = match cp.m.capture(line, name_str(Token::Addr)) {
        None => {
            return Err(ParseError::MissingCapture(name_str(Token::Addr).to_owned()));
        },
        Some(s) => s,
    };
    let addr = match parse_ipv4_str(a_raw.as_str()) {
        None => {
            return Err(ParseError::InvalidValue(name_str(Token::Addr).to_owned(), a_raw));
        },
        Some(a) => a,
    };
    let s_raw = match cp.m.capture(line, name_str(Token::Status)) {
        None => {
            return Err(ParseError::MissingCapture(name_str(Token::Status).to_owned()));
        },
        Some(s) => s,
    };
    let status = match parse_u64_str(s_raw.as_str()) {
        None => {
            return Err(ParseError::InvalidValue(name_str(Token::Status).to_owned(), s_raw));
        },
        Some(v) => v,
    };
    Ok(Hit { addr, status })
}

/// The views of a batch of lines.
pub open spec fn views_of(lines: Seq<String>) -> Seq<Seq<char>> {
    lines.map_values(|s: String| s@)
}

/// The records of the lines that extract successfully, in input order.
pub open spec fn ok_results(src: Seq<char>, lines: Seq<Seq<char>>) -> Seq<Hit>
    decreases lines.len(),
{
    if lines.len() == 0 {
        Seq::empty()
    } else {
        let rest = ok_results(src, lines.drop_last());
        match extract_spec(src, lines.last()) {
            Ok(h) => rest.push(h),
            Err(_) => rest,
        }
    }
}

/// The indexed errors of the lines that fail, in input order.
pub open spec fn err_results(src: Seq<char>, lines: Seq<Seq<char>>) -> Seq<(int, ErrorView)>
    decreases lines.len(),
{
    if lines.len() == 0 {
        Seq::empty()
    } else {
        let rest = err_results(src, lines.drop_last());
        match extract_spec(src, lines.last()) {
            Ok(_) => rest,
            Err(e) => rest.push((lines.len() - 1, e)),
        }
    }
}

/// Apply a compiled pattern to every line, in order; collect the records of
/// the lines that parse and, separately, an indexed error for each line that
/// does not. One line's failure never stops the rest.
pub fn ingest(lines: &Vec<String>, cp: &CompiledPattern) -> (r: (
    Vec<Hit>,
    Vec<(usize, ParseError)>,
))
    ensures
        r.0@ == ok_results(cp.src(), views_of(lines@)),
        r.1@.len() == err_results(cp.src(), views_of(lines@)).len(),
        forall|j: int|
            0 <= j < r.1@.len() ==> (#[trigger] r.1@[j]).0 as int == err_results(
                cp.src(),
                views_of(lines@),
            )[j].0 && r.1@[j].1@ == err_results(cp.src(), views_of(lines@))[j].1,
{
    let ghost all = views_of(lines@);
    let mut hits: Vec<Hit> = Vec::new();
    let mut errs: Vec<(usize, ParseError)> = Vec::new();
    let mut i: usize = 0;
    proof {
        assert(all.take(0) =~= Seq::<Seq<char>>::empty());
    }
    while i < lines.len()
        invariant
            i <= lines@.len(),
            all == views_of(lines@),
            all.len() == lines@.len(),
            hits@ == ok_results(cp.src(), all.take(i as int)),
            errs@.len() == err_results(cp.src(), all.take(i as int)).len(),
            forall|j: int|
                0 <= j < errs@.len() ==> (#[trigger] errs@[j]).0 as int == err_results(
                    cp.src(),
                    all.take(i as int),
                )[j].0 && errs@[j].1@ == err_results(cp.src(), all.take(i as int))[j].1,
        decreases lines@.len() - i,
    {
        proof {
            assert(all.take(i + 1).drop_last() =~= all.take(i as int));
            assert(all.take(i + 1).last() == lines@[i as int]@);
        }
        match extract(lines[i].as_str(), cp) {
            Ok(h) => {
                hits.push(h);
            },
            Err(e) => {
                errs.push((i, e));
            },
        }
        i = i + 1;
    }
    proof {
        assert(all.take(i as int) =~= all);
    }
    (hits, errs)
}

/// Every line of an all-well-formed batch yields a record and no error.
pub proof fn lemma_all_ok(src: Seq<char>, lines: Seq<Seq<char>>)
    requires
        forall|i: int| 0 <= i < lines.len() ==> (#[trigger] extract_spec(src, lines[i])) is Ok,
    ensures
        ok_results(src, lines).len() == lines.len(),
        err_results(src, lines).len() == 0,
    decreases lines.len(),
{
    if lines.len() == 0 {
    } else {
        assert(forall|i: int|
            0 <= i < lines.drop_last().len() ==> lines.drop_last()[i] == lines[i]);
        lemma_all_ok(src, lines.drop_last());
    }
}

/// Partial-failure isolation: if exactly one line of a batch is malformed,
/// ingestion yields a record for every other line and exactly one error,
/// carrying that line's index and that line's extraction error.
pub proof fn lemma_partial_failure(src: Seq<char>, lines: Seq<Seq<char>>, k: int)
    requires
        0 <= k < lines.len(),
        forall|i: int|
            0 <= i < lines.len() && i != k ==> (#[trigger] extract_spec(src, lines[i])) is Ok,
        extract_spec(src, lines[k]) is Err,
    ensures
        ok_results(src, lines).len() == lines.len() - 1,
        err_results(src, lines).len() == 1,
        err_results(src, lines)[0].0 == k,
        extract_spec(src, lines[k]) matches Err(e) && err_results(src, lines)[0].1 == e,
    decreases lines.len(),
{
    assert(forall|i: int| 0 <= i < lines.drop_last().len() ==> lines.drop_last()[i] == lines[i]);
    if k == lines.len() - 1 {
        lemma_all_ok(src, lines.drop_last());
    } else {
        lemma_partial_failure(src, lines.drop_last(), k);
    }
}

} // verus!
