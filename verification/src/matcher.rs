//! The compiled matcher. The one thing this library does not prove is the
//! matching engine itself: a `Matcher` pairs a compiled `regex::Regex` with
//! the source text it was compiled from, and what matching returns is named
//! by uninterpreted functions of that source text, the line, and the group
//! name. Everything downstream of a match is verified against those names.
use vstd::prelude::*;

verus! {

#[verifier::external_type_specification]
#[verifier::external_body]
pub struct ExRegex(regex::Regex);

/// Whether the engine accepts the pattern text `src` and compiles it. The
/// engine is deterministic: acceptance depends on the pattern text alone.
pub uninterp spec fn engine_accepts(src: Seq<char>) -> bool;

/// Whether the pattern compiled from `src` matches `line`. The engine is
/// deterministic: the outcome depends on the source text and the line alone.
pub uninterp spec fn match_found(src: Seq<char>, line: Seq<char>) -> bool;

/// The text that the capture group called `name` of the pattern compiled from
/// `src` captures on `line`; `None` where the pattern does not match, the
/// group does not exist, or the group took no part in the match.
pub uninterp spec fn capture_text(src: Seq<char>, line: Seq<char>, name: Seq<char>) -> Option<
    Seq<char>,
>;

/// A compiled matcher together with the source text it was compiled from.
/// The only constructor is `Matcher::new`, so the pairing always holds.
pub struct Matcher {
    re: regex::Regex,
    source: Vec<char>,
}

impl Matcher {
    /// The source text this matcher was compiled from.
    pub closed spec fn src(&self) -> Seq<char> {
        self.source@
    }

    /// The source text, as characters.
    pub fn source(&self) -> (r: &Vec<char>)
        ensures
            r@ == self.src(),
    {
        &self.source
    }

    /// Relies on regex::Regex::new: it compiles the given pattern text into
    /// a matcher, or reports a syntax error as a message. Whether the text is
    /// accepted is a function of the text alone.
    #[verifier::external_body]
    pub fn new(source: Vec<char>) -> (r: Result<Matcher, String>)
        ensures
            r is Ok <==> engine_accepts(source@),
            r matches Ok(m) ==> m.src() == source@,
    {
        let text: String = source.iter().collect();
        match regex::Regex::new(&text) {
            Ok(re) => Ok(Matcher { re, source }),
            Err(e) => Err(format!("{}", e)),
        }
    }

    /// Relies on regex::Regex::is_match: whether a compiled pattern matches
    /// a line depends only on the pattern's source text and the line.
    #[verifier::external_body]
    pub fn is_match(&self, line: &str) -> (r: bool)
        ensures
            r == match_found(self.src(), line@),
    {
        self.re.is_match(line)
    }

    /// Relies on regex::Regex::captures and regex::Captures::name: the text a
    /// named group captures depends only on the pattern's source text, the
    /// line, and the group name, and a group can capture only when the whole
    /// pattern matches.
    #[verifier::external_body]
    pub fn capture(&self, line: &str, name: &str) -> (r: Option<String>)
        ensures
            r matches Some(s) ==> capture_text(self.src(), line@, name@) == Some(s@)
                && match_found(self.src(), line@),
            r is None ==> capture_text(self.src(), line@, name@) is None,
    {
        self.re.captures(line).and_then(|c| c.name(name)).map(|m| m.as_str().to_string())
    }
}

} // verus!
