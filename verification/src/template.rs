//! The template compiler: a template is segmented into literal spans and
//! `{{name}}` placeholder spans; literal characters are escaped, placeholders
//! are replaced by their named capture groups, and the segments are
//! concatenated into the source text of one matcher.
use vstd::prelude::*;

use crate::registry::Token;
use crate::registry::all_tokens;
use crate::registry::group_str;
use crate::registry::placeholder_str;
use crate::registry::required_tokens;
use crate::registry::required_vec;
use crate::registry::token_group;
use crate::registry::token_name;
use crate::registry::token_placeholder;
use crate::registry::tokens_vec;
use crate::text::chars_of;
use crate::text::contains_at;
use crate::text::contains_sub;
use crate::text::find_sub;
use crate::text::match_at;
use vstd::string::StrSliceExecFns;

verus! {

/// A character the matcher language treats specially when it stands as
/// literal text.
pub open spec fn is_meta(c: char) -> bool {
    ||| c == '['
    ||| c == ']'
    ||| c == '"'
    ||| c == '.'
    ||| c == '+'
    ||| c == '*'
    ||| c == '?'
    ||| c == '('
    ||| c == ')'
    ||| c == '{'
    ||| c == '}'
    ||| c == '|'
    ||| c == '^'
    ||| c == '$'
    ||| c == '\\'
}

/// How one literal character of the template reads in the matcher source:
/// a space becomes `\s`, a metacharacter is preceded by a backslash, and
/// every other character stands for itself.
pub open spec fn esc(c: char) -> Seq<char> {
    if c == ' ' {
        seq!['\\', 's']
    } else if is_meta(c) {
        seq!['\\', c]
    } else {
        seq![c]
    }
}

/// The first token, in registry order starting at position `k`, whose
/// placeholder is a prefix of `tpl`.
pub open spec fn find_tok_from(tpl: Seq<char>, k: int) -> Option<Token>
    decreases all_tokens().len() - k,
{
    if k < 0 || k >= all_tokens().len() {
        None
    } else if token_placeholder(all_tokens()[k]).is_prefix_of(tpl) {
        Some(all_tokens()[k])
    } else {
        find_tok_from(tpl, k + 1)
    }
}

/// The token whose placeholder is a prefix of `tpl`, if any.
pub open spec fn find_tok(tpl: Seq<char>) -> Option<Token> {
    find_tok_from(tpl, 0)
}

/// The least position `j >= from` at which the closing `}}` stands.
pub open spec fn find_close_from(tpl: Seq<char>, from: int) -> Option<int>
    decreases tpl.len() - from,
{
    if from < 0 || from + 2 > tpl.len() {
        None
    } else if tpl[from] == '}' && tpl[from + 1] == '}' {
        Some(from)
    } else {
        find_close_from(tpl, from + 1)
    }
}

/// The compiled source and the captured tokens of a template, or the text of
/// the first unrecognized placeholder.
pub open spec fn seg(tpl: Seq<char>) -> Result<(Seq<char>, Seq<Token>), Seq<char>>
    decreases tpl.len(),
    via seg_decreases
{
    if tpl.len() == 0 {
        Ok((Seq::empty(), Seq::empty()))
    } else {
        match find_tok(tpl) {
            Some(t) => match seg(tpl.skip(token_placeholder(t).len() as int)) {
                Ok(p) => Ok((token_group(t) + p.0, seq![t] + p.1)),
                Err(u) => Err(u),
            },
            None => {
                if tpl.len() >= 2 && tpl[0] == '{' && tpl[1] == '{' {
                    match find_close_from(tpl, 2) {
                        Some(j) => Err(tpl.subrange(2, j)),
                        None => match seg(tpl.skip(1)) {
                            Ok(p) => Ok((esc(tpl[0]) + p.0, p.1)),
                            Err(u) => Err(u),
                        },
                    }
                } else {
                    match seg(tpl.skip(1)) {
                        Ok(p) => Ok((esc(tpl[0]) + p.0, p.1)),
                        Err(u) => Err(u),
                    }
                }
            },
        }
    }
}

#[via_fn]
proof fn seg_decreases(tpl: Seq<char>) {
    match find_tok(tpl) {
        Some(t) => {
            lemma_find_tok_prefix(tpl, 0);
            lemma_placeholder_len(t);
        },
        None => {},
    }
}

/// Every placeholder is at least eight characters long.
pub proof fn lemma_placeholder_len(t: Token)
    ensures
        8 <= token_placeholder(t).len() <= 22,
{
    match t {
        Token::Addr => assert(token_name(Token::Addr).len() == 4),
        Token::User => assert(token_name(Token::User).len() == 4),
        Token::Time => assert(token_name(Token::Time).len() == 4),
        Token::Request => assert(token_name(Token::Request).len() == 7),
        Token::Status => assert(token_name(Token::Status).len() == 6),
        Token::Bytes => assert(token_name(Token::Bytes).len() == 5),
        Token::Referrer => assert(token_name(Token::Referrer).len() == 8),
        Token::UserAgent => assert(token_name(Token::UserAgent).len() == 10),
        Token::HttpForwardedFor => assert(token_name(Token::HttpForwardedFor).len() == 18),
    }
}

/// A found token's placeholder really is a prefix of the template.
pub proof fn lemma_find_tok_prefix(tpl: Seq<char>, k: int)
    ensures
        find_tok_from(tpl, k) matches Some(t) ==> token_placeholder(t).is_prefix_of(tpl),
    decreases all_tokens().len() - k,
{
    if k < 0 || k >= all_tokens().len() {
    } else if token_placeholder(all_tokens()[k]).is_prefix_of(tpl) {
    } else {
        lemma_find_tok_prefix(tpl, k + 1);
    }
}

/// The index, in the order of `required_tokens`, of the first required token
/// at or after position `k` whose placeholder does not occur in the template.
pub open spec fn missing_from(tpl: Seq<char>, k: int) -> Option<int>
    decreases required_tokens().len() - k,
{
    if k < 0 || k >= required_tokens().len() {
        None
    } else if !contains_sub(tpl, token_placeholder(required_tokens()[k])) {
        Some(k)
    } else {
        missing_from(tpl, k + 1)
    }
}

/// The first missing required token of a template, if any.
pub open spec fn first_missing(tpl: Seq<char>) -> Option<int> {
    missing_from(tpl, 0)
}

/// A missing index names a required token that is absent; `None` means every
/// required placeholder occurs.
pub proof fn lemma_missing_from(tpl: Seq<char>, k: int)
    requires
        0 <= k <= required_tokens().len(),
    ensures
        missing_from(tpl, k) matches Some(j) ==> k <= j < required_tokens().len()
            && !contains_sub(tpl, token_placeholder(required_tokens()[j])),
        missing_from(tpl, k) is None ==> forall|j: int|
            k <= j < required_tokens().len() ==> contains_sub(
                tpl,
                token_placeholder(required_tokens()[j]),
            ),
    decreases required_tokens().len() - k,
{
    if k >= required_tokens().len() {
    } else if !contains_sub(tpl, token_placeholder(required_tokens()[k])) {
    } else {
        lemma_missing_from(tpl, k + 1);
    }
}

/// Find the first required token whose placeholder is absent from the
/// template, if any.
pub fn find_missing(tpl: &Vec<char>) -> (r: Option<usize>)
    ensures
        r matches Some(k) ==> first_missing(tpl@) == Some(k as int),
        r is None ==> first_missing(tpl@) is None,
{
    let req = required_vec();
    let mut k: usize = 0;
    while k < req.len()
        invariant
            req@ == required_tokens(),
            k <= req@.len(),
            first_missing(tpl@) == missing_from(tpl@, k as int),
        decreases req@.len() - k,
    {
        let ph = chars_of(placeholder_str(req[k]));
        match find_sub(tpl, &ph) {
            None => {
                proof {
                    assert(missing_from(tpl@, k as int) == Some(k as int));
                }
                return Some(k);
            },
            Some(i) => {
                proof {
                    assert(contains_at(tpl@, token_placeholder(req@[k as int]), i as int));
                    assert(contains_sub(tpl@, token_placeholder(req@[k as int])));
                    assert(missing_from(tpl@, k as int) == missing_from(tpl@, k + 1));
                }
            },
        }
        k = k + 1;
    }
    None
}

/// Prepend an already-emitted source prefix and token prefix to the outcome
/// of compiling the rest of a template.
pub open spec fn seg_ext(
    pre: Seq<char>,
    pts: Seq<Token>,
    rest: Result<(Seq<char>, Seq<Token>), Seq<char>>,
) -> Result<(Seq<char>, Seq<Token>), Seq<char>> {
    match rest {
        Ok(p) => Ok((pre + p.0, pts + p.1)),
        Err(u) => Err(u),
    }
}

proof fn lemma_seg_ext_assoc(
    pre: Seq<char>,
    pts: Seq<Token>,
    mid_s: Seq<char>,
    mid_t: Seq<Token>,
    rest: Result<(Seq<char>, Seq<Token>), Seq<char>>,
)
    ensures
        seg_ext(pre, pts, seg_ext(mid_s, mid_t, rest)) == seg_ext(pre + mid_s, pts + mid_t, rest),
{
    match rest {
        Ok(p) => {
            assert(pre + (mid_s + p.0) =~= (pre + mid_s) + p.0);
            assert(pts + (mid_t + p.1) =~= (pts + mid_t) + p.1);
        },
        Err(_) => {},
    }
}

/// Which token's placeholder stands at position `i` of the template, if any,
/// preferring registry order as the specification does.
fn tok_at(tpl: &Vec<char>, i: usize) -> (r: Option<Token>)
    requires
        i <= tpl@.len(),
    ensures
        r matches Some(t) ==> find_tok(tpl@.skip(i as int)) == Some(t) && contains_at(
            tpl@,
            token_placeholder(t),
            i as int,
        ),
        r is None ==> find_tok(tpl@.skip(i as int)) is None,
{
    let ghost suf = tpl@.skip(i as int);
    let all = tokens_vec();
    let mut k: usize = 0;
    while k < all.len()
        invariant
            i <= tpl@.len(),
            suf == tpl@.skip(i as int),
            all@ == all_tokens(),
            k <= all@.len(),
            find_tok_from(suf, 0) == find_tok_from(suf, k as int),
        decreases all@.len() - k,
    {
        let t = all[k];
        let ph = chars_of(placeholder_str(t));
        let hit = match_at(tpl, i, &ph);
        proof {
            if ph@.len() <= suf.len() {
                assert(suf.subrange(0, ph@.len() as int) =~= tpl@.subrange(
                    i as int,
                    i + ph@.len(),
                ));
            }
            assert(hit == token_placeholder(t).is_prefix_of(suf));
        }
        if hit {
            proof {
                assert(find_tok_from(suf, k as int) == Some(t));
            }
            return Some(t);
        }
        proof {
            assert(find_tok_from(suf, k as int) == find_tok_from(suf, k + 1));
        }
        k = k + 1;
    }
    None
}

/// Find the closing `}}` at or after `from`, scanning the whole template.
fn close_at(tpl: &Vec<char>, from: usize) -> (r: Option<usize>)
    requires
        from <= tpl@.len(),
    ensures
        r matches Some(j) ==> from <= j && j + 2 <= tpl@.len() && find_close_from(
            tpl@,
            from as int,
        ) == Some(j as int),
        r is None ==> find_close_from(tpl@, from as int) is None,
{
    let n = tpl.len();
    let mut j = from;
    while j <= n && n - j >= 2
        invariant
            n == tpl@.len(),
            from <= j <= n,
            find_close_from(tpl@, from as int) == find_close_from(tpl@, j as int),
        decreases n - j,
    {
        if tpl[j] == '}' && tpl[j + 1] == '}' {
            proof {
                assert(find_close_from(tpl@, j as int) == Some(j as int));
            }
            return Some(j);
        }
        proof {
            assert(find_close_from(tpl@, j as int) == find_close_from(tpl@, j + 1));
        }
        j = j + 1;
    }
    proof {
        assert(find_close_from(tpl@, j as int) is None);
    }
    None
}

fn meta_exec(c: char) -> (r: bool)
    ensures
        r == is_meta(c),
{
    c == '[' || c == ']' || c == '"' || c == '.' || c == '+' || c == '*' || c == '?' || c == '('
        || c == ')' || c == '{' || c == '}' || c == '|' || c == '^' || c == '$' || c == '\\'
}

/// Append the escaped form of one literal template character.
fn push_esc(out: &mut Vec<char>, c: char)
    ensures
        final(out)@ == old(out)@ + esc(c),
{
    if c == ' ' {
        out.push('\\');
        out.push('s');
    } else if meta_exec(c) {
        out.push('\\');
        out.push(c);
    } else {
        out.push(c);
    }
    proof {
        assert(out@ =~= old(out)@ + esc(c));
    }
}

/// The relative position of the closing `}}` in a suffix agrees with its
/// absolute position in the whole template.
proof fn lemma_close_shift(s: Seq<char>, i: int, m: int)
    requires
        0 <= i <= s.len(),
        0 <= m,
    ensures
        find_close_from(s.skip(i), m) == match find_close_from(s, i + m) {
            Some(j) => Some(j - i),
            None => None::<int>,
        },
    decreases s.len() - i - m,
{
    if i + m + 2 > s.len() {
        assert(find_close_from(s.skip(i), m) is None);
        assert(find_close_from(s, i + m) is None);
    } else {
        assert(s.skip(i)[m] == s[i + m]);
        assert(s.skip(i)[m + 1] == s[i + m + 1]);
        if s[i + m] == '}' && s[i + m + 1] == '}' {
        } else {
            lemma_close_shift(s, i, m + 1);
        }
    }
}

/// Compile the template characters into the matcher source text and the
/// ordered captured tokens, or report the span of the first unrecognized
/// placeholder's name.
pub fn build_source(tpl: &Vec<char>) -> (r: Result<(Vec<char>, Vec<Token>), (usize, usize)>)
    ensures
        r matches Ok(p) ==> seg(tpl@) == Ok::<(Seq<char>, Seq<Token>), Seq<char>>((p.0@, p.1@)),
        r matches Err(span) ==> span.0 <= span.1 <= tpl@.len() && seg(tpl@) == Err::<
            (Seq<char>, Seq<Token>),
            Seq<char>,
        >(tpl@.subrange(span.0 as int, span.1 as int)),
{
    let n = tpl.len();
    let mut out: Vec<char> = Vec::new();
    let mut toks: Vec<Token> = Vec::new();
    let mut i: usize = 0;
    proof {
        assert(tpl@.skip(0) =~= tpl@);
        assert(out@ =~= Seq::<char>::empty());
        assert(toks@ =~= Seq::<Token>::empty());
        match seg(tpl@) {
            Ok(p) => {
                assert(out@ + p.0 =~= p.0);
                assert(toks@ + p.1 =~= p.1);
            },
            Err(_) => {},
        }
    }
    while i < n
        invariant
            n == tpl@.len(),
            i <= n,
            seg(tpl@) == seg_ext(out@, toks@, seg(tpl@.skip(i as int))),
        decreases n - i,
    {
        let ghost suf = tpl@.skip(i as int);
        proof {
            assert(suf.len() == n - i);
        }
        match tok_at(tpl, i) {
            Some(t) => {
                let g = chars_of(group_str(t));
                let ph_len = placeholder_str(t).unicode_len();
                proof {
                    assert(i + ph_len <= n);
                    assert(seg(suf) == seg_ext(
                        token_group(t),
                        seq![t],
                        seg(suf.skip(ph_len as int)),
                    ));
                    assert(suf.skip(ph_len as int) =~= tpl@.skip(i + ph_len));
                    lemma_seg_ext_assoc(
                        out@,
                        toks@,
                        token_group(t),
                        seq![t],
                        seg(tpl@.skip(i + ph_len)),
                    );
                }
                let ghost old_toks = toks@;
                let mut gg = g;
                out.append(&mut gg);
                toks.push(t);
                proof {
                    assert(toks@ =~= old_toks + seq![t]);
                }
                i = i + ph_len;
            },
            None => {
                let mut unknown = false;
                if i + 1 < n {
                    if tpl[i] == '{' {
                        let i1 = i + 1;
                        if tpl[i1] == '{' {
                            unknown = true;
                        }
                    }
                }
                proof {
                    assert(unknown == (suf.len() >= 2 && suf[0] == '{' && suf[1] == '{'));
                }
                if unknown {
                    let from = i + 2;
                    match close_at(tpl, from) {
                        Some(j) => {
                            proof {
                                lemma_close_shift(tpl@, i as int, 2);
                                assert(find_close_from(suf, 2) == Some(j - i));
                                assert(seg(suf) == Err::<(Seq<char>, Seq<Token>), Seq<char>>(
                                    suf.subrange(2, j - i),
                                ));
                                assert(suf.subrange(2, j - i) =~= tpl@.subrange(i + 2, j as int));
                            }
                            return Err((from, j));
                        },
                        None => {
                            proof {
                                lemma_close_shift(tpl@, i as int, 2);
                                assert(find_close_from(suf, 2) is None);
                                assert(seg(suf) == seg_ext(
                                    esc(suf[0]),
                                    Seq::<Token>::empty(),
                                    seg(suf.skip(1)),
                                ));
                                assert(suf.skip(1) =~= tpl@.skip(i + 1));
                                lemma_seg_ext_assoc(
                                    out@,
                                    toks@,
                                    esc(suf[0]),
                                    Seq::<Token>::empty(),
                                    seg(tpl@.skip(i + 1)),
                                );
                                assert(toks@ + Seq::<Token>::empty() =~= toks@);
                            }
                            push_esc(&mut out, tpl[i]);
                            i = i + 1;
                        },
                    }
                } else {
                    proof {
                        assert(seg(suf) == seg_ext(
                            esc(suf[0]),
                            Seq::<Token>::empty(),
                            seg(suf.skip(1)),
                        ));
                        assert(suf.skip(1) =~= tpl@.skip(i + 1));
                        lemma_seg_ext_assoc(
                            out@,
                            toks@,
                            esc(suf[0]),
                            Seq::<Token>::empty(),
                            seg(tpl@.skip(i + 1)),
                        );
                        assert(toks@ + Seq::<Token>::empty() =~= toks@);
                    }
                    push_esc(&mut out, tpl[i]);
                    i = i + 1;
                }
            },
        }
    }
    proof {
        assert(tpl@.skip(n as int) =~= Seq::<char>::empty());
        assert(seg(Seq::<char>::empty()) == Ok::<(Seq<char>, Seq<Token>), Seq<char>>((
            Seq::<char>::empty(),
            Seq::<Token>::empty(),
        )));
        assert(out@ + Seq::<char>::empty() =~= out@);
        assert(toks@ + Seq::<Token>::empty() =~= toks@);
    }
    Ok((out, toks))
}

/// If every required placeholder occurs, nothing is missing.
pub proof fn lemma_missing_from_none(tpl: Seq<char>, k: int)
    requires
        0 <= k <= required_tokens().len(),
        forall|j: int|
            k <= j < required_tokens().len() ==> contains_sub(
                tpl,
                token_placeholder(#[trigger] required_tokens()[j]),
            ),
    ensures
        missing_from(tpl, k) is None,
    decreases required_tokens().len() - k,
{
    if k >= required_tokens().len() {
    } else {
        assert(contains_sub(tpl, token_placeholder(required_tokens()[k])));
        lemma_missing_from_none(tpl, k + 1);
    }
}

/// Token-order independence of validation: whether a template validates
/// depends only on which required placeholders occur in it, never on where
/// they stand. Two templates in which the same required placeholders occur
/// validate alike.
pub proof fn lemma_validation_order_independent(t1: Seq<char>, t2: Seq<char>)
    requires
        forall|j: int|
            0 <= j < required_tokens().len() ==> (contains_sub(
                t1,
                token_placeholder(#[trigger] required_tokens()[j]),
            ) <==> contains_sub(t2, token_placeholder(required_tokens()[j]))),
    ensures
        first_missing(t1) is None <==> first_missing(t2) is None,
{
    lemma_missing_from(t1, 0);
    lemma_missing_from(t2, 0);
    if first_missing(t1) is None {
        lemma_missing_from_none(t2, 0);
    }
    if first_missing(t2) is None {
        lemma_missing_from_none(t1, 0);
    }
}

/// Every literal character of a template, escaped, in order.
pub open spec fn escape_all(tpl: Seq<char>) -> Seq<char>
    decreases tpl.len(),
{
    if tpl.len() == 0 {
        Seq::empty()
    } else {
        esc(tpl[0]) + escape_all(tpl.skip(1))
    }
}

/// Literal-escaping correctness, at the level of the emitted source: a
/// template without placeholders (no opening brace at all) compiles to
/// exactly its characters escaped one by one -- a space to a whitespace
/// class, a metacharacter behind a backslash, anything else unchanged --
/// and captures no token.
pub proof fn lemma_literal_escaping(tpl: Seq<char>)
    requires
        forall|i: int| 0 <= i < tpl.len() ==> tpl[i] != '{',
    ensures
        seg(tpl) == Ok::<(Seq<char>, Seq<Token>), Seq<char>>((
            escape_all(tpl),
            Seq::<Token>::empty(),
        )),
    decreases tpl.len(),
{
    if tpl.len() == 0 {
    } else {
        match find_tok(tpl) {
            Some(t) => {
                lemma_find_tok_prefix(tpl, 0);
                lemma_placeholder_len(t);
                assert(token_placeholder(t)[0] == '{');
                assert(tpl.subrange(0, token_placeholder(t).len() as int)[0] == tpl[0]);
                assert(false);
            },
            None => {},
        }
        assert(forall|i: int| 0 <= i < tpl.skip(1).len() ==> tpl.skip(1)[i] != '{');
        lemma_literal_escaping(tpl.skip(1));
    }
}


/// A token's name holds no brace character.
proof fn lemma_name_no_brace(t: Token)
    ensures
        forall|i: int| 0 <= i < token_name(t).len() ==> token_name(t)[i] != '}',
        forall|i: int| 0 <= i < token_name(t).len() ==> token_name(t)[i] != '{',
{
    match t {
        Token::Addr => {
            assert(forall|i: int|
                0 <= i < token_name(Token::Addr).len() ==> token_name(Token::Addr)[i] != '}'
                    && token_name(Token::Addr)[i] != '{');
        },
        Token::User => {
            assert(forall|i: int|
                0 <= i < token_name(Token::User).len() ==> token_name(Token::User)[i] != '}'
                    && token_name(Token::User)[i] != '{');
        },
        Token::Time => {
            assert(forall|i: int|
                0 <= i < token_name(Token::Time).len() ==> token_name(Token::Time)[i] != '}'
                    && token_name(Token::Time)[i] != '{');
        },
        Token::Request => {
            assert(forall|i: int|
                0 <= i < token_name(Token::Request).len() ==> token_name(Token::Request)[i] != '}'
                    && token_name(Token::Request)[i] != '{');
        },
        Token::Status => {
            assert(forall|i: int|
                0 <= i < token_name(Token::Status).len() ==> token_name(Token::Status)[i] != '}'
                    && token_name(Token::Status)[i] != '{');
        },
        Token::Bytes => {
            assert(forall|i: int|
                0 <= i < token_name(Token::Bytes).len() ==> token_name(Token::Bytes)[i] != '}'
                    && token_name(Token::Bytes)[i] != '{');
        },
        Token::Referrer => {
            assert(forall|i: int|
                0 <= i < token_name(Token::Referrer).len() ==> token_name(Token::Referrer)[i]
                    != '}' && token_name(Token::Referrer)[i] != '{');
        },
        Token::UserAgent => {
            assert(forall|i: int|
                0 <= i < token_name(Token::UserAgent).len() ==> token_name(Token::UserAgent)[i]
                    != '}' && token_name(Token::UserAgent)[i] != '{');
        },
        Token::HttpForwardedFor => {
            assert(forall|i: int|
                0 <= i < token_name(Token::HttpForwardedFor).len() ==> token_name(
                    Token::HttpForwardedFor,
                )[i] != '}' && token_name(Token::HttpForwardedFor)[i] != '{');
        },
    }
}

/// Distinct tokens have distinct names.
proof fn lemma_name_injective(t1: Token, t2: Token)
    requires
        token_name(t1) == token_name(t2),
    ensures
        t1 == t2,
{
    match t1 {
        Token::Addr => match t2 {
            Token::Addr => {},
            Token::User => {
                assert(token_name(Token::Addr)[0] == 'a');
                assert(token_name(Token::User)[0] == 'u');
            },
            Token::Time => {
                assert(token_name(Token::Addr)[0] == 'a');
                assert(token_name(Token::Time)[0] == 't');
            },
            Token::Request => {
                assert(token_name(Token::Addr).len() == 4);
                assert(token_name(Token::Request).len() == 7);
            },
            Token::Status => {
                assert(token_name(Token::Addr).len() == 4);
                assert(token_name(Token::Status).len() == 6);
            },
            Token::Bytes => {
                assert(token_name(Token::Addr).len() == 4);
                assert(token_name(Token::Bytes).len() == 5);
            },
            Token::Referrer => {
                assert(token_name(Token::Addr).len() == 4);
                assert(token_name(Token::Referrer).len() == 8);
            },
            Token::UserAgent => {
                assert(token_name(Token::Addr).len() == 4);
                assert(token_name(Token::UserAgent).len() == 10);
            },
            Token::HttpForwardedFor => {
                assert(token_name(Token::Addr).len() == 4);
                assert(token_name(Token::HttpForwardedFor).len() == 18);
            },
        },
        Token::User => match t2 {
            Token::Addr => {
                assert(token_name(Token::User)[0] == 'u');
                assert(token_name(Token::Addr)[0] == 'a');
            },
            Token::User => {},
            Token::Time => {
                assert(token_name(Token::User)[0] == 'u');
                assert(token_name(Token::Time)[0] == 't');
            },
            Token::Request => {
                assert(token_name(Token::User).len() == 4);
                assert(token_name(Token::Request).len() == 7);
            },
            Token::Status => {
                assert(token_name(Token::User).len() == 4);
                assert(token_name(Token::Status).len() == 6);
            },
            Token::Bytes => {
                assert(token_name(Token::User).len() == 4);
                assert(token_name(Token::Bytes).len() == 5);
            },
            Token::Referrer => {
                assert(token_name(Token::User).len() == 4);
                assert(token_name(Token::Referrer).len() == 8);
            },
            Token::UserAgent => {
                assert(token_name(Token::User).len() == 4);
                assert(token_name(Token::UserAgent).len() == 10);
            },
            Token::HttpForwardedFor => {
                assert(token_name(Token::User).len() == 4);
                assert(token_name(Token::HttpForwardedFor).len() == 18);
            },
        },
        Token::Time => match t2 {
            Token::Addr => {
                assert(token_name(Token::Time)[0] == 't');
                assert(token_name(Token::Addr)[0] == 'a');
            },
            Token::User => {
                assert(token_name(Token::Time)[0] == 't');
                assert(token_name(Token::User)[0] == 'u');
            },
            Token::Time => {},
            Token::Request => {
                assert(token_name(Token::Time).len() == 4);
                assert(token_name(Token::Request).len() == 7);
            },
            Token::Status => {
                assert(token_name(Token::Time).len() == 4);
                assert(token_name(Token::Status).len() == 6);
            },
            Token::Bytes => {
                assert(token_name(Token::Time).len() == 4);
                assert(token_name(Token::Bytes).len() == 5);
            },
            Token::Referrer => {
                assert(token_name(Token::Time).len() == 4);
                assert(token_name(Token::Referrer).len() == 8);
            },
            Token::UserAgent => {
                assert(token_name(Token::Time).len() == 4);
                assert(token_name(Token::UserAgent).len() == 10);
            },
            Token::HttpForwardedFor => {
                assert(token_name(Token::Time).len() == 4);
                assert(token_name(Token::HttpForwardedFor).len() == 18);
            },
        },
        Token::Request => match t2 {
            Token::Addr => {
                assert(token_name(Token::Request).len() == 7);
                assert(token_name(Token::Addr).len() == 4);
            },
            Token::User => {
                assert(token_name(Token::Request).len() == 7);
                assert(token_name(Token::User).len() == 4);
            },
            Token::Time => {
                assert(token_name(Token::Request).len() == 7);
                assert(token_name(Token::Time).len() == 4);
            },
            Token::Request => {},
            Token::Status => {
                assert(token_name(Token::Request).len() == 7);
                assert(token_name(Token::Status).len() == 6);
            },
            Token::Bytes => {
                assert(token_name(Token::Request).len() == 7);
                assert(token_name(Token::Bytes).len() == 5);
            },
            Token::Referrer => {
                assert(token_name(Token::Request).len() == 7);
                assert(token_name(Token::Referrer).len() == 8);
            },
            Token::UserAgent => {
                assert(token_name(Token::Request).len() == 7);
                assert(token_name(Token::UserAgent).len() == 10);
            },
            Token::HttpForwardedFor => {
                assert(token_name(Token::Request).len() == 7);
                assert(token_name(Token::HttpForwardedFor).len() == 18);
            },
        },
        Token::Status => match t2 {
            Token::Addr => {
                assert(token_name(Token::Status).len() == 6);
                assert(token_name(Token::Addr).len() == 4);
            },
            Token::User => {
                assert(token_name(Token::Status).len() == 6);
                assert(token_name(Token::User).len() == 4);
            },
            Token::Time => {
                assert(token_name(Token::Status).len() == 6);
                assert(token_name(Token::Time).len() == 4);
            },
            Token::Request => {
                assert(token_name(Token::Status).len() == 6);
                assert(token_name(Token::Request).len() == 7);
            },
            Token::Status => {},
            Token::Bytes => {
                assert(token_name(Token::Status).len() == 6);
                assert(token_name(Token::Bytes).len() == 5);
            },
            Token::Referrer => {
                assert(token_name(Token::Status).len() == 6);
                assert(token_name(Token::Referrer).len() == 8);
            },
            Token::UserAgent => {
                assert(token_name(Token::Status).len() == 6);
                assert(token_name(Token::UserAgent).len() == 10);
            },
            Token::HttpForwardedFor => {
                assert(token_name(Token::Status).len() == 6);
                assert(token_name(Token::HttpForwardedFor).len() == 18);
            },
        },
        Token::Bytes => match t2 {
            Token::Addr => {
                assert(token_name(Token::Bytes).len() == 5);
                assert(token_name(Token::Addr).len() == 4);
            },
            Token::User => {
                assert(token_name(Token::Bytes).len() == 5);
                assert(token_name(Token::User).len() == 4);
            },
            Token::Time => {
                assert(token_name(Token::Bytes).len() == 5);
                assert(token_name(Token::Time).len() == 4);
            },
            Token::Request => {
                assert(token_name(Token::Bytes).len() == 5);
                assert(token_name(Token::Request).len() == 7);
            },
            Token::Status => {
                assert(token_name(Token::Bytes).len() == 5);
                assert(token_name(Token::Status).len() == 6);
            },
            Token::Bytes => {},
            Token::Referrer => {
                assert(token_name(Token::Bytes).len() == 5);
                assert(token_name(Token::Referrer).len() == 8);
            },
            Token::UserAgent => {
                assert(token_name(Token::Bytes).len() == 5);
                assert(token_name(Token::UserAgent).len() == 10);
            },
            Token::HttpForwardedFor => {
                assert(token_name(Token::Bytes).len() == 5);
                assert(token_name(Token::HttpForwardedFor).len() == 18);
            },
        },
        Token::Referrer => match t2 {
            Token::Addr => {
                assert(token_name(Token::Referrer).len() == 8);
                assert(token_name(Token::Addr).len() == 4);
            },
            Token::User => {
                assert(token_name(Token::Referrer).len() == 8);
                assert(token_name(Token::User).len() == 4);
            },
            Token::Time => {
                assert(token_name(Token::Referrer).len() == 8);
                assert(token_name(Token::Time).len() == 4);
            },
            Token::Request => {
                assert(token_name(Token::Referrer).len() == 8);
                assert(token_name(Token::Request).len() == 7);
            },
            Token::Status => {
                assert(token_name(Token::Referrer).len() == 8);
                assert(token_name(Token::Status).len() == 6);
            },
            Token::Bytes => {
                assert(token_name(Token::Referrer).len() == 8);
                assert(token_name(Token::Bytes).len() == 5);
            },
            Token::Referrer => {},
            Token::UserAgent => {
                assert(token_name(Token::Referrer).len() == 8);
                assert(token_name(Token::UserAgent).len() == 10);
            },
            Token::HttpForwardedFor => {
                assert(token_name(Token::Referrer).len() == 8);
                assert(token_name(Token::HttpForwardedFor).len() == 18);
            },
        },
        Token::UserAgent => match t2 {
            Token::Addr => {
                assert(token_name(Token::UserAgent).len() == 10);
                assert(token_name(Token::Addr).len() == 4);
            },
            Token::User => {
                assert(token_name(Token::UserAgent).len() == 10);
                assert(token_name(Token::User).len() == 4);
            },
            Token::Time => {
                assert(token_name(Token::UserAgent).len() == 10);
                assert(token_name(Token::Time).len() == 4);
            },
            Token::Request => {
                assert(token_name(Token::UserAgent).len() == 10);
                assert(token_name(Token::Request).len() == 7);
            },
            Token::Status => {
                assert(token_name(Token::UserAgent).len() == 10);
                assert(token_name(Token::Status).len() == 6);
            },
            Token::Bytes => {
                assert(token_name(Token::UserAgent).len() == 10);
                assert(token_name(Token::Bytes).len() == 5);
            },
            Token::Referrer => {
                assert(token_name(Token::UserAgent).len() == 10);
                assert(token_name(Token::Referrer).len() == 8);
            },
            Token::UserAgent => {},
            Token::HttpForwardedFor => {
                assert(token_name(Token::UserAgent).len() == 10);
                assert(token_name(Token::HttpForwardedFor).len() == 18);
            },
        },
        Token::HttpForwardedFor => match t2 {
            Token::Addr => {
                assert(token_name(Token::HttpForwardedFor).len() == 18);
                assert(token_name(Token::Addr).len() == 4);
            },
            Token::User => {
                assert(token_name(Token::HttpForwardedFor).len() == 18);
                assert(token_name(Token::User).len() == 4);
            },
            Token::Time => {
                assert(token_name(Token::HttpForwardedFor).len() == 18);
                assert(token_name(Token::Time).len() == 4);
            },
            Token::Request => {
                assert(token_name(Token::HttpForwardedFor).len() == 18);
                assert(token_name(Token::Request).len() == 7);
            },
            Token::Status => {
                assert(token_name(Token::HttpForwardedFor).len() == 18);
                assert(token_name(Token::Status).len() == 6);
            },
            Token::Bytes => {
                assert(token_name(Token::HttpForwardedFor).len() == 18);
                assert(token_name(Token::Bytes).len() == 5);
            },
            Token::Referrer => {
                assert(token_name(Token::HttpForwardedFor).len() == 18);
                assert(token_name(Token::Referrer).len() == 8);
            },
            Token::UserAgent => {
                assert(token_name(Token::HttpForwardedFor).len() == 18);
                assert(token_name(Token::UserAgent).len() == 10);
            },
            Token::HttpForwardedFor => {},
        },
    }
}

/// At most one placeholder can stand at the head of a template.
proof fn lemma_placeholder_unique_prefix(s: Seq<char>, t1: Token, t2: Token)
    requires
        token_placeholder(t1).is_prefix_of(s),
        token_placeholder(t2).is_prefix_of(s),
    ensures
        t1 == t2,
{
    lemma_name_no_brace(t1);
    lemma_name_no_brace(t2);
    let n1 = token_name(t1).len() as int;
    let n2 = token_name(t2).len() as int;
    if n1 == n2 {
        assert forall|i: int| 0 <= i < n1 implies token_name(t1)[i] == token_name(t2)[i] by {
            assert(token_placeholder(t1)[2 + i] == token_name(t1)[i]);
            assert(token_placeholder(t2)[2 + i] == token_name(t2)[i]);
            assert(token_placeholder(t1)[2 + i] == s[2 + i]);
            assert(token_placeholder(t2)[2 + i] == s[2 + i]);
        }
        assert(token_name(t1) =~= token_name(t2));
        lemma_name_injective(t1, t2);
    } else if n1 < n2 {
        assert(token_placeholder(t1)[2 + n1] == '}');
        assert(token_placeholder(t1)[2 + n1] == s[2 + n1]);
        assert(token_placeholder(t2)[2 + n1] == token_name(t2)[n1]);
        assert(token_placeholder(t2)[2 + n1] == s[2 + n1]);
        assert(false);
    } else {
        assert(token_placeholder(t2)[2 + n2] == '}');
        assert(token_placeholder(t2)[2 + n2] == s[2 + n2]);
        assert(token_placeholder(t1)[2 + n2] == token_name(t1)[n2]);
        assert(token_placeholder(t1)[2 + n2] == s[2 + n2]);
        assert(false);
    }
}

/// The placeholder at the head of a template determines the found token.
proof fn lemma_find_tok_exact(s: Seq<char>, t: Token)
    requires
        token_placeholder(t).is_prefix_of(s),
    ensures
        find_tok(s) == Some(t),
{
    assert forall|k: int|
        0 <= k < all_tokens().len() && all_tokens()[k] != t implies !token_placeholder(
        #[trigger] all_tokens()[k],
    ).is_prefix_of(s) by {
        if token_placeholder(all_tokens()[k]).is_prefix_of(s) {
            lemma_placeholder_unique_prefix(s, all_tokens()[k], t);
        }
    }
    reveal_with_fuel(find_tok_from, 11);
    match t {
        Token::Addr => assert(find_tok_from(s, 0) == Some(t)),
        Token::User => assert(find_tok_from(s, 0) == Some(t)),
        Token::Time => assert(find_tok_from(s, 0) == Some(t)),
        Token::Request => assert(find_tok_from(s, 0) == Some(t)),
        Token::Status => assert(find_tok_from(s, 0) == Some(t)),
        Token::Bytes => assert(find_tok_from(s, 0) == Some(t)),
        Token::Referrer => assert(find_tok_from(s, 0) == Some(t)),
        Token::UserAgent => assert(find_tok_from(s, 0) == Some(t)),
        Token::HttpForwardedFor => assert(find_tok_from(s, 0) == Some(t)),
    }
}

/// One piece of a template, as an author writes it: a literal character or a
/// placeholder.
pub enum Piece {
    Lit(char),
    Ph(Token),
}

/// The template text an arrangement of pieces spells out.
pub open spec fn render(ps: Seq<Piece>) -> Seq<char>
    decreases ps.len(),
{
    if ps.len() == 0 {
        Seq::empty()
    } else {
        (match ps[0] {
            Piece::Lit(c) => seq![c],
            Piece::Ph(t) => token_placeholder(t),
        }) + render(ps.skip(1))
    }
}

/// The matcher source an arrangement of pieces compiles to.
pub open spec fn compiled_pieces(ps: Seq<Piece>) -> Seq<char>
    decreases ps.len(),
{
    if ps.len() == 0 {
        Seq::empty()
    } else {
        (match ps[0] {
            Piece::Lit(c) => esc(c),
            Piece::Ph(t) => token_group(t),
        }) + compiled_pieces(ps.skip(1))
    }
}

/// The tokens of an arrangement, in its order.
pub open spec fn piece_tokens(ps: Seq<Piece>) -> Seq<Token>
    decreases ps.len(),
{
    if ps.len() == 0 {
        Seq::empty()
    } else {
        (match ps[0] {
            Piece::Lit(_) => Seq::empty(),
            Piece::Ph(t) => seq![t],
        }) + piece_tokens(ps.skip(1))
    }
}

/// Token-order independence of segmentation: however literal characters
/// (braces aside) and recognized placeholders are arranged, the template they
/// spell compiles -- to the escaped literals and the named capture groups,
/// in exactly the arrangement's order. No arrangement of recognized
/// placeholders can fail to segment.
pub proof fn lemma_any_arrangement_segments(ps: Seq<Piece>)
    requires
        forall|i: int|
            0 <= i < ps.len() ==> ((#[trigger] ps[i]) matches Piece::Lit(c) ==> c != '{'),
    ensures
        seg(render(ps)) == Ok::<(Seq<char>, Seq<Token>), Seq<char>>((
            compiled_pieces(ps),
            piece_tokens(ps),
        )),
    decreases ps.len(),
{
    if ps.len() == 0 {
    } else {
        let rest = ps.skip(1);
        assert(forall|i: int|
            0 <= i < rest.len() ==> ((#[trigger] rest[i]) matches Piece::Lit(c) ==> c != '{'));
        lemma_any_arrangement_segments(rest);
        match ps[0] {
            Piece::Ph(t) => {
                lemma_placeholder_len(t);
                let n = token_placeholder(t).len() as int;
                assert(render(ps).subrange(0, n) =~= token_placeholder(t));
                assert(token_placeholder(t).is_prefix_of(render(ps)));
                lemma_find_tok_exact(render(ps), t);
                assert(render(ps).skip(n) =~= render(rest));
                assert(compiled_pieces(ps) == token_group(t) + compiled_pieces(rest));
                assert(piece_tokens(ps) == seq![t] + piece_tokens(rest));
            },
            Piece::Lit(c) => {
                assert(render(ps)[0] == c);
                match find_tok(render(ps)) {
                    Some(tp) => {
                        lemma_find_tok_prefix(render(ps), 0);
                        lemma_placeholder_len(tp);
                        assert(token_placeholder(tp)[0] == '{');
                        assert(render(ps).subrange(0, token_placeholder(tp).len() as int)[0]
                            == render(ps)[0]);
                        assert(false);
                    },
                    None => {},
                }
                assert(render(ps).skip(1) =~= render(rest));
                assert(seg(render(ps)) == seg_ext(esc(c), Seq::<Token>::empty(), seg(render(rest))));
                assert(compiled_pieces(ps) == esc(c) + compiled_pieces(rest));
                assert(Seq::<Token>::empty() + piece_tokens(rest) =~= piece_tokens(rest));
                assert(piece_tokens(ps) == piece_tokens(rest));
            },
        }
    }
}


/// A placeholder that stands among an arrangement's pieces occurs in the
/// template text the arrangement spells out.
pub proof fn lemma_arrangement_contains(ps: Seq<Piece>, t: Token)
    requires
        exists|i: int| 0 <= i < ps.len() && ps[i] == Piece::Ph(t),
    ensures
        contains_sub(render(ps), token_placeholder(t)),
    decreases ps.len(),
{
    let i = choose|i: int| 0 <= i < ps.len() && ps[i] == Piece::Ph(t);
    let n = token_placeholder(t).len() as int;
    if i == 0 {
        assert(render(ps).subrange(0, n) =~= token_placeholder(t));
        assert(contains_at(render(ps), token_placeholder(t), 0));
    } else {
        let rest = ps.skip(1);
        assert(rest[i - 1] == Piece::Ph(t));
        lemma_arrangement_contains(rest, t);
        let j = choose|j: int| contains_at(render(rest), token_placeholder(t), j);
        let h = (match ps[0] {
            Piece::Lit(_) => 1int,
            Piece::Ph(t0) => token_placeholder(t0).len() as int,
        });
        assert(render(ps).len() == h + render(rest).len());
        assert(render(ps).subrange(j + h, j + h + n) =~= render(rest).subrange(j, j + n));
        assert(contains_at(render(ps), token_placeholder(t), j + h));
    }
}

/// Token-order independence of validation, for whole templates: an
/// arrangement that contains every required placeholder -- wherever each
/// stands -- spells a template that validates.
pub proof fn lemma_arrangement_validates(ps: Seq<Piece>)
    requires
        forall|j: int|
            0 <= j < required_tokens().len() ==> exists|i: int|
                0 <= i < ps.len() && ps[i] == Piece::Ph(#[trigger] required_tokens()[j]),
    ensures
        first_missing(render(ps)) is None,
{
    assert forall|j: int|
        0 <= j < required_tokens().len() implies contains_sub(
        render(ps),
        token_placeholder(#[trigger] required_tokens()[j]),
    ) by {
        lemma_arrangement_contains(ps, required_tokens()[j]);
    }
    lemma_missing_from_none(render(ps), 0);
}

} // verus!
