//! The URL templating mini-language of manifest attribute values: two
//! substitutable variables, `Time` and `RepresentationID`, delimited by `$`.
//! `Token::scan` tokenizes a template; `SegmentTemplate::render` substitutes
//! the variables and resolves the result against a base URL.

use vstd::prelude::*;

use crate::errors::Error;
use crate::text::{dec_digits, run_end, lemma_run_end_bounds, scan_run, str_eq, u64_to_string,
    CharClass};

verus! {

/// One token of a template: literal text, or one of the two variables.
#[derive(Debug, PartialEq, Eq)]
pub enum Token {
    Literal(String),
    Time,
    RepresentationID,
}

/// The mathematical shape of a token.
pub enum TokenModel {
    Literal(Seq<char>),
    Time,
    RepresentationID,
}

impl View for Token {
    type V = TokenModel;

    open spec fn view(&self) -> TokenModel {
        match self {
            Token::Literal(s) => TokenModel::Literal(s@),
            Token::Time => TokenModel::Time,
            Token::RepresentationID => TokenModel::RepresentationID,
        }
    }
}

impl DeepView for Token {
    type V = TokenModel;

    open spec fn deep_view(&self) -> TokenModel {
        self.view()
    }
}

/// The tokens of the template from position `i` on: a `$...$` span names a
/// variable, any other run of characters is one literal. A `$` that is never
/// closed, or a variable that is neither `Time` nor `RepresentationID`,
/// scans to an error with its message.
pub open spec fn scan_from(s: Seq<char>, i: int) -> Result<Seq<TokenModel>, Seq<char>>
    decreases s.len() - i,
    via scan_from_dec
{
    if i < 0 || i >= s.len() {
        Ok(seq![])
    } else if s[i] == '$' {
        let j = run_end(s, i + 1, CharClass::NotDollar);
        if j >= s.len() {
            Err("unterminated variable"@)
        } else {
            let name = s.subrange(i + 1, j);
            if name == "Time"@ {
                match scan_from(s, j + 1) {
                    Ok(ts) => Ok(seq![TokenModel::Time] + ts),
                    Err(e) => Err(e),
                }
            } else if name == "RepresentationID"@ {
                match scan_from(s, j + 1) {
                    Ok(ts) => Ok(seq![TokenModel::RepresentationID] + ts),
                    Err(e) => Err(e),
                }
            } else {
                Err("invalid template variable: "@ + name)
            }
        }
    } else {
        let j = run_end(s, i, CharClass::NotDollar);
        match scan_from(s, j) {
            Ok(ts) => Ok(seq![TokenModel::Literal(s.subrange(i, j))] + ts),
            Err(e) => Err(e),
        }
    }
}

#[via_fn]
proof fn scan_from_dec(s: Seq<char>, i: int) {
    if 0 <= i && i < s.len() {
        lemma_run_end_bounds(s, i + 1, CharClass::NotDollar);
        lemma_run_end_bounds(s, i, CharClass::NotDollar);
    }
}

/// What scanning a whole template yields.
pub open spec fn spec_scan(s: Seq<char>) -> Result<Seq<TokenModel>, Seq<char>> {
    scan_from(s, 0)
}

impl Token {
    /// Tokenizes a template. Fails with a descriptive message if a `$...$`
    /// span names an unrecognized variable or a `$` is never closed.
    pub fn scan(input: &str) -> (r: Result<Vec<Token>, Error>)
        ensures
            match r {
                Ok(v) => spec_scan(input@) == Ok::<Seq<TokenModel>, Seq<char>>(v.deep_view()),
                Err(e) => e matches Error::UnexpectedError(m) && spec_scan(input@) == Err::<
                    Seq<TokenModel>,
                    Seq<char>,
                >(m@),
            },
    {
        let n = input.unicode_len();
        let mut i: usize = 0;
        let mut tokens: Vec<Token> = Vec::new();
        while i < n
            invariant
                i <= n == input@.len(),
                match scan_from(input@, i as int) {
                    Ok(ts) => scan_from(input@, 0) == Ok::<Seq<TokenModel>, Seq<char>>(
                        tokens.deep_view() + ts,
                    ),
                    Err(e) => scan_from(input@, 0) == Err::<Seq<TokenModel>, Seq<char>>(e),
                },
            decreases n - i,
        {
            let ghost i0 = i as int;
            let ghost pre = tokens.deep_view();
            if input.get_char(i) == '$' {
                let j = scan_run(input, i + 1, CharClass::NotDollar);
                if j == n {
                    assert(scan_from(input@, i0) == Err::<Seq<TokenModel>, Seq<char>>(
                        "unterminated variable"@,
                    ));
                    return Err(Error::UnexpectedError(String::from_str("unterminated variable")));
                }
                let name = input.substring_char(i + 1, j);
                assert(name@ == input@.subrange(i0 + 1, j as int));
                if str_eq(name, "Time") {
                    tokens.push(Token::Time);
                    proof {
                        assert(tokens.deep_view() =~= pre.push(TokenModel::Time));
                    }
                } else if str_eq(name, "RepresentationID") {
                    tokens.push(Token::RepresentationID);
                    proof {
                        assert(tokens.deep_view() =~= pre.push(TokenModel::RepresentationID));
                    }
                } else {
                    let mut m = String::from_str("invalid template variable: ");
                    m.append(name);
                    assert(scan_from(input@, i0) == Err::<Seq<TokenModel>, Seq<char>>(
                        "invalid template variable: "@ + name@,
                    ));
                    return Err(Error::UnexpectedError(m));
                }
                i = j + 1;
                proof {
                    match scan_from(input@, i as int) {
                        Ok(ts) => {
                            assert(tokens.deep_view() + ts =~= pre + (seq![
                                tokens.deep_view()[pre.len() as int],
                            ] + ts));
                        },
                        Err(_) => {},
                    }
                }
            } else {
                let j = scan_run(input, i, CharClass::NotDollar);
                proof {
                    lemma_run_end_bounds(input@, i0, CharClass::NotDollar);
                }
                let lit = input.substring_char(i, j).to_owned();
                assert(lit@ == input@.subrange(i0, j as int));
                tokens.push(Token::Literal(lit));
                proof {
                    assert(tokens.deep_view() =~= pre.push(
                        TokenModel::Literal(input@.subrange(i0, j as int)),
                    ));
                }
                i = j;
                proof {
                    match scan_from(input@, i as int) {
                        Ok(ts) => {
                            assert(tokens.deep_view() + ts =~= pre + (seq![
                                TokenModel::Literal(input@.subrange(i0, j as int)),
                            ] + ts));
                        },
                        Err(_) => {},
                    }
                }
            }
        }
        assert(scan_from(input@, i as int) == Ok::<Seq<TokenModel>, Seq<char>>(seq![]));
        assert(tokens.deep_view() + seq![] =~= tokens.deep_view());
        Ok(tokens)
    }
}

/// The template text a token stands for: a literal's own text, or the
/// variable's name in its `$` delimiters.
pub open spec fn token_source(tm: TokenModel) -> Seq<char> {
    match tm {
        TokenModel::Literal(l) => l,
        TokenModel::Time => "$Time$"@,
        TokenModel::RepresentationID => "$RepresentationID$"@,
    }
}

/// The template text the tokens from `k` on stand for, in order.
pub open spec fn tokens_source(ts: Seq<TokenModel>, k: int) -> Seq<char>
    decreases ts.len() - k,
{
    if k < 0 || k >= ts.len() {
        Seq::empty()
    } else {
        token_source(ts[k]) + tokens_source(ts, k + 1)
    }
}

proof fn lemma_tokens_source_cons(h: TokenModel, rest: Seq<TokenModel>, k: int)
    requires
        1 <= k <= rest.len() + 1,
    ensures
        tokens_source(seq![h] + rest, k) == tokens_source(rest, k - 1),
    decreases rest.len() + 1 - k,
{
    if k <= rest.len() {
        lemma_tokens_source_cons(h, rest, k + 1);
        assert((seq![h] + rest)[k] == rest[k - 1]);
    }
}

proof fn lemma_scan_roundtrip(s: Seq<char>, i: int, ts: Seq<TokenModel>)
    requires
        0 <= i <= s.len(),
        scan_from(s, i) == Ok::<Seq<TokenModel>, Seq<char>>(ts),
    ensures
        tokens_source(ts, 0) == s.subrange(i, s.len() as int),
    decreases s.len() - i,
{
    if i >= s.len() {
        assert(tokens_source(ts, 0) =~= s.subrange(i, s.len() as int));
    } else if s[i] == '$' {
        let j = run_end(s, i + 1, CharClass::NotDollar);
        lemma_run_end_bounds(s, i + 1, CharClass::NotDollar);
        let name = s.subrange(i + 1, j);
        let rest = match scan_from(s, j + 1) {
            Ok(r) => r,
            Err(_) => seq![],
        };
        lemma_scan_roundtrip(s, j + 1, rest);
        let h = ts[0];
        assert(ts =~= seq![h] + rest);
        lemma_tokens_source_cons(h, rest, 1);
        reveal_strlit("$Time$");
        reveal_strlit("Time");
        reveal_strlit("$RepresentationID$");
        reveal_strlit("RepresentationID");
        assert(j < s.len());
        assert(s[j] == '$') by {
            lemma_run_end_bounds(s, i + 1, CharClass::NotDollar);
        }
        assert(s.subrange(i, j + 1) =~= seq![s[i]] + name + seq![s[j]]);
        if name == "Time"@ {
            assert(h == TokenModel::Time);
            assert("$Time$"@ =~= seq!['$'] + "Time"@ + seq!['$']);
            assert(token_source(h) =~= s.subrange(i, j + 1));
        } else {
            assert(name == "RepresentationID"@);
            assert(h == TokenModel::RepresentationID);
            assert("$RepresentationID$"@ =~= seq!['$'] + "RepresentationID"@ + seq!['$']);
            assert(token_source(h) =~= s.subrange(i, j + 1));
        }
        assert(s.subrange(i, s.len() as int) =~= s.subrange(i, j + 1) + s.subrange(
            j + 1,
            s.len() as int,
        ));
    } else {
        let j = run_end(s, i, CharClass::NotDollar);
        lemma_run_end_bounds(s, i, CharClass::NotDollar);
        assert(j > i);
        let rest = match scan_from(s, j) {
            Ok(r) => r,
            Err(_) => seq![],
        };
        lemma_scan_roundtrip(s, j, rest);
        let h = ts[0];
        assert(ts =~= seq![h] + rest);
        lemma_tokens_source_cons(h, rest, 1);
        assert(token_source(h) == s.subrange(i, j));
        assert(s.subrange(i, s.len() as int) =~= s.subrange(i, j) + s.subrange(
            j,
            s.len() as int,
        ));
    }
}

/// Law: scanning is lossless and order-preserving — writing the scanned
/// tokens back out in order, each variable in its `$` delimiters,
/// reproduces the template exactly.
pub proof fn lemma_scan_lossless(s: Seq<char>, ts: Seq<TokenModel>)
    requires
        spec_scan(s) == Ok::<Seq<TokenModel>, Seq<char>>(ts),
    ensures
        tokens_source(ts, 0) == s,
{
    lemma_scan_roundtrip(s, 0, ts);
    assert(s.subrange(0, s.len() as int) =~= s);
}

/// The text a `Time` token renders to: the decimal time, or nothing for the
/// initialization segment.
pub open spec fn spec_time_text(t: Option<u64>) -> Seq<char> {
    match t {
        Some(v) => dec_digits(v as nat),
        None => Seq::empty(),
    }
}

/// The text one token renders to.
pub open spec fn token_text(tm: TokenModel, rid: Seq<char>, t: Option<u64>) -> Seq<char> {
    match tm {
        TokenModel::Literal(l) => l,
        TokenModel::Time => spec_time_text(t),
        TokenModel::RepresentationID => rid,
    }
}

/// The concatenation of the first `k` tokens' renderings.
pub open spec fn rendered_prefix(
    ts: Seq<TokenModel>,
    rid: Seq<char>,
    t: Option<u64>,
    k: int,
) -> Seq<char>
    decreases k,
{
    if k <= 0 {
        Seq::empty()
    } else {
        rendered_prefix(ts, rid, t, k - 1) + token_text(ts[k - 1], rid, t)
    }
}

/// The relative path a token list renders to.
pub open spec fn rendered_path(ts: Seq<TokenModel>, rid: Seq<char>, t: Option<u64>) -> Seq<char> {
    rendered_prefix(ts, rid, t, ts.len() as int)
}

/// What `url::Url::join` resolves a reference to against a base URL text:
/// `Some` of the absolute URL's text, or `None` where the base does not
/// parse or the reference cannot be resolved against it.
pub uninterp spec fn joined_url(base: Seq<char>, rel: Seq<char>) -> Option<Seq<char>>;

/// Relies on `url::Url::parse`, `url::Url::join` and `url::Url::as_str`:
/// resolves `rel` against the base URL and writes the result back out. The
/// outcome is a function of the two texts alone.
#[verifier::external_body]
fn join_url(base: &str, rel: &str) -> (r: Option<String>)
    ensures
        match r {
            Some(u) => joined_url(base@, rel@) == Some(u@),
            None => joined_url(base@, rel@) is None,
        },
{
    match url::Url::parse(base) {
        Ok(b) => match b.join(rel) {
            Ok(u) => Some(u.as_str().to_owned()),
            Err(_) => None,
        },
        Err(_) => None,
    }
}

/// A scanned media or initialization template, tied to the base URL its
/// renderings resolve against.
pub struct SegmentTemplate {
    pub base_url: String,
    pub tokens: Vec<Token>,
}

impl SegmentTemplate {
    /// Scans `template` for later rendering against `base_url`.
    pub fn new(base_url: &str, template: &str) -> (r: Result<SegmentTemplate, Error>)
        ensures
            match r {
                Ok(st) => st.base_url@ == base_url@ && spec_scan(template@) == Ok::<
                    Seq<TokenModel>,
                    Seq<char>,
                >(st.tokens.deep_view()),
                Err(e) => e matches Error::UnexpectedError(m) && spec_scan(template@) == Err::<
                    Seq<TokenModel>,
                    Seq<char>,
                >(m@),
            },
    {
        match Token::scan(template) {
            Ok(tokens) => Ok(SegmentTemplate { base_url: base_url.to_owned(), tokens }),
            Err(e) => Err(e),
        }
    }

    /// Substitutes the representation id and, when a time is supplied, its
    /// decimal text into the tokens, and resolves the path against the base
    /// URL. With no time, a `Time` token renders as empty.
    pub fn render(&self, representation_id: &str, maybe_time: Option<u64>) -> (r: Result<
        String,
        Error,
    >)
        ensures
            match r {
                Ok(u) => joined_url(
                    self.base_url@,
                    rendered_path(self.tokens.deep_view(), representation_id@, maybe_time),
                ) == Some(u@),
                Err(e) => joined_url(
                    self.base_url@,
                    rendered_path(self.tokens.deep_view(), representation_id@, maybe_time),
                ) is None && (e matches Error::UnexpectedError(m) && m@
                    == "could not resolve segment url"@),
            },
    {
        let ghost ts = self.tokens.deep_view();
        let mut path = String::new();
        let mut k: usize = 0;
        let m = self.tokens.len();
        while k < m
            invariant
                k <= m == self.tokens.len(),
                ts == self.tokens.deep_view(),
                path@ == rendered_prefix(ts, representation_id@, maybe_time, k as int),
            decreases m - k,
        {
            match &self.tokens[k] {
                Token::Literal(l) => {
                    path.append(l.as_str());
                },
                Token::Time => {
                    match maybe_time {
                        Some(v) => {
                            let d = u64_to_string(v);
                            path.append(d.as_str());
                        },
                        None => {
                            assert(path@ + Seq::<char>::empty() =~= path@);
                        },
                    }
                },
                Token::RepresentationID => {
                    path.append(representation_id);
                },
            }
            assert(ts[k as int] == self.tokens[k as int].deep_view());
            k = k + 1;
        }
        assert(path@ == rendered_path(ts, representation_id@, maybe_time));
        match join_url(self.base_url.as_str(), path.as_str()) {
            Some(u) => Ok(u),
            None => Err(
                Error::UnexpectedError(String::from_str("could not resolve segment url")),
            ),
        }
    }
}

} // verus!
