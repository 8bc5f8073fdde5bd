//! The ASN.1 value parser, as far as the Information Object System core
//! needs it: a `DEFAULT` value is a single value token kept as raw text, and
//! an inline object is a brace-balanced run of tokens kept as raw text
//! ("set-ish" notation), since structural parsing of object contents is out
//! of this front end's scope.

use vstd::prelude::*;

use crate::error::{mismatch_at, spec_mismatch, Error, ErrorModel};
use crate::token::{has_kind, Token, TokenKind};

verus! {

/// A token that can stand alone as a value: a number, a lowercase-initial
/// identifier, or a quoted string.
pub open spec fn is_value_token(toks: Seq<Token>, at: int) -> bool {
    has_kind(toks, at, TokenKind::Number) || has_kind(toks, at, TokenKind::LcIdentifier)
        || has_kind(toks, at, TokenKind::QuotedString)
}

/// What the value parser returns on the token at `at`: the raw text of a
/// single value token, consuming it; a mismatch otherwise.
pub open spec fn spec_parse_value(toks: Seq<Token>, at: int) -> Result<(Seq<char>, nat), ErrorModel> {
    if is_value_token(toks, at) {
        Ok((toks[at].text@, 1))
    } else {
        Err(spec_mismatch(toks, at, "a value"@))
    }
}

/// Parses one value starting at `tokens[at]`.
pub fn parse_value_at(tokens: &[Token], at: usize) -> (r: Result<(String, usize), Error>)
    ensures
        match r {
            Ok((v, n)) => spec_parse_value(tokens@, at as int) == Ok::<_, ErrorModel>((v@, n as nat)),
            Err(e) => spec_parse_value(tokens@, at as int) == Err::<(Seq<char>, nat), _>(e@),
        },
{
    if at < tokens.len()
        && (tokens[at].kind == TokenKind::Number || tokens[at].kind == TokenKind::LcIdentifier
            || tokens[at].kind == TokenKind::QuotedString) {
        Ok((tokens[at].text.clone(), 1))
    } else {
        Err(mismatch_at(tokens, at, "a value"))
    }
}

/// Parses one value from the start of `tokens`, returning its raw text with
/// the number of tokens consumed.
pub fn parse_value(tokens: &[Token]) -> (r: Result<(String, usize), Error>)
    ensures
        match r {
            Ok((v, n)) => spec_parse_value(tokens@, 0) == Ok::<_, ErrorModel>((v@, n as nat)),
            Err(e) => spec_parse_value(tokens@, 0) == Err::<(Seq<char>, nat), _>(e@),
        },
{
    parse_value_at(tokens, 0)
}

/// The number of tokens from `at` up to and including the `}` that closes
/// `depth` open braces, or an end-of-input mismatch if the braces never
/// close.
pub open spec fn spec_scan_balanced(toks: Seq<Token>, at: int, depth: int) -> Result<
    nat,
    ErrorModel,
>
    decreases toks.len() - at,
{
    if at < 0 || at >= toks.len() {
        Err(spec_mismatch(toks, at, "'}'"@))
    } else if toks[at].kind == TokenKind::CurlyEnd {
        if depth <= 1 {
            Ok(1)
        } else {
            match spec_scan_balanced(toks, at + 1, depth - 1) {
                Ok(n) => Ok(n + 1),
                Err(e) => Err(e),
            }
        }
    } else if toks[at].kind == TokenKind::CurlyBegin {
        match spec_scan_balanced(toks, at + 1, depth + 1) {
            Ok(n) => Ok(n + 1),
            Err(e) => Err(e),
        }
    } else {
        match spec_scan_balanced(toks, at + 1, depth) {
            Ok(n) => Ok(n + 1),
            Err(e) => Err(e),
        }
    }
}

/// A successful balanced scan stays within the token sequence.
pub proof fn lemma_scan_balanced_bound(toks: Seq<Token>, at: int, depth: int)
    ensures
        spec_scan_balanced(toks, at, depth) matches Ok(n) ==> at + n <= toks.len(),
    decreases toks.len() - at,
{
    if 0 <= at && at < toks.len() {
        lemma_scan_balanced_bound(toks, at + 1, depth - 1);
        lemma_scan_balanced_bound(toks, at + 1, depth + 1);
        lemma_scan_balanced_bound(toks, at + 1, depth);
    }
}

/// The texts of the `n` tokens from `at`, joined with single spaces.
pub open spec fn spec_join_texts(toks: Seq<Token>, at: int, n: int) -> Seq<char>
    decreases n,
{
    if n <= 0 {
        Seq::empty()
    } else if n == 1 {
        toks[at].text@
    } else {
        spec_join_texts(toks, at, n - 1) + " "@ + toks[at + n - 1].text@
    }
}

/// What the inline ("set-ish") value parser returns at `at`: the raw text of
/// a brace-balanced `{ ... }` run, joined with single spaces, together with
/// the number of tokens consumed; a mismatch if no `{` stands at `at` or the
/// braces never close.
pub open spec fn spec_parse_set_ish(toks: Seq<Token>, at: int) -> Result<
    (Seq<char>, nat),
    ErrorModel,
> {
    if !has_kind(toks, at, TokenKind::CurlyBegin) {
        Err(spec_mismatch(toks, at, "'{'"@))
    } else {
        match spec_scan_balanced(toks, at + 1, 1) {
            Ok(n) => Ok((spec_join_texts(toks, at, (n + 1) as int), (n + 1) as nat)),
            Err(e) => Err(e),
        }
    }
}

/// A successful set-ish parse stays within the token sequence.
pub proof fn lemma_set_ish_bound(toks: Seq<Token>, at: int)
    ensures
        spec_parse_set_ish(toks, at) matches Ok((v, n)) ==> at + n <= toks.len() && n >= 1,
{
    lemma_scan_balanced_bound(toks, at + 1, 1);
}

/// Joined texts depend only on the tokens they cover.
pub proof fn lemma_join_texts_take(toks: Seq<Token>, at: int, m: int, n: int)
    requires
        0 <= at,
        at + m <= n <= toks.len(),
    ensures
        spec_join_texts(toks.take(n), at, m) == spec_join_texts(toks, at, m),
    decreases m,
{
    if m > 1 {
        lemma_join_texts_take(toks, at, m - 1, n);
    }
}

/// A balanced scan that closes within the first `n` tokens is unchanged by
/// truncating to them.
pub proof fn lemma_scan_balanced_take_ok(toks: Seq<Token>, at: int, depth: int, n: int)
    requires
        0 <= at,
        n <= toks.len(),
        spec_scan_balanced(toks, at, depth) matches Ok(c) && at + c <= n,
    ensures
        spec_scan_balanced(toks.take(n), at, depth) == spec_scan_balanced(toks, at, depth),
    decreases toks.len() - at,
{
    if 0 <= at && at < toks.len() {
        if toks[at].kind == TokenKind::CurlyEnd {
            if depth > 1 {
                lemma_scan_balanced_take_ok(toks, at + 1, depth - 1, n);
            }
        } else if toks[at].kind == TokenKind::CurlyBegin {
            lemma_scan_balanced_take_ok(toks, at + 1, depth + 1, n);
        } else {
            lemma_scan_balanced_take_ok(toks, at + 1, depth, n);
        }
    }
}

/// A balanced scan that never closes does not close on a prefix either.
pub proof fn lemma_scan_balanced_take_err(toks: Seq<Token>, at: int, depth: int, n: int)
    requires
        0 <= at,
        0 <= n <= toks.len(),
        spec_scan_balanced(toks, at, depth) is Err,
    ensures
        spec_scan_balanced(toks.take(n), at, depth) is Err,
    decreases toks.len() - at,
{
    if 0 <= at && at < toks.len() && at < n {
        if toks[at].kind == TokenKind::CurlyEnd {
            if depth > 1 {
                lemma_scan_balanced_take_err(toks, at + 1, depth - 1, n);
            }
        } else if toks[at].kind == TokenKind::CurlyBegin {
            lemma_scan_balanced_take_err(toks, at + 1, depth + 1, n);
        } else {
            lemma_scan_balanced_take_err(toks, at + 1, depth, n);
        }
    }
}

/// A successful inline-value parse is unchanged by truncating the token
/// sequence right after it.
pub proof fn lemma_set_ish_take(toks: Seq<Token>, at: int, n: int)
    requires
        0 <= at,
        n <= toks.len(),
        spec_parse_set_ish(toks, at) matches Ok((v, c)) && at + c <= n,
    ensures
        spec_parse_set_ish(toks.take(n), at) == spec_parse_set_ish(toks, at),
{
    let c = spec_parse_set_ish(toks, at)->Ok_0.1;
    lemma_scan_balanced_take_ok(toks, at + 1, 1, n);
    lemma_join_texts_take(toks, at, c as int, n);
}

/// Parses one inline value in set/object notation starting at `tokens[at]`:
/// a brace-balanced token run kept as raw text.
pub fn parse_set_ish_value_at(tokens: &[Token], at: usize) -> (r: Result<(String, usize), Error>)
    ensures
        match r {
            Ok((v, n)) => spec_parse_set_ish(tokens@, at as int) == Ok::<_, ErrorModel>((
                v@,
                n as nat,
            )),
            Err(e) => spec_parse_set_ish(tokens@, at as int) == Err::<(Seq<char>, nat), _>(e@),
        },
{
    if !(at < tokens.len() && tokens[at].kind == TokenKind::CurlyBegin) {
        return Err(mismatch_at(tokens, at, "'{'"));
    }
    let mut text = tokens[at].text.clone();
    let mut i: usize = at + 1;
    let mut depth: usize = 1;
    loop
        invariant
            at < tokens@.len(),
            tokens@[at as int].kind == TokenKind::CurlyBegin,
            at + 1 <= i <= tokens@.len(),
            1 <= depth <= i - at,
            text@ == spec_join_texts(tokens@, at as int, i - at),
            (match spec_scan_balanced(tokens@, i as int, depth as int) {
                Ok(m) => spec_scan_balanced(tokens@, at + 1, 1) == Ok::<nat, ErrorModel>(
                    (m + i - at - 1) as nat,
                ),
                Err(e) => spec_scan_balanced(tokens@, at + 1, 1) == Err::<nat, ErrorModel>(e),
            }),
        decreases tokens@.len() - i,
    {
        if i >= tokens.len() {
            return Err(mismatch_at(tokens, i, "'}'"));
        }
        text.append(" ");
        text.append(tokens[i].text.as_str());
        proof {
            assert(text@ == spec_join_texts(tokens@, at as int, i + 1 - at));
        }
        if tokens[i].kind == TokenKind::CurlyEnd {
            if depth == 1 {
                return Ok((text, i + 1 - at));
            }
            depth = depth - 1;
        } else if tokens[i].kind == TokenKind::CurlyBegin {
            depth = depth + 1;
        }
        i = i + 1;
    }
}

/// Parses one inline value in set/object notation from the start of
/// `tokens`, returning its raw text with the number of tokens consumed.
pub fn parse_set_ish_value(tokens: &[Token]) -> (r: Result<(String, usize), Error>)
    ensures
        match r {
            Ok((v, n)) => spec_parse_set_ish(tokens@, 0) == Ok::<_, ErrorModel>((v@, n as nat)),
            Err(e) => spec_parse_set_ish(tokens@, 0) == Err::<(Seq<char>, nat), _>(e@),
        },
{
    parse_set_ish_value_at(tokens, 0)
}

} // verus!
