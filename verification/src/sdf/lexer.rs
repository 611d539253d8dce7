use vstd::prelude::*;
use crate::sdf::parser::ParseError;

verus! {

// ── Tokens ───────────────────────────────────────────────────────────────────

/// The kinds of token of the SDF language.
#[derive(Debug, Clone, Copy, PartialEq, Eq, Structural)]
pub enum TokenKind {
    Ident,
    Number,
    /// A point followed by lane letters, such as `.xyz`.
    Swizzle,
    Def,
    Let,
    Return,
    LParen,
    RParen,
    LBrace,
    RBrace,
    LAngle,
    RAngle,
    Comma,
    Semicolon,
    Colon,
    Arrow,
    Assign,
    Plus,
    Minus,
    Star,
    Slash,
}

/// A token and the half-open range `start..end` of source offsets it covers.
#[derive(Debug, Clone, Copy, PartialEq, Eq, Structural)]
pub struct Token {
    pub kind: TokenKind,
    pub start: usize,
    pub end: usize,
}

// ── Character classes ────────────────────────────────────────────────────────

pub open spec fn is_space(c: u8) -> bool {
    c == 32u8 || c == 9u8 || c == 10u8 || c == 13u8
}

pub open spec fn is_digit(c: u8) -> bool {
    48u8 <= c <= 57u8
}

pub open spec fn is_ident_start(c: u8) -> bool {
    (65u8 <= c <= 90u8) || (97u8 <= c <= 122u8) || c == 95u8
}

pub open spec fn is_ident_char(c: u8) -> bool {
    is_ident_start(c) || is_digit(c)
}

/// The classes of byte that a run of one token or comment is made of.
#[derive(Debug, Clone, Copy, PartialEq, Eq, Structural)]
pub enum Run {
    IdentChars,
    Digits,
    /// Anything up to the end of the line.
    LineBody,
}

pub open spec fn in_run(r: Run, c: u8) -> bool {
    match r {
        Run::IdentChars => is_ident_char(c),
        Run::Digits => is_digit(c),
        Run::LineBody => c != 10u8,
    }
}

/// How many bytes from `i` on belong to the run `r`.
pub open spec fn run_len(b: Seq<u8>, i: int, r: Run) -> nat
    decreases b.len() - i,
{
    if 0 <= i < b.len() && in_run(r, b[i]) {
        1 + run_len(b, i + 1, r)
    } else {
        0
    }
}

/// The token kind of a word: a keyword or an identifier.
pub open spec fn word_kind(w: Seq<u8>) -> TokenKind {
    if w == seq![100u8, 101u8, 102u8] {
        TokenKind::Def
    } else if w == seq![108u8, 101u8, 116u8] {
        TokenKind::Let
    } else if w == seq![114u8, 101u8, 116u8, 117u8, 114u8, 110u8] {
        TokenKind::Return
    } else {
        TokenKind::Ident
    }
}

/// The token kind of a byte that is a token by itself.
pub open spec fn single_kind(c: u8) -> Option<TokenKind> {
    if c == 40u8 {
        Some(TokenKind::LParen)
    } else if c == 41u8 {
        Some(TokenKind::RParen)
    } else if c == 123u8 {
        Some(TokenKind::LBrace)
    } else if c == 125u8 {
        Some(TokenKind::RBrace)
    } else if c == 60u8 {
        Some(TokenKind::LAngle)
    } else if c == 62u8 {
        Some(TokenKind::RAngle)
    } else if c == 44u8 {
        Some(TokenKind::Comma)
    } else if c == 59u8 {
        Some(TokenKind::Semicolon)
    } else if c == 58u8 {
        Some(TokenKind::Colon)
    } else if c == 61u8 {
        Some(TokenKind::Assign)
    } else if c == 43u8 {
        Some(TokenKind::Plus)
    } else if c == 42u8 {
        Some(TokenKind::Star)
    } else if c == 47u8 {
        Some(TokenKind::Slash)
    } else {
        None
    }
}

/// The end of a number literal that starts with a digit at `i`: digits,
/// then, if a point is followed by a digit, the point and more digits.
pub open spec fn number_end(b: Seq<u8>, i: int) -> int {
    let j = i + run_len(b, i, Run::Digits);
    if j + 1 < b.len() && b[j] == 46u8 && is_digit(b[j + 1]) {
        j + 1 + run_len(b, j + 1, Run::Digits)
    } else {
        j
    }
}

pub open spec fn prepend(ts: Seq<Token>, r: Result<Seq<Token>, ParseError>) -> Result<Seq<Token>, ParseError> {
    match r {
        Ok(rest) => Ok(ts + rest),
        Err(e) => Err(e),
    }
}

/// The tokens of `b` from offset `i` on, by longest match: blanks and
/// `//` comments separate tokens; a byte that starts no token is an error at
/// its offset.
pub open spec fn lex_from(b: Seq<u8>, i: int) -> Result<Seq<Token>, ParseError>
    decreases b.len() - i,
{
    if i < 0 || i >= b.len() {
        Ok(Seq::empty())
    } else {
        let c = b[i];
        if is_space(c) {
            lex_from(b, i + 1)
        } else if c == 47u8 && i + 1 < b.len() && b[i + 1] == 47u8 {
            proof {
                lemma_run_len_bound(b, i + 2, Run::LineBody);
            }
            lex_from(b, i + 2 + run_len(b, i + 2, Run::LineBody))
        } else if is_ident_start(c) {
            proof {
                lemma_run_len_bound(b, i + 1, Run::IdentChars);
            }
            let j = i + 1 + run_len(b, i + 1, Run::IdentChars);
            let tok = Token { kind: word_kind(b.subrange(i, j)), start: i as usize, end: j as usize };
            prepend(seq![tok], lex_from(b, j))
        } else if is_digit(c) {
            proof {
                lemma_number_end_bound(b, i);
            }
            let j = number_end(b, i);
            if j > i {
                prepend(seq![Token { kind: TokenKind::Number, start: i as usize, end: j as usize }], lex_from(b, j))
            } else {
                Err(ParseError::Syntax(i as usize))
            }
        } else if c == 46u8 {
            proof {
                lemma_run_len_bound(b, i + 1, Run::IdentChars);
            }
            let n = run_len(b, i + 1, Run::IdentChars);
            if n == 0 {
                Err(ParseError::Syntax(i as usize))
            } else {
                let j = i + 1 + n;
                prepend(seq![Token { kind: TokenKind::Swizzle, start: i as usize, end: j as usize }], lex_from(b, j))
            }
        } else if c == 45u8 {
            if i + 1 < b.len() && b[i + 1] == 62u8 {
                prepend(seq![Token { kind: TokenKind::Arrow, start: i as usize, end: (i + 2) as usize }], lex_from(b, i + 2))
            } else {
                prepend(seq![Token { kind: TokenKind::Minus, start: i as usize, end: (i + 1) as usize }], lex_from(b, i + 1))
            }
        } else {
            match single_kind(c) {
                Some(k) => prepend(seq![Token { kind: k, start: i as usize, end: (i + 1) as usize }], lex_from(b, i + 1)),
                None => Err(ParseError::Syntax(i as usize)),
            }
        }
    }
}

/// Every token that the lexer yields covers a nonempty range inside the input.
pub open spec fn tokens_in_bounds(ts: Seq<Token>, len: int) -> bool {
    forall|k: int| 0 <= k < ts.len() ==> #[trigger] ts[k].start < ts[k].end && ts[k].end <= len
}

// ── Executable lexer ─────────────────────────────────────────────────────────

fn byte_in_run(r: Run, c: u8) -> (res: bool)
    ensures
        res == in_run(r, c),
{
    match r {
        Run::IdentChars => (65u8 <= c && c <= 90u8) || (97u8 <= c && c <= 122u8) || c == 95u8 || (48u8 <= c && c <= 57u8),
        Run::Digits => 48u8 <= c && c <= 57u8,
        Run::LineBody => c != 10u8,
    }
}

pub proof fn lemma_number_end_bound(b: Seq<u8>, i: int)
    requires
        0 <= i < b.len(),
    ensures
        i <= number_end(b, i) <= b.len(),
{
    lemma_run_len_bound(b, i, Run::Digits);
    let j = i + run_len(b, i, Run::Digits);
    lemma_run_len_bound(b, j + 1, Run::Digits);
}

pub proof fn lemma_run_len_bound(b: Seq<u8>, i: int, r: Run)
    requires
        0 <= i,
    ensures
        i + run_len(b, i, r) <= if i <= b.len() { b.len() as int } else { i },
    decreases b.len() - i,
{
    if 0 <= i < b.len() && in_run(r, b[i]) {
        lemma_run_len_bound(b, i + 1, r);
    }
}

/// The offset where the run `r` that starts at `i` ends.
fn run_end(b: &[u8], i: usize, r: Run) -> (j: usize)
    requires
        i <= b@.len(),
    ensures
        j == i + run_len(b@, i as int, r),
        j <= b@.len(),
{
    let mut j = i;
    while j < b.len() && byte_in_run(r, b[j])
        invariant
            i <= j <= b@.len(),
            run_len(b@, i as int, r) == (j - i) + run_len(b@, j as int, r),
        decreases b@.len() - j,
    {
        j = j + 1;
    }
    proof {
        lemma_run_len_bound(b@, i as int, r);
    }
    j
}

fn word_kind_exec(b: &[u8], i: usize, j: usize) -> (k: TokenKind)
    requires
        i <= j <= b@.len(),
    ensures
        k == word_kind(b@.subrange(i as int, j as int)),
{
    let ghost w = b@.subrange(i as int, j as int);
    if j - i == 3 && b[i] == 100u8 && b[i + 1] == 101u8 && b[i + 2] == 102u8 {
        assert(w =~= seq![100u8, 101u8, 102u8]);
        TokenKind::Def
    } else if j - i == 3 && b[i] == 108u8 && b[i + 1] == 101u8 && b[i + 2] == 116u8 {
        assert(w =~= seq![108u8, 101u8, 116u8]);
        assert(w != seq![100u8, 101u8, 102u8]) by {
            assert(w[0] != seq![100u8, 101u8, 102u8][0]);
        }
        TokenKind::Let
    } else if j - i == 6 && b[i] == 114u8 && b[i + 1] == 101u8 && b[i + 2] == 116u8 && b[i + 3] == 117u8
        && b[i + 4] == 114u8 && b[i + 5] == 110u8 {
        assert(w =~= seq![114u8, 101u8, 116u8, 117u8, 114u8, 110u8]);
        assert(w.len() == 6);
        assert(seq![100u8, 101u8, 102u8].len() == 3);
        assert(seq![108u8, 101u8, 116u8].len() == 3);
        TokenKind::Return
    } else {
        proof {
            assert(w.len() == j - i);
            if w == seq![100u8, 101u8, 102u8] {
                assert(seq![100u8, 101u8, 102u8].len() == 3);
                assert(w[0] == b@[i as int] && w[1] == b@[i + 1] && w[2] == b@[i + 2]);
                assert(false);
            }
            if w == seq![108u8, 101u8, 116u8] {
                assert(seq![108u8, 101u8, 116u8].len() == 3);
                assert(w[0] == b@[i as int] && w[1] == b@[i + 1] && w[2] == b@[i + 2]);
                assert(false);
            }
            if w == seq![114u8, 101u8, 116u8, 117u8, 114u8, 110u8] {
                assert(seq![114u8, 101u8, 116u8, 117u8, 114u8, 110u8].len() == 6);
                assert(w[0] == b@[i as int] && w[1] == b@[i + 1] && w[2] == b@[i + 2]);
                assert(w[3] == b@[i + 3] && w[4] == b@[i + 4] && w[5] == b@[i + 5]);
                assert(false);
            }
        }
        TokenKind::Ident
    }
}
fn single_kind_exec(c: u8) -> (k: Option<TokenKind>)
    ensures
        k == single_kind(c),
{
    if c == 40u8 {
        Some(TokenKind::LParen)
    } else if c == 41u8 {
        Some(TokenKind::RParen)
    } else if c == 123u8 {
        Some(TokenKind::LBrace)
    } else if c == 125u8 {
        Some(TokenKind::RBrace)
    } else if c == 60u8 {
        Some(TokenKind::LAngle)
    } else if c == 62u8 {
        Some(TokenKind::RAngle)
    } else if c == 44u8 {
        Some(TokenKind::Comma)
    } else if c == 59u8 {
        Some(TokenKind::Semicolon)
    } else if c == 58u8 {
        Some(TokenKind::Colon)
    } else if c == 61u8 {
        Some(TokenKind::Assign)
    } else if c == 43u8 {
        Some(TokenKind::Plus)
    } else if c == 42u8 {
        Some(TokenKind::Star)
    } else if c == 47u8 {
        Some(TokenKind::Slash)
    } else {
        None
    }
}

proof fn lemma_prepend_push(ts: Seq<Token>, t: Token, r: Result<Seq<Token>, ParseError>)
    ensures
        prepend(ts, prepend(seq![t], r)) == prepend(ts.push(t), r),
{
    match r {
        Ok(x) => {
            assert(ts + (seq![t] + x) =~= ts.push(t) + x);
        },
        Err(_) => {},
    }
}

/// Reads what starts at offset `i`: a token, or a blank or comment (`None`),
/// and the offset after it.
fn next_token(b: &[u8], i: usize) -> (r: Result<(Option<Token>, usize), ParseError>)
    requires
        i < b@.len(),
    ensures
        match r {
            Ok((Some(t), j)) => i < j <= b@.len() && lex_from(b@, i as int) == prepend(seq![t], lex_from(b@, j as int)),
            Ok((None, j)) => i < j <= b@.len() && lex_from(b@, i as int) == lex_from(b@, j as int),
            Err(e) => lex_from(b@, i as int) == Err::<Seq<Token>, ParseError>(e),
        },
{
    let len = b.len();
    let c = b[i];
    if c == 32u8 || c == 9u8 || c == 10u8 || c == 13u8 {
        Ok((None, i + 1))
    } else if c == 47u8 && i + 1 < len && b[i + 1] == 47u8 {
        let j = run_end(b, i + 2, Run::LineBody);
        Ok((None, j))
    } else if (65u8 <= c && c <= 90u8) || (97u8 <= c && c <= 122u8) || c == 95u8 {
        let j = run_end(b, i + 1, Run::IdentChars);
        let kind = word_kind_exec(b, i, j);
        Ok((Some(Token { kind, start: i, end: j }), j))
    } else if 48u8 <= c && c <= 57u8 {
        let j0 = run_end(b, i, Run::Digits);
        let j = if j0 < len && j0 + 1 < len && b[j0] == 46u8 && 48u8 <= b[j0 + 1] && b[j0 + 1] <= 57u8 {
            run_end(b, j0 + 1, Run::Digits)
        } else {
            j0
        };
        assert(j == number_end(b@, i as int));
        Ok((Some(Token { kind: TokenKind::Number, start: i, end: j }), j))
    } else if c == 46u8 {
        let j = run_end(b, i + 1, Run::IdentChars);
        if j == i + 1 {
            Err(ParseError::Syntax(i))
        } else {
            Ok((Some(Token { kind: TokenKind::Swizzle, start: i, end: j }), j))
        }
    } else if c == 45u8 {
        if i + 1 < len && b[i + 1] == 62u8 {
            Ok((Some(Token { kind: TokenKind::Arrow, start: i, end: i + 2 }), i + 2))
        } else {
            Ok((Some(Token { kind: TokenKind::Minus, start: i, end: i + 1 }), i + 1))
        }
    } else {
        match single_kind_exec(c) {
            Some(kind) => Ok((Some(Token { kind, start: i, end: i + 1 }), i + 1)),
            None => Err(ParseError::Syntax(i)),
        }
    }
}

/// Splits `b` into tokens; the result is `lex_from(b, 0)`.
pub fn tokenize(b: &[u8]) -> (r: Result<Vec<Token>, ParseError>)
    ensures
        match r {
            Ok(ts) => lex_from(b@, 0) == Ok::<Seq<Token>, ParseError>(ts@),
            Err(e) => lex_from(b@, 0) == Err::<Seq<Token>, ParseError>(e),
        },
{
    let mut toks: Vec<Token> = Vec::new();
    let mut i: usize = 0;
    let len = b.len();
    assert(toks@ + Seq::<Token>::empty() =~= toks@);
    while i < len
        invariant
            len == b@.len(),
            i <= len,
            lex_from(b@, 0) == prepend(toks@, lex_from(b@, i as int)),
        decreases len - i,
    {
        match next_token(b, i) {
            Ok((Some(t), j)) => {
                proof {
                    lemma_prepend_push(toks@, t, lex_from(b@, j as int));
                }
                toks.push(t);
                i = j;
            },
            Ok((None, j)) => {
                i = j;
            },
            Err(e) => {
                return Err(e);
            },
        }
    }
    assert(toks@ + Seq::<Token>::empty() =~= toks@);
    Ok(toks)
}

proof fn lemma_prepend_bounds(t: Token, r: Result<Seq<Token>, ParseError>, i: int, j: int, len: int)
    requires
        i <= t.start < t.end <= len,
        i <= j,
        r matches Ok(ts) ==> tokens_in_bounds(ts, len) && forall|k: int| 0 <= k < ts.len() ==> #[trigger] ts[k].start >= j,
    ensures
        prepend(seq![t], r) matches Ok(ts) ==> tokens_in_bounds(ts, len) && forall|k: int|
            0 <= k < ts.len() ==> #[trigger] ts[k].start >= i,
{
    match r {
        Ok(x) => {
            let ts = seq![t] + x;
            assert forall|k: int| 0 <= k < ts.len() implies #[trigger] ts[k].start < ts[k].end && ts[k].end <= len
                && ts[k].start >= i by {
                if k > 0 {
                    assert(ts[k] == x[k - 1]);
                    assert(x[k - 1].start >= j);
                    assert(x[k - 1].start < x[k - 1].end && x[k - 1].end <= len);
                } else {
                    assert(ts[k] == t);
                }
            }
        },
        Err(_) => {},
    }
}

/// The tokens that the lexer yields lie inside the input and are not empty.
pub proof fn lemma_lex_in_bounds(b: Seq<u8>, i: int)
    requires
        0 <= i,
        b.len() <= usize::MAX,
    ensures
        lex_from(b, i) matches Ok(ts) ==> tokens_in_bounds(ts, b.len() as int)
            && forall|k: int| 0 <= k < ts.len() ==> #[trigger] ts[k].start >= i,
    decreases b.len() - i,
{
    if i < b.len() {
        let c = b[i];
        let len = b.len() as int;
        if is_space(c) {
            lemma_lex_in_bounds(b, i + 1);
        } else if c == 47u8 && i + 1 < b.len() && b[i + 1] == 47u8 {
            lemma_run_len_bound(b, i + 2, Run::LineBody);
            lemma_lex_in_bounds(b, i + 2 + run_len(b, i + 2, Run::LineBody));
        } else if is_ident_start(c) {
            lemma_run_len_bound(b, i + 1, Run::IdentChars);
            let j = i + 1 + run_len(b, i + 1, Run::IdentChars);
            lemma_lex_in_bounds(b, j);
            let tok = Token { kind: word_kind(b.subrange(i, j)), start: i as usize, end: j as usize };
            lemma_prepend_bounds(tok, lex_from(b, j), i, j, len);
        } else if is_digit(c) {
            lemma_number_end_bound(b, i);
            let j = number_end(b, i);
            if j > i {
                lemma_lex_in_bounds(b, j);
                let tok = Token { kind: TokenKind::Number, start: i as usize, end: j as usize };
                lemma_prepend_bounds(tok, lex_from(b, j), i, j, len);
            }
        } else if c == 46u8 {
            lemma_run_len_bound(b, i + 1, Run::IdentChars);
            let n = run_len(b, i + 1, Run::IdentChars);
            if n != 0 {
                let j = i + 1 + n;
                lemma_lex_in_bounds(b, j);
                let tok = Token { kind: TokenKind::Swizzle, start: i as usize, end: j as usize };
                lemma_prepend_bounds(tok, lex_from(b, j), i, j, len);
            }
        } else if c == 45u8 {
            if i + 1 < b.len() && b[i + 1] == 62u8 {
                lemma_lex_in_bounds(b, i + 2);
                let tok = Token { kind: TokenKind::Arrow, start: i as usize, end: (i + 2) as usize };
                lemma_prepend_bounds(tok, lex_from(b, i + 2), i, i + 2, len);
            } else {
                lemma_lex_in_bounds(b, i + 1);
                let tok = Token { kind: TokenKind::Minus, start: i as usize, end: (i + 1) as usize };
                lemma_prepend_bounds(tok, lex_from(b, i + 1), i, i + 1, len);
            }
        } else {
            lemma_lex_in_bounds(b, i + 1);
            match single_kind(c) {
                Some(k) => {
                    let tok = Token { kind: k, start: i as usize, end: (i + 1) as usize };
                    lemma_prepend_bounds(tok, lex_from(b, i + 1), i, i + 1, len);
                },
                None => {},
            }
        }
    }
}

// ── Number tokens are numerals ───────────────────────────────────────────────

/// Bytes `s..e` of `b` split at `m` into a decimal numeral: digits before
/// `m`, and, unless `m` is the end, a point at `m` followed by more digits.
pub open spec fn numeral_split_bytes(b: Seq<u8>, s: int, m: int, e: int) -> bool {
    &&& s < m <= e
    &&& forall|t: int| s <= t < m ==> #[trigger] is_digit(b[t])
    &&& m == e || (b[m] == 46u8 && m + 1 < e && forall|t: int| m < t < e ==> #[trigger] is_digit(b[t]))
}

/// Bytes `s..e` of `b` are a decimal numeral.
pub open spec fn numeral_bytes(b: Seq<u8>, s: int, e: int) -> bool {
    exists|m: int| numeral_split_bytes(b, s, m, e)
}

proof fn lemma_run_len_in(b: Seq<u8>, i: int, r: Run)
    requires
        0 <= i,
    ensures
        forall|t: int| i <= t < i + run_len(b, i, r) ==> #[trigger] in_run(r, b[t]),
    decreases b.len() - i,
{
    if 0 <= i < b.len() && in_run(r, b[i]) {
        lemma_run_len_in(b, i + 1, r);
    }
}

proof fn lemma_number_numeral(b: Seq<u8>, i: int)
    requires
        0 <= i < b.len(),
        is_digit(b[i]),
    ensures
        numeral_bytes(b, i, number_end(b, i)),
{
    lemma_run_len_in(b, i, Run::Digits);
    lemma_run_len_bound(b, i, Run::Digits);
    let m = i + run_len(b, i, Run::Digits);
    let e = number_end(b, i);
    assert(run_len(b, i, Run::Digits) >= 1);
    assert forall|t: int| i <= t < m implies #[trigger] is_digit(b[t]) by {
        assert(in_run(Run::Digits, b[t]));
    }
    if m + 1 < b.len() && b[m] == 46u8 && is_digit(b[m + 1]) {
        lemma_run_len_in(b, m + 1, Run::Digits);
        assert(run_len(b, m + 1, Run::Digits) >= 1);
        assert forall|t: int| m < t < e implies #[trigger] is_digit(b[t]) by {
            assert(in_run(Run::Digits, b[t]));
        }
    }
    assert(numeral_split_bytes(b, i, m, e));
}

/// Every number token of `ts` covers a numeral of `b`.
pub open spec fn number_tokens_numerals(b: Seq<u8>, ts: Seq<Token>) -> bool {
    forall|k: int|
        0 <= k < ts.len() && (#[trigger] ts[k]).kind == TokenKind::Number ==> numeral_bytes(
            b,
            ts[k].start as int,
            ts[k].end as int,
        )
}

proof fn lemma_prepend_numerals(b: Seq<u8>, tok: Token, r: Result<Seq<Token>, ParseError>)
    requires
        tok.kind == TokenKind::Number ==> numeral_bytes(b, tok.start as int, tok.end as int),
        r matches Ok(ts) ==> number_tokens_numerals(b, ts),
    ensures
        prepend(seq![tok], r) matches Ok(ts) ==> number_tokens_numerals(b, ts),
{
    match r {
        Ok(x) => {
            let ts = seq![tok] + x;
            assert forall|k: int| 0 <= k < ts.len() && (#[trigger] ts[k]).kind == TokenKind::Number implies numeral_bytes(
                b,
                ts[k].start as int,
                ts[k].end as int,
            ) by {
                if k > 0 {
                    assert(ts[k] == x[k - 1]);
                }
            }
        },
        Err(_) => {},
    }
}

/// Every number token that the lexer yields covers a decimal numeral.
pub proof fn lemma_lex_numerals(b: Seq<u8>, i: int)
    requires
        0 <= i,
        b.len() <= usize::MAX,
    ensures
        lex_from(b, i) matches Ok(ts) ==> number_tokens_numerals(b, ts),
    decreases b.len() - i,
{
    if i < b.len() {
        let c = b[i];
        if is_space(c) {
            lemma_lex_numerals(b, i + 1);
        } else if c == 47u8 && i + 1 < b.len() && b[i + 1] == 47u8 {
            lemma_run_len_bound(b, i + 2, Run::LineBody);
            lemma_lex_numerals(b, i + 2 + run_len(b, i + 2, Run::LineBody));
        } else if is_ident_start(c) {
            lemma_run_len_bound(b, i + 1, Run::IdentChars);
            let j = i + 1 + run_len(b, i + 1, Run::IdentChars);
            lemma_lex_numerals(b, j);
            let tok = Token { kind: word_kind(b.subrange(i, j)), start: i as usize, end: j as usize };
            lemma_prepend_numerals(b, tok, lex_from(b, j));
        } else if is_digit(c) {
            lemma_number_end_bound(b, i);
            let j = number_end(b, i);
            if j > i {
                lemma_lex_numerals(b, j);
                lemma_number_numeral(b, i);
                let tok = Token { kind: TokenKind::Number, start: i as usize, end: j as usize };
                lemma_prepend_numerals(b, tok, lex_from(b, j));
            }
        } else if c == 46u8 {
            lemma_run_len_bound(b, i + 1, Run::IdentChars);
            let n = run_len(b, i + 1, Run::IdentChars);
            if n != 0 {
                let j = i + 1 + n;
                lemma_lex_numerals(b, j);
                let tok = Token { kind: TokenKind::Swizzle, start: i as usize, end: j as usize };
                lemma_prepend_numerals(b, tok, lex_from(b, j));
            }
        } else if c == 45u8 {
            if i + 1 < b.len() && b[i + 1] == 62u8 {
                lemma_lex_numerals(b, i + 2);
                let tok = Token { kind: TokenKind::Arrow, start: i as usize, end: (i + 2) as usize };
                lemma_prepend_numerals(b, tok, lex_from(b, i + 2));
            } else {
                lemma_lex_numerals(b, i + 1);
                let tok = Token { kind: TokenKind::Minus, start: i as usize, end: (i + 1) as usize };
                lemma_prepend_numerals(b, tok, lex_from(b, i + 1));
            }
        } else {
            lemma_lex_numerals(b, i + 1);
            match single_kind(c) {
                Some(k) => {
                    let tok = Token { kind: k, start: i as usize, end: (i + 1) as usize };
                    lemma_prepend_numerals(b, tok, lex_from(b, i + 1));
                },
                None => {},
            }
        }
    }
}

// ── Punctuation reads as itself ──────────────────────────────────────────────

/// Each operator and bracket byte is a token of its own kind: `+` is a
/// plus, `-` a minus (unless it begins `->`), `*` a star, `/` a slash
/// (unless it begins a `//` comment), and so on for the brackets and
/// separators.
pub proof fn law_punctuation_tokens(b: Seq<u8>, i: int)
    requires
        0 <= i < b.len(),
    ensures
        b[i] == 43u8 ==> lex_from(b, i) == prepend(seq![Token { kind: TokenKind::Plus, start: i as usize, end: (i + 1) as usize }], lex_from(b, i + 1)),
        b[i] == 42u8 ==> lex_from(b, i) == prepend(seq![Token { kind: TokenKind::Star, start: i as usize, end: (i + 1) as usize }], lex_from(b, i + 1)),
        b[i] == 40u8 ==> lex_from(b, i) == prepend(seq![Token { kind: TokenKind::LParen, start: i as usize, end: (i + 1) as usize }], lex_from(b, i + 1)),
        b[i] == 41u8 ==> lex_from(b, i) == prepend(seq![Token { kind: TokenKind::RParen, start: i as usize, end: (i + 1) as usize }], lex_from(b, i + 1)),
        b[i] == 60u8 ==> lex_from(b, i) == prepend(seq![Token { kind: TokenKind::LAngle, start: i as usize, end: (i + 1) as usize }], lex_from(b, i + 1)),
        b[i] == 62u8 ==> lex_from(b, i) == prepend(seq![Token { kind: TokenKind::RAngle, start: i as usize, end: (i + 1) as usize }], lex_from(b, i + 1)),
        b[i] == 44u8 ==> lex_from(b, i) == prepend(seq![Token { kind: TokenKind::Comma, start: i as usize, end: (i + 1) as usize }], lex_from(b, i + 1)),
        b[i] == 59u8 ==> lex_from(b, i) == prepend(seq![Token { kind: TokenKind::Semicolon, start: i as usize, end: (i + 1) as usize }], lex_from(b, i + 1)),
        b[i] == 61u8 ==> lex_from(b, i) == prepend(seq![Token { kind: TokenKind::Assign, start: i as usize, end: (i + 1) as usize }], lex_from(b, i + 1)),
        b[i] == 58u8 ==> lex_from(b, i) == prepend(seq![Token { kind: TokenKind::Colon, start: i as usize, end: (i + 1) as usize }], lex_from(b, i + 1)),
        b[i] == 123u8 ==> lex_from(b, i) == prepend(seq![Token { kind: TokenKind::LBrace, start: i as usize, end: (i + 1) as usize }], lex_from(b, i + 1)),
        b[i] == 125u8 ==> lex_from(b, i) == prepend(seq![Token { kind: TokenKind::RBrace, start: i as usize, end: (i + 1) as usize }], lex_from(b, i + 1)),
        b[i] == 45u8 && !(i + 1 < b.len() && b[i + 1] == 62u8) ==> lex_from(b, i) == prepend(seq![Token { kind: TokenKind::Minus, start: i as usize, end: (i + 1) as usize }], lex_from(b, i + 1)),
        b[i] == 47u8 && !(i + 1 < b.len() && b[i + 1] == 47u8) ==> lex_from(b, i) == prepend(seq![Token { kind: TokenKind::Slash, start: i as usize, end: (i + 1) as usize }], lex_from(b, i + 1)),
{
}

} // verus!
