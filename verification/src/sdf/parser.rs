use vstd::prelude::*;
use vstd::string::StrSliceExecFns;
use vstd::utf8::is_ascii_chars;
use arrayvec::ArrayVec;

use crate::sdf::ast::{
    Assignment, BinaryOp, DataType, Expression, FunctionBody, FunctionDef, Parameter, Program,
    SAssignment, SExpr, SFunctionBody, SFunctionDef, SParameter, SProgram, SwizzleIndex, UnaryOp,
    exprs_view, lanes_as_slice, lanes_new, lanes_push, lemma_exprs_view_push, swizzle_lanes,
};
use crate::sdf::lexer::{Token, TokenKind, lemma_lex_in_bounds, lex_from, tokenize, tokens_in_bounds};

verus! {

/// Errors found after the text has been split into statements.
#[derive(Debug, Clone, Copy, PartialEq, Eq, Structural)]
pub enum SemanticError {
    MissingReturnStatement,
}

/// Why a text is not a program.
#[derive(Debug, Clone, Copy, PartialEq, Eq, Structural)]
pub enum ParseError {
    /// The text holds a character outside ASCII.
    NonAscii,
    /// The text cannot be read past this byte offset.
    Syntax(usize),
    Semantic(SemanticError),
}

// ── The grammar ──────────────────────────────────────────────────────────────
//
//   Program      := (FunctionDef | Assignment | Return)*            (the last Return counts)
//   FunctionDef  := "def" ID "(" (Param ("," Param)*)? ")" "->" Type "{" (Assignment | Return)* "}"
//   Param        := ID ":" Type
//   Type         := "float" | "vec1" | "vec2" | "vec3" | "vec4" | "sdf"
//   Assignment   := "let" ID "=" Expression ";"
//   Return       := "return" Expression ";"
//   Expression   := Term (("+" | "-") Term)*                       (left associative)
//   Term         := Factor (("*" | "/") Factor)*                    (left associative)
//   Factor       := "-"? Primary
//   Primary      := Operand Swizzle?                                (one to four lanes)
//   Operand      := NUMBER | ID "(" (Expression ("," Expression)*)? ")" | ID
//                 | "<" Expression ("," Expression)* ">" | "(" Expression ")"

/// The text, its bytes and its tokens, as the grammar functions see them.
pub struct Source {
    pub chars: Seq<char>,
    pub bytes: Seq<u8>,
    pub toks: Seq<Token>,
}

pub open spec fn ascii_bytes(s: Seq<char>) -> Seq<u8> {
    Seq::new(s.len(), |i: int| s[i] as u8)
}

/// A grammar step that starts at `from` has read tokens and stopped inside the input.
pub open spec fn progress(src: Source, from: int, to: int) -> bool {
    from < to <= src.toks.len()
}

pub open spec fn is_at(src: Source, pos: int, k: TokenKind) -> bool {
    0 <= pos < src.toks.len() && src.toks[pos].kind == k
}

/// The error for an unexpected token at `pos`, or for a text that ends early.
pub open spec fn error_at(src: Source, pos: int) -> ParseError {
    if 0 <= pos < src.toks.len() {
        ParseError::Syntax(src.toks[pos].start)
    } else {
        ParseError::Syntax(src.chars.len() as usize)
    }
}

/// The characters of the token at `pos`.
pub open spec fn text_at(src: Source, pos: int) -> Seq<char> {
    src.chars.subrange(src.toks[pos].start as int, src.toks[pos].end as int)
}

/// The bytes of the token at `pos`.
pub open spec fn bytes_at(src: Source, pos: int) -> Seq<u8> {
    src.bytes.subrange(src.toks[pos].start as int, src.toks[pos].end as int)
}

pub open spec fn data_type_of(w: Seq<u8>) -> Option<DataType> {
    if w == seq![102u8, 108u8, 111u8, 97u8, 116u8] {
        Some(DataType::Float)
    } else if w == seq![118u8, 101u8, 99u8, 49u8] {
        Some(DataType::Vec1)
    } else if w == seq![118u8, 101u8, 99u8, 50u8] {
        Some(DataType::Vec2)
    } else if w == seq![118u8, 101u8, 99u8, 51u8] {
        Some(DataType::Vec3)
    } else if w == seq![118u8, 101u8, 99u8, 52u8] {
        Some(DataType::Vec4)
    } else if w == seq![115u8, 100u8, 102u8] {
        Some(DataType::Sdf)
    } else {
        None
    }
}

/// `x`, `r` and `0` select the first lane; `y`, `g`, `1` the second;
/// `z`, `b`, `2` the third; `w`, `a`, `3` the fourth.
pub open spec fn lane_of(c: u8) -> Option<SwizzleIndex> {
    if c == 120u8 || c == 114u8 || c == 48u8 {
        Some(SwizzleIndex::First)
    } else if c == 121u8 || c == 103u8 || c == 49u8 {
        Some(SwizzleIndex::Second)
    } else if c == 122u8 || c == 98u8 || c == 50u8 {
        Some(SwizzleIndex::Third)
    } else if c == 119u8 || c == 97u8 || c == 51u8 {
        Some(SwizzleIndex::Fourth)
    } else {
        None
    }
}

pub open spec fn lanes_of(w: Seq<u8>) -> Option<Seq<SwizzleIndex>>
    decreases w.len(),
{
    if w.len() == 0 {
        Some(Seq::empty())
    } else {
        match (lanes_of(w.drop_last()), lane_of(w.last())) {
            (Some(ls), Some(l)) => Some(ls.push(l)),
            _ => None,
        }
    }
}

/// The lanes of the swizzle token at `pos` (its bytes after the point), when
/// there are one to four valid ones.
pub open spec fn swizzle_at(src: Source, pos: int) -> Option<Seq<SwizzleIndex>> {
    match lanes_of(bytes_at(src, pos).drop_first()) {
        Some(ls) => if 1 <= ls.len() <= 4 {
            Some(ls)
        } else {
            None
        },
        None => None,
    }
}

pub open spec fn additive_op(src: Source, pos: int) -> Option<BinaryOp> {
    if is_at(src, pos, TokenKind::Plus) {
        Some(BinaryOp::Add)
    } else if is_at(src, pos, TokenKind::Minus) {
        Some(BinaryOp::Sub)
    } else {
        None
    }
}

pub open spec fn multiplicative_op(src: Source, pos: int) -> Option<BinaryOp> {
    if is_at(src, pos, TokenKind::Star) {
        Some(BinaryOp::Mul)
    } else if is_at(src, pos, TokenKind::Slash) {
        Some(BinaryOp::Div)
    } else {
        None
    }
}

/// Expression := Term (("+" | "-") Term)*
pub open spec fn p_expr(src: Source, pos: int) -> Result<(SExpr, int), ParseError>
    decreases src.toks.len() - pos, 7nat,
{
    match p_term(src, pos) {
        Err(e) => Err(e),
        Ok((left, p)) => if progress(src, pos, p) {
            p_expr_rest(src, left, p)
        } else {
            Err(error_at(src, p))
        },
    }
}

pub open spec fn p_expr_rest(src: Source, left: SExpr, pos: int) -> Result<(SExpr, int), ParseError>
    decreases src.toks.len() - pos, 7nat,
{
    match additive_op(src, pos) {
        Some(op) => match p_term(src, pos + 1) {
            Err(e) => Err(e),
            Ok((right, p)) => if progress(src, pos, p) {
                p_expr_rest(src, SExpr::Binary { op, left: Box::new(left), right: Box::new(right) }, p)
            } else {
                Err(error_at(src, p))
            },
        },
        None => Ok((left, pos)),
    }
}

/// Term := Factor (("*" | "/") Factor)*
pub open spec fn p_term(src: Source, pos: int) -> Result<(SExpr, int), ParseError>
    decreases src.toks.len() - pos, 6nat,
{
    match p_factor(src, pos) {
        Err(e) => Err(e),
        Ok((left, p)) => if progress(src, pos, p) {
            p_term_rest(src, left, p)
        } else {
            Err(error_at(src, p))
        },
    }
}

pub open spec fn p_term_rest(src: Source, left: SExpr, pos: int) -> Result<(SExpr, int), ParseError>
    decreases src.toks.len() - pos, 6nat,
{
    match multiplicative_op(src, pos) {
        Some(op) => match p_factor(src, pos + 1) {
            Err(e) => Err(e),
            Ok((right, p)) => if progress(src, pos, p) {
                p_term_rest(src, SExpr::Binary { op, left: Box::new(left), right: Box::new(right) }, p)
            } else {
                Err(error_at(src, p))
            },
        },
        None => Ok((left, pos)),
    }
}

/// Factor := "-"? Primary
pub open spec fn p_factor(src: Source, pos: int) -> Result<(SExpr, int), ParseError>
    decreases src.toks.len() - pos, 5nat,
{
    if is_at(src, pos, TokenKind::Minus) {
        match p_primary(src, pos + 1) {
            Err(e) => Err(e),
            Ok((e, p)) => Ok((SExpr::Unary { op: UnaryOp::Neg, expr: Box::new(e) }, p)),
        }
    } else {
        p_primary(src, pos)
    }
}

/// Primary := Operand Swizzle?
pub open spec fn p_primary(src: Source, pos: int) -> Result<(SExpr, int), ParseError>
    decreases src.toks.len() - pos, 4nat,
{
    match p_operand(src, pos) {
        Err(e) => Err(e),
        Ok((e, p)) => if is_at(src, p, TokenKind::Swizzle) {
            match swizzle_at(src, p) {
                Some(ls) => Ok((SExpr::Swizzle { expr: Box::new(e), lanes: ls }, p + 1)),
                None => Err(error_at(src, p)),
            }
        } else {
            Ok((e, p))
        },
    }
}

/// Operand := NUMBER | call | reference | vector | "(" Expression ")"
pub open spec fn p_operand(src: Source, pos: int) -> Result<(SExpr, int), ParseError>
    decreases src.toks.len() - pos, 3nat,
{
    if is_at(src, pos, TokenKind::Number) {
        Ok((SExpr::Number(text_at(src, pos)), pos + 1))
    } else if is_at(src, pos, TokenKind::Ident) {
        if is_at(src, pos + 1, TokenKind::LParen) {
            p_args(src, text_at(src, pos), pos + 2, Seq::empty())
        } else {
            Ok((SExpr::Reference(text_at(src, pos)), pos + 1))
        }
    } else if is_at(src, pos, TokenKind::LAngle) {
        p_vector(src, pos + 1, Seq::empty())
    } else if is_at(src, pos, TokenKind::LParen) {
        match p_expr(src, pos + 1) {
            Err(e) => Err(e),
            Ok((e, p)) => if is_at(src, p, TokenKind::RParen) {
                Ok((e, p + 1))
            } else {
                Err(error_at(src, p))
            },
        }
    } else {
        Err(error_at(src, pos))
    }
}

/// The arguments of a call from `pos` on, after `acc`, up to the closing parenthesis.
pub open spec fn p_args(src: Source, name: Seq<char>, pos: int, acc: Seq<SExpr>) -> Result<(SExpr, int), ParseError>
    decreases src.toks.len() - pos, 8nat,
{
    if acc.len() == 0 && is_at(src, pos, TokenKind::RParen) {
        Ok((SExpr::Call { name, args: acc }, pos + 1))
    } else {
        match p_expr(src, pos) {
            Err(e) => Err(e),
            Ok((e, p)) => if !progress(src, pos, p) {
                Err(error_at(src, p))
            } else if is_at(src, p, TokenKind::Comma) {
                p_args(src, name, p + 1, acc.push(e))
            } else if is_at(src, p, TokenKind::RParen) {
                Ok((SExpr::Call { name, args: acc.push(e) }, p + 1))
            } else {
                Err(error_at(src, p))
            },
        }
    }
}

/// The elements of a vector literal from `pos` on, after `acc`, up to `>`.
pub open spec fn p_vector(src: Source, pos: int, acc: Seq<SExpr>) -> Result<(SExpr, int), ParseError>
    decreases src.toks.len() - pos, 8nat,
{
    match p_expr(src, pos) {
        Err(e) => Err(e),
        Ok((e, p)) => if !progress(src, pos, p) {
            Err(error_at(src, p))
        } else if is_at(src, p, TokenKind::Comma) {
            p_vector(src, p + 1, acc.push(e))
        } else if is_at(src, p, TokenKind::RAngle) {
            Ok((SExpr::Vector(acc.push(e)), p + 1))
        } else {
            Err(error_at(src, p))
        },
    }
}

/// Assignment := "let" ID "=" Expression ";"   (the `let` stands at `pos`)
pub open spec fn p_assignment(src: Source, pos: int) -> Result<(SAssignment, int), ParseError> {
    if !is_at(src, pos + 1, TokenKind::Ident) {
        Err(error_at(src, pos + 1))
    } else if !is_at(src, pos + 2, TokenKind::Assign) {
        Err(error_at(src, pos + 2))
    } else {
        match p_expr(src, pos + 3) {
            Err(e) => Err(e),
            Ok((e, p)) => if is_at(src, p, TokenKind::Semicolon) {
                Ok((SAssignment { name: text_at(src, pos + 1), expr: e }, p + 1))
            } else {
                Err(error_at(src, p))
            },
        }
    }
}

/// Return := "return" Expression ";"   (the `return` stands at `pos`)
pub open spec fn p_return(src: Source, pos: int) -> Result<(SExpr, int), ParseError> {
    match p_expr(src, pos + 1) {
        Err(e) => Err(e),
        Ok((e, p)) => if is_at(src, p, TokenKind::Semicolon) {
            Ok((e, p + 1))
        } else {
            Err(error_at(src, p))
        },
    }
}

pub open spec fn p_type(src: Source, pos: int) -> Result<(DataType, int), ParseError> {
    if is_at(src, pos, TokenKind::Ident) {
        match data_type_of(bytes_at(src, pos)) {
            Some(ty) => Ok((ty, pos + 1)),
            None => Err(error_at(src, pos)),
        }
    } else {
        Err(error_at(src, pos))
    }
}

/// Param ("," Param)*  from `pos` on, after `acc`.
pub open spec fn p_params(src: Source, pos: int, acc: Seq<SParameter>) -> Result<(Seq<SParameter>, int), ParseError>
    decreases src.toks.len() - pos,
{
    if !is_at(src, pos, TokenKind::Ident) {
        Err(error_at(src, pos))
    } else if !is_at(src, pos + 1, TokenKind::Colon) {
        Err(error_at(src, pos + 1))
    } else {
        match p_type(src, pos + 2) {
            Err(e) => Err(e),
            Ok((ty, p)) => {
                let acc2 = acc.push(SParameter { name: text_at(src, pos), ty });
                if is_at(src, p, TokenKind::Comma) {
                    p_params(src, pos + 4, acc2)
                } else {
                    Ok((acc2, p))
                }
            },
        }
    }
}

/// The statements of a function body from `pos` on, up to and past `}`.
pub open spec fn p_body(src: Source, pos: int, assigns: Seq<SAssignment>, ret: Option<SExpr>) -> Result<
    (SFunctionBody, int),
    ParseError,
>
    decreases src.toks.len() - pos,
{
    if is_at(src, pos, TokenKind::Let) {
        match p_assignment(src, pos) {
            Err(e) => Err(e),
            Ok((a, p)) => if progress(src, pos, p) {
                p_body(src, p, assigns.push(a), ret)
            } else {
                Err(error_at(src, p))
            },
        }
    } else if is_at(src, pos, TokenKind::Return) {
        match p_return(src, pos) {
            Err(e) => Err(e),
            Ok((e, p)) => if progress(src, pos, p) {
                p_body(src, p, assigns, Some(e))
            } else {
                Err(error_at(src, p))
            },
        }
    } else if is_at(src, pos, TokenKind::RBrace) {
        match ret {
            Some(r) => Ok((SFunctionBody { assignments: assigns, return_expr: r }, pos + 1)),
            None => Err(ParseError::Semantic(SemanticError::MissingReturnStatement)),
        }
    } else {
        Err(error_at(src, pos))
    }
}

/// FunctionDef := "def" ID "(" params ")" "->" Type "{" body "}"   (the `def` stands at `pos`)
pub open spec fn p_function(src: Source, pos: int) -> Result<(SFunctionDef, int), ParseError> {
    if !is_at(src, pos + 1, TokenKind::Ident) {
        Err(error_at(src, pos + 1))
    } else if !is_at(src, pos + 2, TokenKind::LParen) {
        Err(error_at(src, pos + 2))
    } else {
        let params = if is_at(src, pos + 3, TokenKind::RParen) {
            Ok((Seq::<SParameter>::empty(), pos + 3))
        } else {
            p_params(src, pos + 3, Seq::empty())
        };
        match params {
            Err(e) => Err(e),
            Ok((ps, p)) => if !is_at(src, p, TokenKind::RParen) {
                Err(error_at(src, p))
            } else if !is_at(src, p + 1, TokenKind::Arrow) {
                Err(error_at(src, p + 1))
            } else {
                match p_type(src, p + 2) {
                    Err(e) => Err(e),
                    Ok((ty, q)) => if !is_at(src, q, TokenKind::LBrace) {
                        Err(error_at(src, q))
                    } else {
                        match p_body(src, q + 1, Seq::empty(), None) {
                            Err(e) => Err(e),
                            Ok((body, r)) => Ok((
                                SFunctionDef { name: text_at(src, pos + 1), params: ps, return_type: ty, body },
                                r,
                            )),
                        }
                    },
                }
            },
        }
    }
}

/// The statements of the program from `pos` on, after those already read.
pub open spec fn p_program(
    src: Source,
    pos: int,
    funcs: Seq<SFunctionDef>,
    assigns: Seq<SAssignment>,
    ret: Option<SExpr>,
) -> Result<SProgram, ParseError>
    decreases src.toks.len() - pos,
{
    if pos < 0 || pos >= src.toks.len() {
        match ret {
            Some(r) => Ok(SProgram { functions: funcs, assignments: assigns, return_expr: r }),
            None => Err(ParseError::Semantic(SemanticError::MissingReturnStatement)),
        }
    } else if is_at(src, pos, TokenKind::Def) {
        match p_function(src, pos) {
            Err(e) => Err(e),
            Ok((f, p)) => if progress(src, pos, p) {
                p_program(src, p, funcs.push(f), assigns, ret)
            } else {
                Err(error_at(src, p))
            },
        }
    } else if is_at(src, pos, TokenKind::Let) {
        match p_assignment(src, pos) {
            Err(e) => Err(e),
            Ok((a, p)) => if progress(src, pos, p) {
                p_program(src, p, funcs, assigns.push(a), ret)
            } else {
                Err(error_at(src, p))
            },
        }
    } else if is_at(src, pos, TokenKind::Return) {
        match p_return(src, pos) {
            Err(e) => Err(e),
            Ok((e, p)) => if progress(src, pos, p) {
                p_program(src, p, funcs, assigns, Some(e))
            } else {
                Err(error_at(src, p))
            },
        }
    } else {
        Err(error_at(src, pos))
    }
}

/// What a text means: a program, or the first error met in it.
pub open spec fn spec_parse(s: Seq<char>) -> Result<SProgram, ParseError> {
    if !is_ascii_chars(s) {
        Err(ParseError::NonAscii)
    } else {
        let b = ascii_bytes(s);
        match lex_from(b, 0) {
            Err(e) => Err(e),
            Ok(t) => p_program(Source { chars: s, bytes: b, toks: t }, 0, Seq::empty(), Seq::empty(), None),
        }
    }
}


// ── Executable parser ────────────────────────────────────────────────────────

/// The parse result `r` agrees with the grammar's result `s`.
pub open spec fn outcome<T: View>(r: Result<(T, usize), ParseError>, s: Result<(T::V, int), ParseError>) -> bool {
    match r {
        Ok((x, p)) => s == Ok::<(T::V, int), ParseError>((x@, p as int)),
        Err(e) => s == Err::<(T::V, int), ParseError>(e),
    }
}

pub open spec fn opt_view(o: Option<Expression>) -> Option<SExpr> {
    match o {
        Some(e) => Some(e@),
        None => None,
    }
}

/// A recursive-descent parser over the tokens of one text.
pub struct SdfParser<'a> {
    src: &'a str,
    bytes: &'a [u8],
    tokens: Vec<Token>,
}

/// Lanes of a swizzle read left to right: a prefix of valid lanes reads as
/// the same prefix of the whole.
proof fn lemma_lanes_prefix(w: Seq<u8>, k: int)
    requires
        0 <= k <= w.len(),
    ensures
        lanes_of(w) matches Some(ls) ==> ls.len() == w.len() && lanes_of(w.take(k)) == Some(ls.take(k)),
        lanes_of(w.take(k)) is None ==> lanes_of(w) is None,
    decreases w.len(),
{
    if w.len() > 0 {
        if k == w.len() {
            assert(w.take(k) =~= w);
            lemma_lanes_prefix(w.drop_last(), k - 1);
            if let Some(ls) = lanes_of(w) {
                assert(ls.take(k) =~= ls);
            }
        } else {
            lemma_lanes_prefix(w.drop_last(), k);
            assert(w.drop_last().take(k) =~= w.take(k));
            if let Some(ls) = lanes_of(w) {
                let ls0 = lanes_of(w.drop_last()).unwrap();
                assert(ls0.take(k) =~= ls.take(k));
            }
        }
    } else {
        assert(w.take(k) =~= w);
    }
}

fn lane_of_exec(c: u8) -> (r: Option<SwizzleIndex>)
    ensures
        r == lane_of(c),
{
    if c == 120u8 || c == 114u8 || c == 48u8 {
        Some(SwizzleIndex::First)
    } else if c == 121u8 || c == 103u8 || c == 49u8 {
        Some(SwizzleIndex::Second)
    } else if c == 122u8 || c == 98u8 || c == 50u8 {
        Some(SwizzleIndex::Third)
    } else if c == 119u8 || c == 97u8 || c == 51u8 {
        Some(SwizzleIndex::Fourth)
    } else {
        None
    }
}

/// Whether `b[i..j]` is the word `w`.
fn word_is(b: &[u8], i: usize, j: usize, w: &[u8]) -> (r: bool)
    requires
        i <= j <= b@.len(),
    ensures
        r == (b@.subrange(i as int, j as int) == w@),
{
    if j - i != w.len() {
        return false;
    }
    let mut k: usize = 0;
    while k < w.len()
        invariant
            i <= j <= b@.len(),
            j - i == w@.len(),
            k <= w@.len(),
            forall|q: int| 0 <= q < k ==> b@[i + q] == w@[q],
        decreases w@.len() - k,
    {
        if b[i + k] != w[k] {
            assert(b@.subrange(i as int, j as int)[k as int] != w@[k as int]);
            return false;
        }
        k = k + 1;
    }
    assert(b@.subrange(i as int, j as int) =~= w@);
    true
}

impl<'a> SdfParser<'a> {
    pub closed spec fn source(&self) -> Source {
        Source { chars: self.src@, bytes: self.bytes@, toks: self.tokens@ }
    }

    pub closed spec fn wf(&self) -> bool {
        &&& is_ascii_chars(self.src@)
        &&& self.bytes@ == ascii_bytes(self.src@)
        &&& tokens_in_bounds(self.tokens@, self.src@.len() as int)
        &&& self.tokens@.len() <= usize::MAX
    }

    fn kind_is(&self, pos: usize, k: TokenKind) -> (r: bool)
        ensures
            r == is_at(self.source(), pos as int, k),
    {
        pos < self.tokens.len() && self.tokens[pos].kind == k
    }

    fn error_at(&self, pos: usize) -> (e: ParseError)
        requires
            self.wf(),
        ensures
            e == error_at(self.source(), pos as int),
    {
        if pos < self.tokens.len() {
            ParseError::Syntax(self.tokens[pos].start)
        } else {
            ParseError::Syntax(self.bytes.len())
        }
    }

    fn text(&self, pos: usize) -> (r: String)
        requires
            self.wf(),
            pos < self.tokens@.len(),
        ensures
            r@ == text_at(self.source(), pos as int),
    {
        let tok = self.tokens[pos];
        assert(tok.start < tok.end && tok.end <= self.src@.len()) by {
            assert(self.tokens@[pos as int].start < self.tokens@[pos as int].end);
        }
        self.src.substring_ascii(tok.start, tok.end).to_owned()
    }

    fn lanes(&self, pos: usize) -> (r: Option<ArrayVec<SwizzleIndex, 4>>)
        requires
            self.wf(),
            pos < self.tokens@.len(),
        ensures
            match r {
                Some(v) => swizzle_at(self.source(), pos as int) == Some(swizzle_lanes(v)),
                None => swizzle_at(self.source(), pos as int) is None,
            },
    {
        let tok = self.tokens[pos];
        assert(tok.start < tok.end && tok.end <= self.src@.len()) by {
            assert(self.tokens@[pos as int].start < self.tokens@[pos as int].end);
        }
        let ghost w = bytes_at(self.source(), pos as int).drop_first();
        assert(w =~= self.bytes@.subrange(tok.start + 1, tok.end as int));
        let n = tok.end - tok.start - 1;
        if n < 1 || n > 4 {
            proof {
                lemma_lanes_prefix(w, 0);
            }
            return None;
        }
        let mut v = lanes_new();
        let mut k: usize = 0;
        while k < n
            invariant
                self.wf(),
                pos < self.tokens@.len(),
                tok == self.tokens@[pos as int],
                swizzle_lanes(v).len() == k,
                tok.start < tok.end <= self.bytes@.len(),
                n == w.len(),
                1 <= n <= 4,
                w == self.bytes@.subrange(tok.start + 1, tok.end as int),
                k <= n,
                lanes_of(w.take(k as int)) == Some(swizzle_lanes(v)),
            decreases n - k,
        {
            let c = self.bytes[tok.start + 1 + k];
            assert(c == w[k as int]);
            assert(w.take(k + 1).drop_last() =~= w.take(k as int));
            match lane_of_exec(c) {
                Some(l) => {
                    lanes_push(&mut v, l);
                    proof {
                        lemma_lanes_prefix(w.take(k + 1), 0);
                    }
                },
                None => {
                    proof {
                        assert(w.take(k + 1).last() == c);
                        assert(lanes_of(w.take(k + 1)) is None);
                        lemma_lanes_prefix(w, k + 1);
                        assert(lanes_of(w) is None);
                        assert(w == bytes_at(self.source(), pos as int).drop_first());
                        assert(swizzle_at(self.source(), pos as int) is None);
                    }
                    return None;
                },
            }
            k = k + 1;
        }
        assert(w.take(n as int) =~= w);
        Some(v)
    }

    /// Expression := Term (("+" | "-") Term)*
    fn parse_expr(&self, pos: usize) -> (r: Result<(Expression, usize), ParseError>)
        requires
            self.wf(),
            pos <= self.tokens@.len(),
        ensures
            outcome(r, p_expr(self.source(), pos as int)),
        decreases self.tokens@.len() - pos, 7nat,
    {
        let (mut left, mut p) = match self.parse_term(pos) {
            Ok(x) => x,
            Err(e) => return Err(e),
        };
        if !(pos < p && p <= self.tokens.len()) {
            return Err(self.error_at(p));
        }
        while self.kind_is(p, TokenKind::Plus) || self.kind_is(p, TokenKind::Minus)
            invariant
                self.wf(),
                pos < p <= self.tokens@.len(),
                p_expr_rest(self.source(), left@, p as int) == p_expr(self.source(), pos as int),
            decreases self.tokens@.len() - p,
        {
            let op = if self.kind_is(p, TokenKind::Plus) {
                BinaryOp::Add
            } else {
                BinaryOp::Sub
            };
            assert(p < self.tokens@.len());
            let (right, q) = match self.parse_term(p + 1) {
                Ok(x) => x,
                Err(e) => return Err(e),
            };
            if !(p < q && q <= self.tokens.len()) {
                return Err(self.error_at(q));
            }
            left = Expression::Binary { op, left: Box::new(left), right: Box::new(right) };
            p = q;
        }
        Ok((left, p))
    }

    /// Term := Factor (("*" | "/") Factor)*
    fn parse_term(&self, pos: usize) -> (r: Result<(Expression, usize), ParseError>)
        requires
            self.wf(),
            pos <= self.tokens@.len(),
        ensures
            outcome(r, p_term(self.source(), pos as int)),
        decreases self.tokens@.len() - pos, 6nat,
    {
        let (mut left, mut p) = match self.parse_factor(pos) {
            Ok(x) => x,
            Err(e) => return Err(e),
        };
        if !(pos < p && p <= self.tokens.len()) {
            return Err(self.error_at(p));
        }
        while self.kind_is(p, TokenKind::Star) || self.kind_is(p, TokenKind::Slash)
            invariant
                self.wf(),
                pos < p <= self.tokens@.len(),
                p_term_rest(self.source(), left@, p as int) == p_term(self.source(), pos as int),
            decreases self.tokens@.len() - p,
        {
            let op = if self.kind_is(p, TokenKind::Star) {
                BinaryOp::Mul
            } else {
                BinaryOp::Div
            };
            assert(p < self.tokens@.len());
            let (right, q) = match self.parse_factor(p + 1) {
                Ok(x) => x,
                Err(e) => return Err(e),
            };
            if !(p < q && q <= self.tokens.len()) {
                return Err(self.error_at(q));
            }
            left = Expression::Binary { op, left: Box::new(left), right: Box::new(right) };
            p = q;
        }
        Ok((left, p))
    }

    /// Factor := "-"? Primary
    fn parse_factor(&self, pos: usize) -> (r: Result<(Expression, usize), ParseError>)
        requires
            self.wf(),
            pos <= self.tokens@.len(),
        ensures
            outcome(r, p_factor(self.source(), pos as int)),
        decreases self.tokens@.len() - pos, 5nat,
    {
        if self.kind_is(pos, TokenKind::Minus) {
            match self.parse_primary(pos + 1) {
                Ok((e, p)) => Ok((Expression::Unary { op: UnaryOp::Neg, expr: Box::new(e) }, p)),
                Err(e) => Err(e),
            }
        } else {
            self.parse_primary(pos)
        }
    }

    /// Primary := Operand Swizzle?
    fn parse_primary(&self, pos: usize) -> (r: Result<(Expression, usize), ParseError>)
        requires
            self.wf(),
            pos <= self.tokens@.len(),
        ensures
            outcome(r, p_primary(self.source(), pos as int)),
        decreases self.tokens@.len() - pos, 4nat,
    {
        let (e, p) = match self.parse_operand(pos) {
            Ok(x) => x,
            Err(e) => return Err(e),
        };
        if self.kind_is(p, TokenKind::Swizzle) {
            match self.lanes(p) {
                Some(components) => Ok((Expression::Swizzle { expr: Box::new(e), components }, p + 1)),
                None => Err(self.error_at(p)),
            }
        } else {
            Ok((e, p))
        }
    }

    fn parse_operand(&self, pos: usize) -> (r: Result<(Expression, usize), ParseError>)
        requires
            self.wf(),
            pos <= self.tokens@.len(),
        ensures
            outcome(r, p_operand(self.source(), pos as int)),
        decreases self.tokens@.len() - pos, 3nat,
    {
        if self.kind_is(pos, TokenKind::Number) {
            Ok((Expression::Number(self.text(pos)), pos + 1))
        } else if self.kind_is(pos, TokenKind::Ident) {
            if self.kind_is(pos + 1, TokenKind::LParen) {
                self.parse_call(pos)
            } else {
                Ok((Expression::Reference(self.text(pos)), pos + 1))
            }
        } else if self.kind_is(pos, TokenKind::LAngle) {
            self.parse_vector(pos)
        } else if self.kind_is(pos, TokenKind::LParen) {
            match self.parse_expr(pos + 1) {
                Ok((e, p)) => if self.kind_is(p, TokenKind::RParen) {
                    Ok((e, p + 1))
                } else {
                    Err(self.error_at(p))
                },
                Err(e) => Err(e),
            }
        } else {
            Err(self.error_at(pos))
        }
    }

    /// A call: the name stands at `pos`, the opening parenthesis after it.
    fn parse_call(&self, pos: usize) -> (r: Result<(Expression, usize), ParseError>)
        requires
            self.wf(),
            is_at(self.source(), pos as int, TokenKind::Ident),
            is_at(self.source(), pos + 1, TokenKind::LParen),
        ensures
            outcome(r, p_args(self.source(), text_at(self.source(), pos as int), pos + 2, Seq::empty())),
        decreases self.tokens@.len() - pos, 2nat,
    {
        let name = self.text(pos);
        let mut args: Vec<Expression> = Vec::new();
        let mut q = pos + 2;
        loop
            invariant
                self.wf(),
                pos + 2 <= q <= self.tokens@.len(),
                name@ == text_at(self.source(), pos as int),
                p_args(self.source(), name@, q as int, exprs_view(args@)) == p_args(
                    self.source(),
                    name@,
                    pos + 2,
                    Seq::empty(),
                ),
            decreases self.tokens@.len() - q,
        {
            if args.len() == 0 && self.kind_is(q, TokenKind::RParen) {
                return Ok((Expression::Call { name, args }, q + 1));
            }
            let (e, p) = match self.parse_expr(q) {
                Ok(x) => x,
                Err(err) => return Err(err),
            };
            if !(q < p && p <= self.tokens.len()) {
                return Err(self.error_at(p));
            }
            proof {
                lemma_exprs_view_push(args@, e);
            }
            if self.kind_is(p, TokenKind::Comma) {
                args.push(e);
                q = p + 1;
            } else if self.kind_is(p, TokenKind::RParen) {
                args.push(e);
                return Ok((Expression::Call { name, args }, p + 1));
            } else {
                return Err(self.error_at(p));
            }
        }
    }

    /// A vector literal: the `<` stands at `pos`.
    fn parse_vector(&self, pos: usize) -> (r: Result<(Expression, usize), ParseError>)
        requires
            self.wf(),
            is_at(self.source(), pos as int, TokenKind::LAngle),
        ensures
            outcome(r, p_vector(self.source(), pos + 1, Seq::empty())),
        decreases self.tokens@.len() - pos, 2nat,
    {
        let mut elems: Vec<Expression> = Vec::new();
        let mut q = pos + 1;
        loop
            invariant
                self.wf(),
                pos + 1 <= q <= self.tokens@.len(),
                p_vector(self.source(), q as int, exprs_view(elems@)) == p_vector(
                    self.source(),
                    pos + 1,
                    Seq::empty(),
                ),
            decreases self.tokens@.len() - q,
        {
            let (e, p) = match self.parse_expr(q) {
                Ok(x) => x,
                Err(err) => return Err(err),
            };
            if !(q < p && p <= self.tokens.len()) {
                return Err(self.error_at(p));
            }
            proof {
                lemma_exprs_view_push(elems@, e);
            }
            if self.kind_is(p, TokenKind::Comma) {
                elems.push(e);
                q = p + 1;
            } else if self.kind_is(p, TokenKind::RAngle) {
                elems.push(e);
                return Ok((Expression::Vector(elems), p + 1));
            } else {
                return Err(self.error_at(p));
            }
        }
    }

    /// Assignment := "let" ID "=" Expression ";"   (the `let` stands at `pos`)
    fn parse_assignment(&self, pos: usize) -> (r: Result<(Assignment, usize), ParseError>)
        requires
            self.wf(),
            pos < self.tokens@.len(),
        ensures
            outcome(r, p_assignment(self.source(), pos as int)),
    {
        if !self.kind_is(pos + 1, TokenKind::Ident) {
            return Err(self.error_at(pos + 1));
        }
        if !self.kind_is(pos + 2, TokenKind::Assign) {
            return Err(self.error_at(pos + 2));
        }
        let name = self.text(pos + 1);
        match self.parse_expr(pos + 3) {
            Ok((expr, p)) => if self.kind_is(p, TokenKind::Semicolon) {
                Ok((Assignment { name, expr }, p + 1))
            } else {
                Err(self.error_at(p))
            },
            Err(e) => Err(e),
        }
    }

    /// Return := "return" Expression ";"   (the `return` stands at `pos`)
    fn parse_return(&self, pos: usize) -> (r: Result<(Expression, usize), ParseError>)
        requires
            self.wf(),
            pos < self.tokens@.len(),
        ensures
            outcome(r, p_return(self.source(), pos as int)),
    {
        match self.parse_expr(pos + 1) {
            Ok((e, p)) => if self.kind_is(p, TokenKind::Semicolon) {
                Ok((e, p + 1))
            } else {
                Err(self.error_at(p))
            },
            Err(e) => Err(e),
        }
    }

    fn parse_type(&self, pos: usize) -> (r: Result<(DataType, usize), ParseError>)
        requires
            self.wf(),
        ensures
            match r {
                Ok((ty, p)) => p_type(self.source(), pos as int) == Ok::<(DataType, int), ParseError>((ty, p as int)),
                Err(e) => p_type(self.source(), pos as int) == Err::<(DataType, int), ParseError>(e),
            },
    {
        if !self.kind_is(pos, TokenKind::Ident) {
            return Err(self.error_at(pos));
        }
        let tok = self.tokens[pos];
        assert(tok.start < tok.end && tok.end <= self.bytes@.len()) by {
            assert(self.tokens@[pos as int].start < self.tokens@[pos as int].end);
        }
        let (b, i, j) = (self.bytes, tok.start, tok.end);
        let ty = if word_is(b, i, j, &[102u8, 108u8, 111u8, 97u8, 116u8]) {
            DataType::Float
        } else if word_is(b, i, j, &[118u8, 101u8, 99u8, 49u8]) {
            DataType::Vec1
        } else if word_is(b, i, j, &[118u8, 101u8, 99u8, 50u8]) {
            DataType::Vec2
        } else if word_is(b, i, j, &[118u8, 101u8, 99u8, 51u8]) {
            DataType::Vec3
        } else if word_is(b, i, j, &[118u8, 101u8, 99u8, 52u8]) {
            DataType::Vec4
        } else if word_is(b, i, j, &[115u8, 100u8, 102u8]) {
            DataType::Sdf
        } else {
            return Err(self.error_at(pos));
        };
        Ok((ty, pos + 1))
    }

    /// Param ("," Param)*  from `pos` on.
    fn parse_params(&self, pos: usize) -> (r: Result<(Vec<Parameter>, usize), ParseError>)
        requires
            self.wf(),
            pos <= self.tokens@.len(),
        ensures
            match r {
                Ok((ps, p)) => p_params(self.source(), pos as int, Seq::empty()) == Ok::<
                    (Seq<SParameter>, int),
                    ParseError,
                >((ps@.map_values(|x: Parameter| x@), p as int)),
                Err(e) => p_params(self.source(), pos as int, Seq::empty()) == Err::<
                    (Seq<SParameter>, int),
                    ParseError,
                >(e),
            },
    {
        let mut ps: Vec<Parameter> = Vec::new();
        let mut q = pos;
        assert(ps@.map_values(|x: Parameter| x@) =~= Seq::<SParameter>::empty());
        loop
            invariant
                self.wf(),
                pos <= q <= self.tokens@.len(),
                p_params(self.source(), q as int, ps@.map_values(|x: Parameter| x@)) == p_params(
                    self.source(),
                    pos as int,
                    Seq::empty(),
                ),
            decreases self.tokens@.len() - q,
        {
            if !self.kind_is(q, TokenKind::Ident) {
                return Err(self.error_at(q));
            }
            if !self.kind_is(q + 1, TokenKind::Colon) {
                return Err(self.error_at(q + 1));
            }
            let (ty, p) = match self.parse_type(q + 2) {
                Ok(x) => x,
                Err(e) => return Err(e),
            };
            let name = self.text(q);
            let ghost old_ps = ps@;
            ps.push(Parameter { name, ty });
            assert(ps@.map_values(|x: Parameter| x@) =~= old_ps.map_values(|x: Parameter| x@).push(
                SParameter { name: text_at(self.source(), q as int), ty },
            ));
            if self.kind_is(p, TokenKind::Comma) {
                q = q + 4;
            } else {
                return Ok((ps, p));
            }
        }
    }

    /// The statements of a function body from `pos` on, up to and past `}`.
    fn parse_body(&self, pos: usize) -> (r: Result<(FunctionBody, usize), ParseError>)
        requires
            self.wf(),
            pos <= self.tokens@.len(),
        ensures
            outcome(r, p_body(self.source(), pos as int, Seq::empty(), None)),
    {
        let mut assignments: Vec<Assignment> = Vec::new();
        let mut ret: Option<Expression> = None;
        let mut q = pos;
        assert(assignments@.map_values(|a: Assignment| a@) =~= Seq::<SAssignment>::empty());
        loop
            invariant
                self.wf(),
                pos <= q <= self.tokens@.len(),
                p_body(self.source(), q as int, assignments@.map_values(|a: Assignment| a@), opt_view(ret))
                    == p_body(self.source(), pos as int, Seq::empty(), None),
            decreases self.tokens@.len() - q,
        {
            if self.kind_is(q, TokenKind::Let) {
                let (a, p) = match self.parse_assignment(q) {
                    Ok(x) => x,
                    Err(e) => return Err(e),
                };
                if !(q < p && p <= self.tokens.len()) {
                    return Err(self.error_at(p));
                }
                let ghost old_as = assignments@;
                assignments.push(a);
                assert(assignments@.map_values(|a: Assignment| a@) =~= old_as.map_values(|a: Assignment| a@).push(
                    a@,
                ));
                q = p;
            } else if self.kind_is(q, TokenKind::Return) {
                let (e, p) = match self.parse_return(q) {
                    Ok(x) => x,
                    Err(err) => return Err(err),
                };
                if !(q < p && p <= self.tokens.len()) {
                    return Err(self.error_at(p));
                }
                ret = Some(e);
                q = p;
            } else if self.kind_is(q, TokenKind::RBrace) {
                return match ret {
                    Some(return_expr) => Ok((FunctionBody { assignments, return_expr }, q + 1)),
                    None => Err(ParseError::Semantic(SemanticError::MissingReturnStatement)),
                };
            } else {
                return Err(self.error_at(q));
            }
        }
    }

    /// FunctionDef := "def" ID "(" params ")" "->" Type "{" body "}"   (the `def` stands at `pos`)
    fn parse_function(&self, pos: usize) -> (r: Result<(FunctionDef, usize), ParseError>)
        requires
            self.wf(),
            pos < self.tokens@.len(),
        ensures
            outcome(r, p_function(self.source(), pos as int)),
    {
        if !self.kind_is(pos + 1, TokenKind::Ident) {
            return Err(self.error_at(pos + 1));
        }
        if !self.kind_is(pos + 2, TokenKind::LParen) {
            return Err(self.error_at(pos + 2));
        }
        let (params, p) = if self.kind_is(pos + 3, TokenKind::RParen) {
            (Vec::new(), pos + 3)
        } else {
            match self.parse_params(pos + 3) {
                Ok(x) => x,
                Err(e) => return Err(e),
            }
        };
        assert(params@.len() == 0 ==> params@.map_values(|x: Parameter| x@) =~= Seq::<SParameter>::empty());
        if !self.kind_is(p, TokenKind::RParen) {
            return Err(self.error_at(p));
        }
        if !self.kind_is(p + 1, TokenKind::Arrow) {
            return Err(self.error_at(p + 1));
        }
        let (return_type, q) = match self.parse_type(p + 2) {
            Ok(x) => x,
            Err(e) => return Err(e),
        };
        if !self.kind_is(q, TokenKind::LBrace) {
            return Err(self.error_at(q));
        }
        let (body, r) = match self.parse_body(q + 1) {
            Ok(x) => x,
            Err(e) => return Err(e),
        };
        let name = self.text(pos + 1);
        Ok((FunctionDef { name, params, return_type, body }, r))
    }

    /// The whole program.
    fn parse_program(&self) -> (r: Result<Program, ParseError>)
        requires
            self.wf(),
        ensures
            match r {
                Ok(p) => p_program(self.source(), 0, Seq::empty(), Seq::empty(), None) == Ok::<
                    SProgram,
                    ParseError,
                >(p@),
                Err(e) => p_program(self.source(), 0, Seq::empty(), Seq::empty(), None) == Err::<
                    SProgram,
                    ParseError,
                >(e),
            },
    {
        let mut functions: Vec<FunctionDef> = Vec::new();
        let mut assignments: Vec<Assignment> = Vec::new();
        let mut ret: Option<Expression> = None;
        let mut q: usize = 0;
        assert(assignments@.map_values(|a: Assignment| a@) =~= Seq::<SAssignment>::empty());
        assert(functions@.map_values(|f: FunctionDef| f@) =~= Seq::<SFunctionDef>::empty());
        loop
            invariant
                self.wf(),
                q <= self.tokens@.len(),
                p_program(
                    self.source(),
                    q as int,
                    functions@.map_values(|f: FunctionDef| f@),
                    assignments@.map_values(|a: Assignment| a@),
                    opt_view(ret),
                ) == p_program(self.source(), 0, Seq::empty(), Seq::empty(), None),
            decreases self.tokens@.len() - q,
        {
            if q >= self.tokens.len() {
                return match ret {
                    Some(return_expr) => Ok(Program { functions, assignments, return_expr }),
                    None => Err(ParseError::Semantic(SemanticError::MissingReturnStatement)),
                };
            }
            if self.kind_is(q, TokenKind::Def) {
                let (f, p) = match self.parse_function(q) {
                    Ok(x) => x,
                    Err(e) => return Err(e),
                };
                if !(q < p && p <= self.tokens.len()) {
                    return Err(self.error_at(p));
                }
                let ghost old_fs = functions@;
                functions.push(f);
                assert(functions@.map_values(|f: FunctionDef| f@) =~= old_fs.map_values(|f: FunctionDef| f@).push(
                    f@,
                ));
                q = p;
            } else if self.kind_is(q, TokenKind::Let) {
                let (a, p) = match self.parse_assignment(q) {
                    Ok(x) => x,
                    Err(e) => return Err(e),
                };
                if !(q < p && p <= self.tokens.len()) {
                    return Err(self.error_at(p));
                }
                let ghost old_as = assignments@;
                assignments.push(a);
                assert(assignments@.map_values(|a: Assignment| a@) =~= old_as.map_values(|a: Assignment| a@).push(
                    a@,
                ));
                q = p;
            } else if self.kind_is(q, TokenKind::Return) {
                let (e, p) = match self.parse_return(q) {
                    Ok(x) => x,
                    Err(err) => return Err(err),
                };
                if !(q < p && p <= self.tokens.len()) {
                    return Err(self.error_at(p));
                }
                ret = Some(e);
                q = p;
            } else {
                return Err(self.error_at(q));
            }
        }
    }
}


/// Reads a program from its text. The result is what `spec_parse` says the
/// text means: a program, or the first error in it. Every number literal of
/// a program read is a decimal numeral.
pub fn parse(src: &str) -> (r: Result<Program, ParseError>)
    ensures
        match r {
            Ok(p) => spec_parse(src@) == Ok::<SProgram, ParseError>(p@) && crate::sdf::laws::program_numerals(p@),
            Err(e) => spec_parse(src@) == Err::<SProgram, ParseError>(e),
        },
{
    if !src.is_ascii() {
        return Err(ParseError::NonAscii);
    }
    let bytes = src.as_bytes();
    proof {
        vstd::string::is_ascii_spec_bytes(src);
        assert(bytes@ =~= ascii_bytes(src@));
    }
    let tokens = match tokenize(bytes) {
        Ok(ts) => ts,
        Err(e) => return Err(e),
    };
    let _len = bytes.len();
    proof {
        lemma_lex_in_bounds(bytes@, 0);
    }
    let _count = tokens.len();
    let parser = SdfParser { src, bytes, tokens };
    let r = parser.parse_program();
    proof {
        if r is Ok {
            crate::sdf::laws::law_parsed_numerals(src@);
        }
    }
    r
}

} // verus!
