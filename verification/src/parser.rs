//! The grammar: lexical analysis of a line of text, and the
//! precedence-climbing builder that turns the token stream into a tree that
//! honours operator precedence and associativity.
//!
//! ```text
//! calculation := assign | expr
//! assign      := ident "=" expr
//! expr        := term (( "+" | "-" | "*" | "/" | "^" ) term)*
//! term        := number | ident | const | function | "(" expr ")"
//! function    := ident "(" expr ")"
//! const       := "pi" | "e"
//! ```
//!
//! A number is one or more decimal digits with an optional fractional part;
//! an identifier is a letter or underscore followed by letters, digits or
//! underscores; whitespace between tokens is insignificant.  The named
//! constants are substituted at parse time.

use vstd::prelude::*;

use vstd::string::StrSliceExecFns;

use crate::ast::{
    op_assoc, op_precedence, spec_assoc, spec_precedence, Assoc, Node, NodeV, Op, Val, ValV,
};

verus! {

/// A lexical token.
pub enum Token {
    /// A decimal literal, as written.
    Num(String),
    /// An identifier: a variable, function or constant name.
    Ident(String),
    Plus,
    Minus,
    Star,
    Slash,
    Caret,
    LParen,
    RParen,
    Equals,
}

/// Mathematical view of a [`Token`].
pub enum TokenV {
    Num(Seq<char>),
    Ident(Seq<char>),
    Plus,
    Minus,
    Star,
    Slash,
    Caret,
    LParen,
    RParen,
    Equals,
}

/// The view of a [`Token`].
pub open spec fn token_view(t: Token) -> TokenV {
    match t {
        Token::Num(s) => TokenV::Num(s@),
        Token::Ident(s) => TokenV::Ident(s@),
        Token::Plus => TokenV::Plus,
        Token::Minus => TokenV::Minus,
        Token::Star => TokenV::Star,
        Token::Slash => TokenV::Slash,
        Token::Caret => TokenV::Caret,
        Token::LParen => TokenV::LParen,
        Token::RParen => TokenV::RParen,
        Token::Equals => TokenV::Equals,
    }
}

impl View for Token {
    type V = TokenV;

    open spec fn view(&self) -> TokenV {
        token_view(*self)
    }
}

/// The views of a sequence of tokens.
pub open spec fn toks_view(ts: Seq<Token>) -> Seq<TokenV> {
    ts.map_values(|t: Token| token_view(t))
}

/// What a line was rejected for.
#[derive(Clone, Copy, PartialEq, Eq, Structural, Debug)]
pub enum ErrorKind {
    /// A character that belongs to no token.
    BadChar,
    /// A token that cannot begin or continue a term.
    BadToken,
    /// The line ended where a term or a closing parenthesis was expected.
    UnexpectedEnd,
    /// A complete expression was followed by more tokens.
    Trailing,
}

/// A syntax error: the only kind of error parsing can raise.  `pos` is a
/// character position for [`ErrorKind::BadChar`] and a token position
/// otherwise.
#[derive(Clone, Copy, PartialEq, Eq, Structural, Debug)]
pub struct ParseError {
    pub kind: ErrorKind,
    pub pos: usize,
}

// ---------------------------------------------------------------------------
// Lexical analysis
// ---------------------------------------------------------------------------

/// Whitespace, insignificant between tokens.
pub open spec fn is_space(c: char) -> bool {
    c == ' ' || c == '\t' || c == '\r' || c == '\n'
}

/// A decimal digit.
pub open spec fn is_digit(c: char) -> bool {
    48 <= c as u32 && c as u32 <= 57
}

/// A character that may begin an identifier.
pub open spec fn is_ident_start(c: char) -> bool {
    (65 <= c as u32 && c as u32 <= 90) || (97 <= c as u32 && c as u32 <= 122) || c == '_'
}

/// A character that may continue an identifier.
pub open spec fn is_ident_char(c: char) -> bool {
    is_ident_start(c) || is_digit(c)
}

fn space(c: char) -> (b: bool)
    ensures
        b == is_space(c),
{
    c == ' ' || c == '\t' || c == '\r' || c == '\n'
}

fn digit(c: char) -> (b: bool)
    ensures
        b == is_digit(c),
{
    let u = c as u32;
    48 <= u && u <= 57
}

fn ident_start(c: char) -> (b: bool)
    ensures
        b == is_ident_start(c),
{
    let u = c as u32;
    (65 <= u && u <= 90) || (97 <= u && u <= 122) || c == '_'
}

fn ident_char(c: char) -> (b: bool)
    ensures
        b == is_ident_char(c),
{
    ident_start(c) || digit(c)
}

/// Where the run of digits beginning at `i` ends.
pub open spec fn digit_run_end(cs: Seq<char>, i: int) -> int
    decreases cs.len() - i,
{
    if i < cs.len() && is_digit(cs[i]) {
        digit_run_end(cs, i + 1)
    } else {
        i
    }
}

/// Where the run of identifier characters beginning at `i` ends.
pub open spec fn ident_run_end(cs: Seq<char>, i: int) -> int
    decreases cs.len() - i,
{
    if i < cs.len() && is_ident_char(cs[i]) {
        ident_run_end(cs, i + 1)
    } else {
        i
    }
}

fn scan_digits(s: &str, n: usize, start: usize) -> (r: usize)
    requires
        n as nat == s@.len(),
        start <= n,
    ensures
        start <= r <= n,
        r as int == digit_run_end(s@, start as int),
{
    let mut j = start;
    while j < n && digit(s.get_char(j))
        invariant
            start <= j <= n,
            n as nat == s@.len(),
            digit_run_end(s@, start as int) == digit_run_end(s@, j as int),
        decreases n - j,
    {
        j = j + 1;
    }
    j
}

fn scan_ident(s: &str, n: usize, start: usize) -> (r: usize)
    requires
        n as nat == s@.len(),
        start <= n,
    ensures
        start <= r <= n,
        r as int == ident_run_end(s@, start as int),
{
    let mut j = start;
    while j < n && ident_char(s.get_char(j))
        invariant
            start <= j <= n,
            n as nat == s@.len(),
            ident_run_end(s@, start as int) == ident_run_end(s@, j as int),
        decreases n - j,
    {
        j = j + 1;
    }
    j
}

/// The token beginning at `i`, which is neither past the end nor whitespace,
/// and the position just after it; `None` when no token starts there.
pub open spec fn spec_head(cs: Seq<char>, i: int) -> Option<(TokenV, int)> {
    let c = cs[i];
    if is_digit(c) {
        let d1 = digit_run_end(cs, i + 1);
        if d1 < cs.len() && cs[d1] == '.' && digit_run_end(cs, d1 + 1) > d1 + 1 {
            let d2 = digit_run_end(cs, d1 + 1);
            Some((TokenV::Num(cs.subrange(i, d2)), d2))
        } else {
            Some((TokenV::Num(cs.subrange(i, d1)), d1))
        }
    } else if is_ident_start(c) {
        let e = ident_run_end(cs, i + 1);
        Some((TokenV::Ident(cs.subrange(i, e)), e))
    } else if c == '+' {
        Some((TokenV::Plus, i + 1))
    } else if c == '-' {
        Some((TokenV::Minus, i + 1))
    } else if c == '*' {
        Some((TokenV::Star, i + 1))
    } else if c == '/' {
        Some((TokenV::Slash, i + 1))
    } else if c == '^' {
        Some((TokenV::Caret, i + 1))
    } else if c == '(' {
        Some((TokenV::LParen, i + 1))
    } else if c == ')' {
        Some((TokenV::RParen, i + 1))
    } else if c == '=' {
        Some((TokenV::Equals, i + 1))
    } else {
        None
    }
}

/// The tokens of `cs` from position `i` on; `None` when a character belongs
/// to no token.
pub open spec fn spec_tokens(cs: Seq<char>, i: int) -> Option<Seq<TokenV>>
    decreases cs.len() - i,
{
    if i >= cs.len() {
        Some(Seq::empty())
    } else if is_space(cs[i]) {
        spec_tokens(cs, i + 1)
    } else {
        match spec_head(cs, i) {
            None => None,
            Some((t, j)) => if i < j <= cs.len() {
                match spec_tokens(cs, j) {
                    Some(rest) => Some(seq![t] + rest),
                    None => None,
                }
            } else {
                None
            },
        }
    }
}

/// Splits a line into tokens; fails exactly on a character that belongs to
/// no token.
pub fn tokenize(s: &str) -> (r: Result<Vec<Token>, ParseError>)
    ensures
        match r {
            Ok(ts) => spec_tokens(s@, 0) == Some(toks_view(ts@)),
            Err(e) => (spec_tokens(s@, 0) is None),
        },
{
    let n = s.unicode_len();
    let mut i: usize = 0;
    let mut out: Vec<Token> = Vec::new();
    while i < n
        invariant
            i <= n,
            n as nat == s@.len(),
            spec_tokens(s@, 0) == (match spec_tokens(s@, i as int) {
                Some(rest) => Some(toks_view(out@) + rest),
                None => None::<Seq<TokenV>>,
            }),
        decreases n - i,
    {
        let ghost prev = out@;
        let c = s.get_char(i);
        if space(c) {
            i = i + 1;
        } else if digit(c) {
            let d1 = scan_digits(s, n, i + 1);
            let mut end = d1;
            if d1 < n {
                if s.get_char(d1) == '.' {
                    let d2 = scan_digits(s, n, d1 + 1);
                    if d2 > d1 + 1 {
                        end = d2;
                    }
                }
            }
            let text = s.substring_char(i, end).to_owned();
            proof {
                assert(spec_head(s@, i as int) == Some(
                    (TokenV::Num(s@.subrange(i as int, end as int)), end as int),
                ));
            }
            out.push(Token::Num(text));
            proof {
                lemma_advance(s@, i as int, end as int, prev, out@.last());
            }
            i = end;
        } else if ident_start(c) {
            let e = scan_ident(s, n, i + 1);
            let text = s.substring_char(i, e).to_owned();
            out.push(Token::Ident(text));
            proof {
                lemma_advance(s@, i as int, e as int, prev, out@.last());
            }
            i = e;
        } else {
            let tok: Token;
            if c == '+' {
                tok = Token::Plus;
            } else if c == '-' {
                tok = Token::Minus;
            } else if c == '*' {
                tok = Token::Star;
            } else if c == '/' {
                tok = Token::Slash;
            } else if c == '^' {
                tok = Token::Caret;
            } else if c == '(' {
                tok = Token::LParen;
            } else if c == ')' {
                tok = Token::RParen;
            } else if c == '=' {
                tok = Token::Equals;
            } else {
                return Err(ParseError { kind: ErrorKind::BadChar, pos: i });
            }
            out.push(tok);
            proof {
                lemma_advance(s@, i as int, i + 1, prev, out@.last());
            }
            i = i + 1;
        }
    }
    Ok(out)
}

/// The token `t` spans `i` up to `j`: appending it to the tokens already
/// taken and moving the cursor to `j` preserves the composed token list.
proof fn lemma_advance(cs: Seq<char>, i: int, j: int, prev: Seq<Token>, t: Token)
    requires
        0 <= i < j <= cs.len(),
        !is_space(cs[i]),
        spec_head(cs, i) == Some((token_view(t), j)),
    ensures
        (match spec_tokens(cs, i) {
            Some(rest) => Some(toks_view(prev) + rest),
            None => None::<Seq<TokenV>>,
        }) == (match spec_tokens(cs, j) {
            Some(rest) => Some(toks_view(prev.push(t)) + rest),
            None => None::<Seq<TokenV>>,
        }),
{
    let cur = prev.push(t);
    assert(toks_view(cur) =~= toks_view(prev).push(token_view(t)));
    match spec_tokens(cs, j) {
        Some(rest) => {
            assert(spec_tokens(cs, i) == Some(seq![token_view(t)] + rest));
            assert(toks_view(prev) + (seq![token_view(t)] + rest) =~= toks_view(cur) + rest);
        },
        None => {},
    }
}

// ---------------------------------------------------------------------------
// The precedence-climbing builder
// ---------------------------------------------------------------------------

/// The operator a token stands for, if any.
pub open spec fn tok_op(t: TokenV) -> Option<Op> {
    match t {
        TokenV::Plus => Some(Op::Add),
        TokenV::Minus => Some(Op::Subtract),
        TokenV::Star => Some(Op::Multiply),
        TokenV::Slash => Some(Op::Divide),
        TokenV::Caret => Some(Op::Power),
        _ => None,
    }
}

/// Executable form of [`tok_op`].
pub fn token_op(t: &Token) -> (r: Option<Op>)
    ensures
        r == tok_op(t@),
{
    match t {
        Token::Plus => Some(Op::Add),
        Token::Minus => Some(Op::Subtract),
        Token::Star => Some(Op::Multiply),
        Token::Slash => Some(Op::Divide),
        Token::Caret => Some(Op::Power),
        _ => None,
    }
}

/// A primary term at position `i`: a number, a constant, a variable, a
/// function call, or a parenthesized expression.
pub open spec fn spec_primary(ts: Seq<TokenV>, i: int) -> Option<(NodeV, int)>
    decreases ts.len() - i, 0int,
{
    if i < 0 || i >= ts.len() {
        None
    } else {
        match ts[i] {
            TokenV::Num(text) => Some((NodeV::Number(ValV::Lit(text)), i + 1)),
            TokenV::Ident(name) => if i + 1 < ts.len() && ts[i + 1] is LParen {
                match spec_expr(ts, i + 2, 1) {
                    Some((arg, j)) => if i + 2 < j && j < ts.len() && ts[j] is RParen {
                        Some((NodeV::Function { name, arg: Box::new(arg) }, j + 1))
                    } else {
                        None
                    },
                    None => None,
                }
            } else if name == "pi"@ {
                Some((NodeV::Number(ValV::Pi), i + 1))
            } else if name == "e"@ {
                Some((NodeV::Number(ValV::E), i + 1))
            } else {
                Some((NodeV::Variable(name), i + 1))
            },
            TokenV::LParen => match spec_expr(ts, i + 1, 1) {
                Some((inner, j)) => if i + 1 < j && j < ts.len() && ts[j] is RParen {
                    Some((inner, j + 1))
                } else {
                    None
                },
                None => None,
            },
            _ => None,
        }
    }
}

/// An expression at position `i` whose operators all bind at least as
/// tightly as `min`: a primary term, then climbing.
pub open spec fn spec_expr(ts: Seq<TokenV>, i: int, min: int) -> Option<(NodeV, int)>
    decreases ts.len() - i, 2int,
{
    match spec_primary(ts, i) {
        Some((lhs, j)) => if i < j && j <= ts.len() {
            spec_climb(ts, j, min, lhs)
        } else {
            None
        },
        None => None,
    }
}

/// Precedence climbing: while the next token is an operator binding at least
/// as tightly as `min`, parse its right operand — with the threshold raised
/// past the operator's own level when it is left-associative — and fold it
/// onto `lhs`.
pub open spec fn spec_climb(ts: Seq<TokenV>, i: int, min: int, lhs: NodeV) -> Option<(NodeV, int)>
    decreases ts.len() - i, 1int,
{
    if i < 0 || i >= ts.len() {
        Some((lhs, i))
    } else {
        match tok_op(ts[i]) {
            None => Some((lhs, i)),
            Some(op) => if spec_precedence(op) >= min {
                let next_min = if spec_assoc(op) == Assoc::Right {
                    spec_precedence(op)
                } else {
                    spec_precedence(op) + 1
                };
                match spec_expr(ts, i + 1, next_min) {
                    Some((rhs, k)) => if i < k <= ts.len() {
                        spec_climb(
                            ts,
                            k,
                            min,
                            NodeV::Op { op, lhs: Box::new(lhs), rhs: Box::new(rhs) },
                        )
                    } else {
                        None
                    },
                    None => None,
                }
            } else {
                Some((lhs, i))
            },
        }
    }
}

/// A whole line: an assignment `ident "=" expr`, or an expression; either
/// must consume every token.
pub open spec fn spec_parse(ts: Seq<TokenV>) -> Option<NodeV> {
    if ts.len() >= 2 && ts[0] is Ident && ts[1] is Equals {
        match spec_expr(ts, 2, 1) {
            Some((rhs, k)) => if k == ts.len() {
                Some(NodeV::Assign { name: ts[0]->Ident_0, rhs: Box::new(rhs) })
            } else {
                None
            },
            None => None,
        }
    } else {
        match spec_expr(ts, 0, 1) {
            Some((n, k)) => if k == ts.len() {
                Some(n)
            } else {
                None
            },
            None => None,
        }
    }
}

/// A whole line, from characters: tokens, then the builder.
pub open spec fn spec_parse_line(cs: Seq<char>) -> Option<NodeV> {
    match spec_tokens(cs, 0) {
        Some(ts) => spec_parse(ts),
        None => None,
    }
}

fn parse_primary(ts: &Vec<Token>, i: usize) -> (r: Result<(Node, usize), ParseError>)
    requires
        i <= ts@.len(),
    ensures
        match r {
            Ok(p) => spec_primary(toks_view(ts@), i as int) == Some((p.0@, p.1 as int)) && i < p.1
                <= ts@.len(),
            Err(e) => (spec_primary(toks_view(ts@), i as int) is None),
        },
    decreases ts@.len() - i, 0int,
{
    if i >= ts.len() {
        return Err(ParseError { kind: ErrorKind::UnexpectedEnd, pos: i });
    }
    match &ts[i] {
        Token::Num(text) => Ok((Node::Number(Val::Lit(text.clone())), i + 1)),
        Token::Ident(name) => {
            let mut call = false;
            if i + 1 < ts.len() {
                if let Token::LParen = &ts[i + 1] {
                    call = true;
                }
            }
            if call {
                match parse_expr(ts, i + 2, 1) {
                    Ok((arg, j)) => {
                        if j < ts.len() {
                            if let Token::RParen = &ts[j] {
                                Ok((
                                    Node::Function { name: name.clone(), arg: Box::new(arg) },
                                    j + 1,
                                ))
                            } else {
                                Err(ParseError { kind: ErrorKind::BadToken, pos: j })
                            }
                        } else {
                            Err(ParseError { kind: ErrorKind::UnexpectedEnd, pos: j })
                        }
                    },
                    Err(e) => Err(e),
                }
            } else if *name == "pi".to_owned() {
                Ok((Node::Number(Val::Pi), i + 1))
            } else if *name == "e".to_owned() {
                Ok((Node::Number(Val::E), i + 1))
            } else {
                Ok((Node::Variable(name.clone()), i + 1))
            }
        },
        Token::LParen => {
            match parse_expr(ts, i + 1, 1) {
                Ok((inner, j)) => {
                    if j < ts.len() {
                        if let Token::RParen = &ts[j] {
                            Ok((inner, j + 1))
                        } else {
                            Err(ParseError { kind: ErrorKind::BadToken, pos: j })
                        }
                    } else {
                        Err(ParseError { kind: ErrorKind::UnexpectedEnd, pos: j })
                    }
                },
                Err(e) => Err(e),
            }
        },
        _ => Err(ParseError { kind: ErrorKind::BadToken, pos: i }),
    }
}

fn parse_climb(ts: &Vec<Token>, i: usize, min: i32, lhs: Node) -> (r: Result<
    (Node, usize),
    ParseError,
>)
    requires
        i <= ts@.len(),
    ensures
        match r {
            Ok(p) => spec_climb(toks_view(ts@), i as int, min as int, lhs@) == Some(
                (p.0@, p.1 as int),
            ) && i <= p.1 <= ts@.len(),
            Err(e) => (spec_climb(toks_view(ts@), i as int, min as int, lhs@) is None),
        },
    decreases ts@.len() - i, 1int,
{
    if i >= ts.len() {
        return Ok((lhs, i));
    }
    match token_op(&ts[i]) {
        None => Ok((lhs, i)),
        Some(op) => {
            if op_precedence(&op) >= min {
                let next_min = if let Assoc::Right = op_assoc(&op) {
                    op_precedence(&op)
                } else {
                    op_precedence(&op) + 1
                };
                match parse_expr(ts, i + 1, next_min) {
                    Ok((rhs, k)) => parse_climb(
                        ts,
                        k,
                        min,
                        Node::Op { op, lhs: Box::new(lhs), rhs: Box::new(rhs) },
                    ),
                    Err(e) => Err(e),
                }
            } else {
                Ok((lhs, i))
            }
        },
    }
}

fn parse_expr(ts: &Vec<Token>, i: usize, min: i32) -> (r: Result<(Node, usize), ParseError>)
    requires
        i <= ts@.len(),
    ensures
        match r {
            Ok(p) => spec_expr(toks_view(ts@), i as int, min as int) == Some((p.0@, p.1 as int))
                && i < p.1 <= ts@.len(),
            Err(e) => (spec_expr(toks_view(ts@), i as int, min as int) is None),
        },
    decreases ts@.len() - i, 2int,
{
    match parse_primary(ts, i) {
        Ok((lhs, j)) => parse_climb(ts, j, min, lhs),
        Err(e) => Err(e),
    }
}

/// The parser.  It holds no state; the operator table lives in
/// [`op_precedence`] and [`op_assoc`].
pub struct Parser {}

impl Parser {
    /// A parser for the grammar above.
    pub fn new() -> (p: Parser) {
        Parser {  }
    }

    /// Builds the tree for a whole token stream.
    pub fn parse(&self, ts: &Vec<Token>) -> (r: Result<Node, ParseError>)
        ensures
            match r {
                Ok(n) => spec_parse(toks_view(ts@)) == Some(n@),
                Err(e) => (spec_parse(toks_view(ts@)) is None),
            },
    {
        let n = ts.len();
        if n >= 2 {
            let mut assign = false;
            if let Token::Ident(_) = &ts[0] {
                if let Token::Equals = &ts[1] {
                    assign = true;
                }
            }
            if assign {
                let name = match &ts[0] {
                    Token::Ident(nm) => nm.clone(),
                    _ => String::new(),
                };
                return match parse_expr(ts, 2, 1) {
                    Ok((rhs, k)) => {
                        if k == n {
                            Ok(Node::Assign { name, rhs: Box::new(rhs) })
                        } else {
                            Err(ParseError { kind: ErrorKind::Trailing, pos: k })
                        }
                    },
                    Err(e) => Err(e),
                };
            }
        }
        match parse_expr(ts, 0, 1) {
            Ok((node, k)) => {
                if k == n {
                    Ok(node)
                } else {
                    Err(ParseError { kind: ErrorKind::Trailing, pos: k })
                }
            },
            Err(e) => Err(e),
        }
    }

    /// Parses a line of text: tokens, then the builder.  Succeeds exactly
    /// on the lines of the grammar; the error identifies the failing
    /// position.
    pub fn parse_string(&self, text: &str) -> (r: Result<Node, ParseError>)
        ensures
            match r {
                Ok(n) => spec_parse_line(text@) == Some(n@),
                Err(e) => (spec_parse_line(text@) is None),
            },
    {
        match tokenize(text) {
            Ok(ts) => self.parse(&ts),
            Err(e) => Err(e),
        }
    }
}


// ---------------------------------------------------------------------------
// Round trips on leaves
// ---------------------------------------------------------------------------

/// A run of digits from `i` ends exactly at `e`, the first position that is
/// past the end or holds no digit.
proof fn lemma_digit_run_to(cs: Seq<char>, i: int, e: int)
    requires
        0 <= i <= e <= cs.len(),
        forall|j: int| i <= j < e ==> is_digit(cs[j]),
        e == cs.len() || !is_digit(cs[e]),
    ensures
        digit_run_end(cs, i) == e,
    decreases e - i,
{
    if i < e {
        lemma_digit_run_to(cs, i + 1, e);
    }
}

/// A run of identifier characters from `i` ends exactly at `e`.
proof fn lemma_ident_run_to(cs: Seq<char>, i: int, e: int)
    requires
        0 <= i <= e <= cs.len(),
        forall|j: int| i <= j < e ==> is_ident_char(cs[j]),
        e == cs.len() || !is_ident_char(cs[e]),
    ensures
        ident_run_end(cs, i) == e,
    decreases e - i,
{
    if i < e {
        lemma_ident_run_to(cs, i + 1, e);
    }
}

/// The pretty-print round trip on a variable leaf: rendering a variable
/// whose name is a well-formed identifier — and not one of the named
/// constants — and re-parsing the line returns the same tree.
pub proof fn lemma_render_parse_variable(x: Seq<char>)
    requires
        x.len() > 0,
        is_ident_start(x[0]),
        forall|i: int| 0 < i < x.len() ==> is_ident_char(x[i]),
        x != "pi"@,
        x != "e"@,
    ensures
        spec_parse_line(crate::render::spec_render(NodeV::Variable(x))) == Some(
            NodeV::Variable(x),
        ),
{
    let len = x.len() as int;
    assert(crate::render::spec_render(NodeV::Variable(x)) == x);
    lemma_ident_run_to(x, 1, len);
    assert(spec_head(x, 0) == Some((TokenV::Ident(x.subrange(0, len)), len)));
    assert(x.subrange(0, len) =~= x);
    assert(spec_tokens(x, len) == Some(Seq::<TokenV>::empty()));
    let ts = seq![TokenV::Ident(x)];
    assert(seq![TokenV::Ident(x)] + Seq::<TokenV>::empty() =~= ts);
    assert(spec_tokens(x, 0) == Some(ts));
    assert(spec_primary(ts, 0) == Some((NodeV::Variable(x), 1int)));
    assert(spec_climb(ts, 1, 1, NodeV::Variable(x)) == Some((NodeV::Variable(x), 1int)));
    assert(spec_parse(ts) == Some(NodeV::Variable(x)));
}

/// The pretty-print round trip on a numeric leaf whose text is a whole
/// number: rendering and re-parsing the line returns the same tree.
pub proof fn lemma_render_parse_integer(s: Seq<char>)
    requires
        s.len() > 0,
        forall|i: int| 0 <= i < s.len() ==> is_digit(s[i]),
    ensures
        spec_parse_line(crate::render::spec_render(NodeV::Number(ValV::Lit(s)))) == Some(
            NodeV::Number(ValV::Lit(s)),
        ),
{
    let len = s.len() as int;
    assert(crate::render::spec_render(NodeV::Number(ValV::Lit(s))) == s);
    lemma_digit_run_to(s, 1, len);
    assert(spec_head(s, 0) == Some((TokenV::Num(s.subrange(0, len)), len)));
    assert(s.subrange(0, len) =~= s);
    assert(spec_tokens(s, len) == Some(Seq::<TokenV>::empty()));
    let ts = seq![TokenV::Num(s)];
    assert(seq![TokenV::Num(s)] + Seq::<TokenV>::empty() =~= ts);
    assert(spec_tokens(s, 0) == Some(ts));
    assert(spec_primary(ts, 0) == Some((NodeV::Number(ValV::Lit(s)), 1int)));
    assert(spec_climb(ts, 1, 1, NodeV::Number(ValV::Lit(s))) == Some(
        (NodeV::Number(ValV::Lit(s)), 1int),
    ));
    assert(spec_parse(ts) == Some(NodeV::Number(ValV::Lit(s))));
}

/// The pretty-print round trip on a numeric leaf whose text has a
/// fractional part, the decimal point standing at `k`: rendering and
/// re-parsing the line returns the same tree.
pub proof fn lemma_render_parse_fraction(s: Seq<char>, k: int)
    requires
        0 < k,
        k + 1 < s.len(),
        s[k] == '.',
        forall|i: int| 0 <= i < k ==> is_digit(s[i]),
        forall|i: int| k < i < s.len() ==> is_digit(s[i]),
    ensures
        spec_parse_line(crate::render::spec_render(NodeV::Number(ValV::Lit(s)))) == Some(
            NodeV::Number(ValV::Lit(s)),
        ),
{
    let len = s.len() as int;
    assert(crate::render::spec_render(NodeV::Number(ValV::Lit(s))) == s);
    assert(!is_digit(s[k]));
    lemma_digit_run_to(s, 1, k);
    lemma_digit_run_to(s, k + 1, len);
    assert(spec_head(s, 0) == Some((TokenV::Num(s.subrange(0, len)), len)));
    assert(s.subrange(0, len) =~= s);
    assert(spec_tokens(s, len) == Some(Seq::<TokenV>::empty()));
    let ts = seq![TokenV::Num(s)];
    assert(seq![TokenV::Num(s)] + Seq::<TokenV>::empty() =~= ts);
    assert(spec_tokens(s, 0) == Some(ts));
    assert(spec_primary(ts, 0) == Some((NodeV::Number(ValV::Lit(s)), 1int)));
    assert(spec_climb(ts, 1, 1, NodeV::Number(ValV::Lit(s))) == Some(
        (NodeV::Number(ValV::Lit(s)), 1int),
    ));
    assert(spec_parse(ts) == Some(NodeV::Number(ValV::Lit(s))));
}


/// The threshold a right operand is climbed with: past the operator's own
/// level when it is left-associative, the level itself when right.
pub open spec fn spec_next_min(op: Op) -> int {
    if spec_assoc(op) == Assoc::Right {
        spec_precedence(op)
    } else {
        spec_precedence(op) + 1
    }
}

/// The token an operator prints as.
pub open spec fn op_token(op: Op) -> TokenV {
    match op {
        Op::Add => TokenV::Plus,
        Op::Subtract => TokenV::Minus,
        Op::Multiply => TokenV::Star,
        Op::Divide => TokenV::Slash,
        Op::Power => TokenV::Caret,
    }
}

/// An operator's printed symbol is one character, belongs to no other token
/// class, lexes to the operator's own token, and is read back as the same
/// operator.
proof fn lemma_symbol_token(op: Op)
    ensures
        crate::render::spec_op_symbol(op).len() == 1,
        !is_space(crate::render::spec_op_symbol(op)[0]),
        tok_op(op_token(op)) == Some(op),
        forall|cs: Seq<char>, i: int|
            0 <= i < cs.len() && cs[i] == crate::render::spec_op_symbol(op)[0]
                ==> #[trigger] spec_head(cs, i) == Some((op_token(op), i + 1)),
{
    reveal_strlit("+");
    reveal_strlit("-");
    reveal_strlit("*");
    reveal_strlit("/");
    reveal_strlit("^");
}

/// The pretty-print round trip on an operation over two variables: rendering
/// and re-parsing the line returns the same tree, whatever the operator.
pub proof fn lemma_render_parse_operation(op: Op, x: Seq<char>, y: Seq<char>)
    requires
        x.len() > 0,
        is_ident_start(x[0]),
        forall|i: int| 0 < i < x.len() ==> is_ident_char(x[i]),
        x != "pi"@,
        x != "e"@,
        y.len() > 0,
        is_ident_start(y[0]),
        forall|i: int| 0 < i < y.len() ==> is_ident_char(y[i]),
        y != "pi"@,
        y != "e"@,
    ensures
        (spec_parse_line(
            crate::render::spec_render(
                NodeV::Op {
                    op,
                    lhs: Box::new(NodeV::Variable(x)),
                    rhs: Box::new(NodeV::Variable(y)),
                },
            ),
        ) == Some(
            NodeV::Op { op, lhs: Box::new(NodeV::Variable(x)), rhs: Box::new(NodeV::Variable(y)) },
        )),
{
    let t = NodeV::Op { op, lhs: Box::new(NodeV::Variable(x)), rhs: Box::new(NodeV::Variable(y)) };
    let sym = crate::render::spec_op_symbol(op);
    lemma_symbol_token(op);
    reveal_strlit(" ");
    let s = crate::render::spec_render(t);
    assert(crate::render::spec_branch(op, NodeV::Variable(x)) == x);
    assert(crate::render::spec_branch(op, NodeV::Variable(y)) == y);
    assert(s == x + " "@ + sym + " "@ + y);
    let a = x.len() as int;
    let len = s.len() as int;
    assert(len == a + 3 + y.len());
    assert(forall|i: int| 0 <= i < a ==> s[i] == x[i]);
    assert(s[a] == ' ');
    assert(s[a + 1] == sym[0]);
    assert(s[a + 2] == ' ');
    assert(forall|i: int| a + 3 <= i < len ==> s[i] == y[i - (a + 3)]);

    // Lexing: an identifier, a space, the operator, a space, an identifier.
    lemma_ident_run_to(s, 1, a);
    assert(spec_head(s, 0) == Some((TokenV::Ident(s.subrange(0, a)), a)));
    assert(s.subrange(0, a) =~= x);
    assert(spec_head(s, a + 1) == Some((op_token(op), a + 2)));
    lemma_ident_run_to(s, a + 4, len);
    assert(spec_head(s, a + 3) == Some((TokenV::Ident(s.subrange(a + 3, len)), len)));
    assert(s.subrange(a + 3, len) =~= y);
    assert(spec_tokens(s, len) == Some(Seq::<TokenV>::empty()));
    assert(spec_tokens(s, a + 3) == Some(seq![TokenV::Ident(y)] + Seq::<TokenV>::empty()));
    assert(spec_tokens(s, a + 2) == spec_tokens(s, a + 3));
    assert(spec_tokens(s, a + 1) == Some(
        seq![op_token(op)] + (seq![TokenV::Ident(y)] + Seq::<TokenV>::empty()),
    ));
    assert(spec_tokens(s, a) == spec_tokens(s, a + 1));
    let ts = seq![TokenV::Ident(x), op_token(op), TokenV::Ident(y)];
    assert(seq![TokenV::Ident(x)] + (seq![op_token(op)] + (seq![TokenV::Ident(y)]
        + Seq::<TokenV>::empty())) =~= ts);
    assert(spec_tokens(s, 0) == Some(ts));

    // Building: a primary, one climb step, a primary.
    assert(spec_primary(ts, 0) == Some((NodeV::Variable(x), 1int)));
    assert(spec_primary(ts, 2) == Some((NodeV::Variable(y), 3int)));
    assert(spec_climb(ts, 3, spec_next_min(op), NodeV::Variable(y)) == Some(
        (NodeV::Variable(y), 3int),
    ));
    assert(spec_expr(ts, 2, spec_next_min(op)) == Some((NodeV::Variable(y), 3int)));
    assert(spec_precedence(op) >= 1);
    assert(spec_climb(ts, 1, 1, NodeV::Variable(x)) == spec_climb(ts, 3, 1, t));
    assert(spec_climb(ts, 3, 1, t) == Some((t, 3int)));
    assert(spec_expr(ts, 0, 1) == Some((t, 3int)));
    assert(!(ts[1] is Equals));
    assert(spec_parse(ts) == Some(t));
}

/// The pretty-print round trip on a chain `x OP y OP z` of one operator over
/// variables: re-parsing the rendering returns the chain nested the way the
/// operator associates — to the left, or to the right for exponentiation —
/// with no parentheses needed.
#[verifier::rlimit(100)]
pub proof fn lemma_render_parse_chain(op: Op, x: Seq<char>, y: Seq<char>, z: Seq<char>)
    requires
        x.len() > 0,
        is_ident_start(x[0]),
        forall|i: int| 0 < i < x.len() ==> is_ident_char(x[i]),
        x != "pi"@,
        x != "e"@,
        y.len() > 0,
        is_ident_start(y[0]),
        forall|i: int| 0 < i < y.len() ==> is_ident_char(y[i]),
        y != "pi"@,
        y != "e"@,
        z.len() > 0,
        is_ident_start(z[0]),
        forall|i: int| 0 < i < z.len() ==> is_ident_char(z[i]),
        z != "pi"@,
        z != "e"@,
    ensures
        ({
            let t = if spec_assoc(op) == Assoc::Right {
                NodeV::Op {
                    op,
                    lhs: Box::new(NodeV::Variable(x)),
                    rhs: Box::new(
                        NodeV::Op {
                            op,
                            lhs: Box::new(NodeV::Variable(y)),
                            rhs: Box::new(NodeV::Variable(z)),
                        },
                    ),
                }
            } else {
                NodeV::Op {
                    op,
                    lhs: Box::new(
                        NodeV::Op {
                            op,
                            lhs: Box::new(NodeV::Variable(x)),
                            rhs: Box::new(NodeV::Variable(y)),
                        },
                    ),
                    rhs: Box::new(NodeV::Variable(z)),
                }
            };
            spec_parse_line(crate::render::spec_render(t)) == Some(t)
        }),
{
    let inner_right = NodeV::Op {
        op,
        lhs: Box::new(NodeV::Variable(y)),
        rhs: Box::new(NodeV::Variable(z)),
    };
    let inner_left = NodeV::Op {
        op,
        lhs: Box::new(NodeV::Variable(x)),
        rhs: Box::new(NodeV::Variable(y)),
    };
    let t = if spec_assoc(op) == Assoc::Right {
        NodeV::Op { op, lhs: Box::new(NodeV::Variable(x)), rhs: Box::new(inner_right) }
    } else {
        NodeV::Op { op, lhs: Box::new(inner_left), rhs: Box::new(NodeV::Variable(z)) }
    };
    let sym = crate::render::spec_op_symbol(op);
    lemma_symbol_token(op);
    reveal_strlit(" ");
    let s = crate::render::spec_render(t);
    let a = x.len() as int;
    let b = y.len() as int;
    let len = s.len() as int;
    let w = x + " "@ + sym + " "@ + y + " "@ + sym + " "@ + z;

    // Both nestings print as the plain chain: no parentheses are called for.
    assert(crate::render::spec_render(NodeV::Variable(x)) == x);
    assert(crate::render::spec_render(NodeV::Variable(y)) == y);
    assert(crate::render::spec_render(NodeV::Variable(z)) == z);
    assert(crate::render::spec_branch(op, NodeV::Variable(x)) == x);
    assert(crate::render::spec_branch(op, NodeV::Variable(y)) == y);
    assert(crate::render::spec_branch(op, NodeV::Variable(z)) == z);
    if spec_assoc(op) == Assoc::Right {
        assert(crate::render::spec_render(inner_right) == y + " "@ + sym + " "@ + z);
        assert(crate::render::spec_branch(op, inner_right) == y + " "@ + sym + " "@ + z);
        assert(s == x + " "@ + sym + " "@ + (y + " "@ + sym + " "@ + z));
        assert(s =~= w);
    } else {
        assert(crate::render::spec_render(inner_left) == x + " "@ + sym + " "@ + y);
        assert(crate::render::spec_branch(op, inner_left) == x + " "@ + sym + " "@ + y);
        assert(s == (x + " "@ + sym + " "@ + y) + " "@ + sym + " "@ + z);
        assert(s =~= w);
    }
    assert(len == a + 3 + b + 3 + z.len());
    assert(forall|i: int| 0 <= i < a ==> s[i] == x[i]);
    assert(s[a] == ' ');
    assert(s[a + 1] == sym[0]);
    assert(s[a + 2] == ' ');
    assert(forall|i: int| a + 3 <= i < a + 3 + b ==> s[i] == y[i - (a + 3)]) by {
        assert(forall|i: int| a + 3 <= i < a + 3 + b ==> s[i] == (x + " "@ + sym + " "@ + y)[i]);
    }
    assert(s[a + 3 + b] == ' ');
    assert(s[a + 4 + b] == sym[0]);
    assert(s[a + 5 + b] == ' ');
    assert(forall|i: int| a + 6 + b <= i < len ==> s[i] == z[i - (a + 6 + b)]);

    // Lexing: five tokens.
    lemma_ident_run_to(s, 1, a);
    assert(spec_head(s, 0) == Some((TokenV::Ident(s.subrange(0, a)), a)));
    assert(s.subrange(0, a) =~= x);
    assert(spec_head(s, a + 1) == Some((op_token(op), a + 2)));
    lemma_ident_run_to(s, a + 4, a + 3 + b);
    assert(spec_head(s, a + 3) == Some(
        (TokenV::Ident(s.subrange(a + 3, a + 3 + b)), a + 3 + b),
    ));
    assert(s.subrange(a + 3, a + 3 + b) =~= y);
    assert(spec_head(s, a + 4 + b) == Some((op_token(op), a + 5 + b)));
    lemma_ident_run_to(s, a + 7 + b, len);
    assert(spec_head(s, a + 6 + b) == Some((TokenV::Ident(s.subrange(a + 6 + b, len)), len)));
    assert(s.subrange(a + 6 + b, len) =~= z);
    assert(spec_tokens(s, len) == Some(Seq::<TokenV>::empty()));
    assert(spec_tokens(s, a + 6 + b) == Some(seq![TokenV::Ident(z)] + Seq::<TokenV>::empty()));
    assert(spec_tokens(s, a + 5 + b) == spec_tokens(s, a + 6 + b));
    assert(spec_tokens(s, a + 4 + b) == Some(
        seq![op_token(op)] + (seq![TokenV::Ident(z)] + Seq::<TokenV>::empty()),
    ));
    assert(spec_tokens(s, a + 3 + b) == spec_tokens(s, a + 4 + b));
    assert(spec_tokens(s, a + 3) == Some(
        seq![TokenV::Ident(y)] + (seq![op_token(op)] + (seq![TokenV::Ident(z)]
            + Seq::<TokenV>::empty())),
    ));
    assert(spec_tokens(s, a + 2) == spec_tokens(s, a + 3));
    assert(spec_tokens(s, a + 1) == Some(
        seq![op_token(op)] + (seq![TokenV::Ident(y)] + (seq![op_token(op)] + (seq![
            TokenV::Ident(z),
        ] + Seq::<TokenV>::empty()))),
    ));
    assert(spec_tokens(s, a) == spec_tokens(s, a + 1));
    let ts = seq![
        TokenV::Ident(x),
        op_token(op),
        TokenV::Ident(y),
        op_token(op),
        TokenV::Ident(z),
    ];
    assert(seq![TokenV::Ident(x)] + (seq![op_token(op)] + (seq![TokenV::Ident(y)] + (seq![
        op_token(op),
    ] + (seq![TokenV::Ident(z)] + Seq::<TokenV>::empty())))) =~= ts);
    assert(spec_tokens(s, 0) == Some(ts));

    // Building: the climb nests by associativity.
    assert(spec_precedence(op) >= 1);
    assert(spec_primary(ts, 0) == Some((NodeV::Variable(x), 1int)));
    assert(spec_primary(ts, 2) == Some((NodeV::Variable(y), 3int)));
    assert(spec_primary(ts, 4) == Some((NodeV::Variable(z), 5int)));
    if spec_assoc(op) == Assoc::Right {
        // The right operand of the first step climbs through the second.
        assert(spec_next_min(op) == spec_precedence(op));
        assert(spec_climb(ts, 5, spec_next_min(op), NodeV::Variable(z)) == Some(
            (NodeV::Variable(z), 5int),
        ));
        assert(spec_expr(ts, 4, spec_next_min(op)) == Some((NodeV::Variable(z), 5int)));
        assert(spec_climb(ts, 5, spec_next_min(op), inner_right) == Some((inner_right, 5int)));
        assert(spec_climb(ts, 3, spec_next_min(op), NodeV::Variable(y)) == Some(
            (inner_right, 5int),
        ));
        assert(spec_expr(ts, 2, spec_next_min(op)) == Some((inner_right, 5int)));
        assert(spec_climb(ts, 5, 1, t) == Some((t, 5int)));
        assert(spec_climb(ts, 1, 1, NodeV::Variable(x)) == Some((t, 5int)));
    } else {
        // The raised threshold stops the right operand before the second
        // operator, which then folds onto the pair.
        assert(spec_next_min(op) == spec_precedence(op) + 1);
        assert(spec_climb(ts, 3, spec_next_min(op), NodeV::Variable(y)) == Some(
            (NodeV::Variable(y), 3int),
        ));
        assert(spec_expr(ts, 2, spec_next_min(op)) == Some((NodeV::Variable(y), 3int)));
        assert(spec_climb(ts, 5, spec_next_min(op), NodeV::Variable(z)) == Some(
            (NodeV::Variable(z), 5int),
        ));
        assert(spec_expr(ts, 4, spec_next_min(op)) == Some((NodeV::Variable(z), 5int)));
        assert(spec_climb(ts, 5, 1, t) == Some((t, 5int)));
        assert(spec_climb(ts, 3, 1, inner_left) == Some((t, 5int)));
        assert(spec_climb(ts, 1, 1, NodeV::Variable(x)) == Some((t, 5int)));
    }
    assert(spec_expr(ts, 0, 1) == Some((t, 5int)));
    assert(!(ts[1] is Equals));
    assert(spec_parse(ts) == Some(t));
}

} // verus!
