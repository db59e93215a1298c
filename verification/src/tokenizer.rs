//! The tokenizer: a single forward pass mapping a Unicode source string
//! onto a sequence of located tokens. Digits open numeral mode, a single
//! quote opens string-literal mode with escape processing, whitespace is
//! consumed silently, recognized glyphs become their zero-payload tokens,
//! and any other run of characters becomes an identifier.

use crate::digits::{dec_text, high_minus, is_dec_digit};
use crate::errors::BaseErr;
use crate::glyphs::{glyph_char, glyph_char_of, glyph_of, glyph_token};
use crate::numeric_literal::{num_lit_spec, reason_text, FloatLit, NumLitV, NumericLiteral};
use crate::text::{build_string, push_char};
use vstd::prelude::*;

verus! {

/// A source location: one-based line and column, advanced once per
/// consumed character; a newline moves to the next line's first column.
#[derive(Debug, PartialEq, Eq, Structural, Clone, Copy)]
pub struct Loc {
    pub line: usize,
    pub col: usize,
}

impl Loc {
    /// This location as `line:column` text.
    pub fn to_text(&self) -> (r: String)
        ensures
            r@ == dec_text(self.line as nat) + seq![':'] + dec_text(self.col as nat),
    {
        let mut v: Vec<char> = Vec::new();
        crate::digits::push_dec_text(self.line as u64, &mut v);
        v.push(':');
        crate::digits::push_dec_text(self.col as u64, &mut v);
        let n = v.len();
        proof {
            assert(v@.subrange(0, n as int) =~= v@);
        }
        build_string(&v, 0, n)
    }
}

/// One token of the language: the payload families (identifier, numeric
/// literal, string literal, comment), the structural tokens, and one
/// zero-payload variant per recognized glyph.
#[derive(Debug, PartialEq, Clone)]
pub enum Token {
    Identifier(String),
    NumericLiteral(NumericLiteral),
    StringLiteral(String),
    Comment(String),
    OpenRoundBracket,
    OpenSquareBracket,
    OpenCurlyBracket,
    CloseRoundBracket,
    CloseSquareBracket,
    CloseCurlyBracket,
    NL,
    Plus,
    Minus,
    Times,
    Divide,
    Upstile,
    Downstile,
    Star,
    ExclamationMark,
    Stile,
    Log,
    Circle,
    Domino,
    UpTack,
    DownTack,
    QuestionMark,
    Tilde,
    LogicalAND,
    LogicalOR,
    LogicalNAND,
    LogicalNOR,
    LessThan,
    GreaterThan,
    LessThanOrEqualTo,
    GreaterThanOrEqualTo,
    Equal,
    NotEqual,
    EqualUnderbar,
    EqualUnderbarSlash,
    Rho,
    Comma,
    CommaBar,
    CircleStile,
    CircleBar,
    Transpose,
    UpArrow,
    DownArrow,
    LeftShoe,
    LeftShoeUnderbar,
    Epsilon,
    Squad,
    RightShoe,
    Slash,
    SlashBar,
    Backslash,
    BackslashBar,
    DownShoe,
    UpShoe,
    LeftTack,
    RightTack,
    Iota,
    IotaUnderbar,
    EpsilonUnderbar,
    GradeUp,
    GradeDown,
    Diaeresis,
    TildeDiaeresis,
    StarDiaeresis,
    Dot,
    Jot,
    QuadEqual,
    JotDiaeresis,
    CircleDieresis,
    QuadDiamond,
    At,
    QuadColon,
    LeftArrow,
    Zilde,
    Hydrant,
    Thorn,
    Diamond,
    Del,
    Alpha,
    Omega,
    Colon,
    EOF,
}

/// The mathematical content of a token: the payload families carry their
/// text or value, every zero-payload token stands for itself.
pub enum TokenV {
    Identifier(Seq<char>),
    NumericLiteral(NumLitV),
    StringLiteral(Seq<char>),
    Comment(Seq<char>),
    Fixed(Token),
}

impl View for Token {
    type V = TokenV;

    open spec fn view(&self) -> TokenV {
        match self {
            Token::Identifier(s) => TokenV::Identifier(s@),
            Token::NumericLiteral(n) => TokenV::NumericLiteral(n@),
            Token::StringLiteral(s) => TokenV::StringLiteral(s@),
            Token::Comment(s) => TokenV::Comment(s@),
            t => TokenV::Fixed(*t),
        }
    }
}

/// An ordered sequence of located tokens, in source order.
pub type TokenStream = Vec<(Token, Loc)>;

/// The view of a token stream: each token's content with its location.
pub open spec fn stream_view(s: Seq<(Token, Loc)>) -> Seq<(TokenV, Loc)> {
    s.map(|i: int, tl: (Token, Loc)| (tl.0@, tl.1))
}

/// A lexical failure: the unexpected token that broke a string literal
/// (end of input or a raw newline), an escape the grammar does not know,
/// or a malformed numeric literal, each with its location.
#[derive(Debug, PartialEq)]
pub enum LexicalError {
    UnexpectedToken(Token, Loc),
    IllegalEscape(char, Loc),
    BadNumericLiteral(BaseErr<'static>, Loc),
}

/// The mathematical content of a lexical failure.
pub enum LexErrV {
    Unexpected(TokenV, Loc),
    Escape(char, Loc),
    Num(Seq<char>, Loc),
}

impl View for LexicalError {
    type V = LexErrV;

    open spec fn view(&self) -> LexErrV {
        match self {
            LexicalError::UnexpectedToken(t, l) => LexErrV::Unexpected(t@, *l),
            LexicalError::IllegalEscape(c, l) => LexErrV::Escape(*c, *l),
            LexicalError::BadNumericLiteral(e, l) => LexErrV::Num(e@, *l),
        }
    }
}

/// The numeral alphabet: what a numeric-literal run, once opened by a
/// digit, keeps consuming.
pub open spec fn is_numeral_char(c: char) -> bool {
    is_dec_digit(c) || c == 'u' || c == 'f' || c == 'i' || c == 'E' || c == 'J' || c
        == high_minus()
}

/// What ends an identifier run: a recognized glyph or whitespace.
pub open spec fn is_ident_stop(c: char) -> bool {
    glyph_of(c) is Some || c == ' ' || c == '\t' || c == '\n'
}

fn is_numeral_char_exec(c: char) -> (r: bool)
    ensures
        r == is_numeral_char(c),
{
    match c {
        '0' | '1' | '2' | '3' | '4' | '5' | '6' | '7' | '8' | '9' => true,
        'u' | 'f' | 'i' | 'E' | 'J' | '\u{00af}' => true,
        _ => false,
    }
}

fn is_ident_stop_exec(c: char) -> (r: bool)
    ensures
        r == is_ident_stop(c),
{
    if c == ' ' || c == '\t' || c == '\n' {
        true
    } else {
        glyph_token(c).is_some()
    }
}

/// The location built from ghost line and column counters.
pub open spec fn at(line: int, col: int) -> Loc {
    Loc { line: line as usize, col: col as usize }
}

/// The end of the numeral run starting at `i`: the first index at or after
/// `i` holding no numeral-alphabet character.
pub open spec fn numeral_end(s: Seq<char>, i: int) -> int
    decreases s.len() - i,
{
    if i < 0 || i >= s.len() || !is_numeral_char(s[i]) {
        i
    } else {
        numeral_end(s, i + 1)
    }
}

/// The end of the identifier run starting at `i`: the first index at or
/// after `i` holding a glyph or whitespace.
pub open spec fn ident_end(s: Seq<char>, i: int) -> int
    decreases s.len() - i,
{
    if i < 0 || i >= s.len() || is_ident_stop(s[i]) {
        i
    } else {
        ident_end(s, i + 1)
    }
}

#[verifier::loop_isolation(false)]
fn numeral_end_exec(v: &Vec<char>, i: usize) -> (k: usize)
    requires
        i <= v@.len(),
    ensures
        k == numeral_end(v@, i as int),
        i <= k <= v@.len(),
{
    let n = v.len();
    let mut k: usize = i;
    while k < n
        invariant
            i <= k <= n,
            numeral_end(v@, i as int) == numeral_end(v@, k as int),
        decreases n - k,
    {
        if !is_numeral_char_exec(v[k]) {
            return k;
        }
        k = k + 1;
    }
    k
}

#[verifier::loop_isolation(false)]
fn ident_end_exec(v: &Vec<char>, i: usize) -> (k: usize)
    requires
        i <= v@.len(),
    ensures
        k == ident_end(v@, i as int),
        i <= k <= v@.len(),
{
    let n = v.len();
    let mut k: usize = i;
    while k < n
        invariant
            i <= k <= n,
            ident_end(v@, i as int) == ident_end(v@, k as int),
        decreases n - k,
    {
        if is_ident_stop_exec(v[k]) {
            return k;
        }
        k = k + 1;
    }
    k
}

/// One string-literal body, scanned from `i` (just after the opening
/// quote): the collected content after escape processing, the index after
/// the closing quote, and the line and column after it. An unescaped
/// closing quote ends the literal; a raw newline or the end of the input
/// breaks it; the recognized escapes are a line continuation, `n`, and a
/// literal quote.
pub open spec fn string_scan(s: Seq<char>, i: int, line: int, col: int, acc: Seq<char>) -> Result<
    (Seq<char>, int, int, int),
    LexErrV,
>
    decreases s.len() - i,
{
    if i < 0 || i >= s.len() {
        Err(LexErrV::Unexpected(TokenV::Fixed(Token::EOF), at(line, col)))
    } else if s[i] == '\'' {
        Ok((acc, i + 1, line, col + 1))
    } else if s[i] == '\n' {
        Err(LexErrV::Unexpected(TokenV::Fixed(Token::NL), at(line, col)))
    } else if s[i] == '\\' {
        if i + 1 >= s.len() {
            Err(LexErrV::Unexpected(TokenV::Fixed(Token::EOF), at(line, col + 1)))
        } else if s[i + 1] == '\n' {
            string_scan(s, i + 2, line + 1, 1, acc.push('\n'))
        } else if s[i + 1] == 'n' {
            string_scan(s, i + 2, line, col + 2, acc.push('\n'))
        } else if s[i + 1] == '\'' {
            string_scan(s, i + 2, line, col + 2, acc.push('\''))
        } else {
            Err(LexErrV::Escape(s[i + 1], at(line, col + 1)))
        }
    } else {
        string_scan(s, i + 1, line, col + 1, acc.push(s[i]))
    }
}

/// The whole scan, one token per step: the tokens already emitted are in
/// `acc`, and the result is the full located token stream, ended by `EOF`
/// at the final location, or the first lexical failure.
pub open spec fn scan(s: Seq<char>, i: int, line: int, col: int, acc: Seq<(TokenV, Loc)>) -> Result<
    Seq<(TokenV, Loc)>,
    LexErrV,
>
    decreases s.len() - i,
{
    if i < 0 || i >= s.len() {
        Ok(acc.push((TokenV::Fixed(Token::EOF), at(line, col))))
    } else {
        let c = s[i];
        if is_dec_digit(c) {
            let j0 = numeral_end(s, i + 1);
            let j = if j0 < i + 1 {
                i + 1
            } else if j0 > s.len() {
                s.len() as int
            } else {
                j0
            };
            match num_lit_spec(s.subrange(i, j)) {
                Ok(v) => scan(
                    s,
                    j,
                    line,
                    col + (j - i),
                    acc.push((TokenV::NumericLiteral(v), at(line, col + (j - i) - 1))),
                ),
                Err(k) => Err(LexErrV::Num(reason_text(k), at(line, col))),
            }
        } else if c == '\'' {
            match string_scan(s, i + 1, line, col + 1, Seq::empty()) {
                Ok(p) => {
                    let i2 = if p.1 < i + 1 {
                        i + 1
                    } else if p.1 > s.len() {
                        s.len() as int
                    } else {
                        p.1
                    };
                    scan(
                        s,
                        i2,
                        p.2,
                        p.3,
                        acc.push((TokenV::StringLiteral(p.0), at(p.2, p.3 - 1))),
                    )
                },
                Err(e) => Err(e),
            }
        } else if c == '\n' {
            scan(s, i + 1, line + 1, 1, acc.push((TokenV::Fixed(Token::NL), at(line, col))))
        } else if c == ' ' || c == '\t' {
            scan(s, i + 1, line, col + 1, acc)
        } else if glyph_of(c) is Some {
            scan(s, i + 1, line, col + 1, acc.push((TokenV::Fixed(glyph_of(c)->0), at(line, col))))
        } else {
            let j0 = ident_end(s, i + 1);
            let j = if j0 < i + 1 {
                i + 1
            } else if j0 > s.len() {
                s.len() as int
            } else {
                j0
            };
            scan(
                s,
                j,
                line,
                col + (j - i),
                acc.push((TokenV::Identifier(s.subrange(i, j)), at(line, col + (j - i) - 1))),
            )
        }
    }
}

proof fn lemma_stream_view_push(s: Seq<(Token, Loc)>, t: Token, l: Loc)
    ensures
        stream_view(s.push((t, l))) == stream_view(s).push((t@, l)),
{
    assert(stream_view(s.push((t, l))) =~= stream_view(s).push((t@, l)));
}

#[verifier::loop_isolation(false)]
fn string_literal_extractor(v: &Vec<char>, i: usize, line: usize, col: usize) -> (r: Result<
    (String, usize, usize, usize),
    LexicalError,
>)
    requires
        i <= v@.len() < usize::MAX,
        1 <= col <= i + 1,
        1 <= line <= i + 1,
    ensures
        match r {
            Ok(q) => {
                &&& string_scan(v@, i as int, line as int, col as int, Seq::empty())
                    == Ok::<(Seq<char>, int, int, int), LexErrV>((
                    q.0@,
                    q.1 as int,
                    q.2 as int,
                    q.3 as int,
                ))
                &&& i <= q.1 <= v@.len()
                &&& 1 <= q.3 <= q.1 + 1
                &&& 1 <= q.2 <= q.1 + 1
            },
            Err(e) => string_scan(v@, i as int, line as int, col as int, Seq::empty()) == Err::<
                (Seq<char>, int, int, int),
                LexErrV,
            >(e@),
        },
{
    let n = v.len();
    let mut k: usize = i;
    let mut l: usize = line;
    let mut c: usize = col;
    let mut acc = String::new();
    loop
        invariant
            i <= k <= n,
            1 <= c <= k + 1,
            1 <= l <= k + 1,
            string_scan(v@, i as int, line as int, col as int, Seq::empty()) == string_scan(
                v@,
                k as int,
                l as int,
                c as int,
                acc@,
            ),
        decreases n - k,
    {
        if k >= n {
            return Err(LexicalError::UnexpectedToken(Token::EOF, Loc { line: l, col: c }));
        }
        let ch = v[k];
        if ch == '\'' {
            return Ok((acc, k + 1, l, c + 1));
        }
        if ch == '\n' {
            return Err(LexicalError::UnexpectedToken(Token::NL, Loc { line: l, col: c }));
        }
        if ch == '\\' {
            if k + 1 >= n {
                return Err(
                    LexicalError::UnexpectedToken(Token::EOF, Loc { line: l, col: c + 1 }),
                );
            }
            let e = v[k + 1];
            if e == '\n' {
                push_char(&mut acc, '\n');
                l = l + 1;
                c = 1;
                k = k + 2;
            } else if e == 'n' {
                push_char(&mut acc, '\n');
                c = c + 2;
                k = k + 2;
            } else if e == '\'' {
                push_char(&mut acc, '\'');
                c = c + 2;
                k = k + 2;
            } else {
                return Err(LexicalError::IllegalEscape(e, Loc { line: l, col: c + 1 }));
            }
        } else {
            push_char(&mut acc, ch);
            c = c + 1;
            k = k + 1;
        }
    }
}

/// Scans a whole source text into its located token stream, ended by an
/// `EOF` token at the final location, or reports the first lexical
/// failure in scan order. The result is exactly what `scan` says of the
/// text: tokenizing is deterministic and total.
#[verifier::loop_isolation(false)]
#[verifier::rlimit(100)]
pub fn tokenize(input: String) -> (r: Result<TokenStream, LexicalError>)
    requires
        input@.len() < usize::MAX,
    ensures
        match r {
            Ok(out) => scan(input@, 0, 1, 1, Seq::empty()) == Ok::<Seq<(TokenV, Loc)>, LexErrV>(
                stream_view(out@),
            ),
            Err(e) => scan(input@, 0, 1, 1, Seq::empty()) == Err::<Seq<(TokenV, Loc)>, LexErrV>(
                e@,
            ),
        },
        r is Ok ==> ({
            let out = r->Ok_0@;
            &&& out.len() >= 1
            &&& out.last().0 == Token::EOF
            &&& forall|k: int|
                0 <= k < out.len() - 1 ==> (#[trigger] stream_view(out)[k]).0 != TokenV::Fixed(
                    Token::EOF,
                )
        }),
{
    let v = crate::text::to_chars(input.as_str());
    let n = v.len();
    let mut out: TokenStream = Vec::new();
    let mut i: usize = 0;
    let mut line: usize = 1;
    let mut col: usize = 1;
    proof {
        assert(stream_view(out@) =~= Seq::empty());
    }
    while i < n
        invariant
            i <= n == v@.len(),
            v@ == input@,
            1 <= col <= i + 1,
            1 <= line <= i + 1,
            scan(input@, 0, 1, 1, Seq::empty()) == scan(
                input@,
                i as int,
                line as int,
                col as int,
                stream_view(out@),
            ),
        decreases n - i,
    {
        let ch = v[i];
        if crate::digits::digit_value(ch).is_some() {
            let j = numeral_end_exec(&v, i + 1);
            let run = crate::text::sub_chars(&v, i, j);
            match crate::numeric_literal::num_lit_from_chars(&run) {
                Ok(lit) => {
                    let loc = Loc { line, col: col + (j - i) - 1 };
                    proof {
                        lemma_stream_view_push(out@, Token::NumericLiteral(lit), loc);
                    }
                    out.push((Token::NumericLiteral(lit), loc));
                    col = col + (j - i);
                    i = j;
                },
                Err(e) => {
                    return Err(LexicalError::BadNumericLiteral(e, Loc { line, col }));
                },
            }
        } else if ch == '\'' {
            match string_literal_extractor(&v, i + 1, line, col + 1) {
                Ok(q) => {
                    let (content, i2, l2, c2) = q;
                    let loc = Loc { line: l2, col: c2 - 1 };
                    proof {
                        lemma_stream_view_push(out@, Token::StringLiteral(content), loc);
                    }
                    out.push((Token::StringLiteral(content), loc));
                    i = i2;
                    line = l2;
                    col = c2;
                },
                Err(e) => {
                    return Err(e);
                },
            }
        } else if ch == '\n' {
            let loc = Loc { line, col };
            proof {
                lemma_stream_view_push(out@, Token::NL, loc);
            }
            out.push((Token::NL, loc));
            line = line + 1;
            col = 1;
            i = i + 1;
        } else if ch == ' ' || ch == '\t' {
            col = col + 1;
            i = i + 1;
        } else {
            match glyph_token(ch) {
                Some(t) => {
                    let loc = Loc { line, col };
                    proof {
                        lemma_stream_view_push(out@, t, loc);
                        assert(t@ == TokenV::Fixed(t));
                    }
                    out.push((t, loc));
                    col = col + 1;
                    i = i + 1;
                },
                None => {
                    let j = ident_end_exec(&v, i + 1);
                    let name = build_string(&v, i, j);
                    let loc = Loc { line, col: col + (j - i) - 1 };
                    proof {
                        lemma_stream_view_push(out@, Token::Identifier(name), loc);
                    }
                    out.push((Token::Identifier(name), loc));
                    col = col + (j - i);
                    i = j;
                },
            }
        }
    }
    let loc = Loc { line, col };
    proof {
        lemma_stream_view_push(out@, Token::EOF, loc);
    }
    out.push((Token::EOF, loc));
    proof {
        lemma_scan_ends_with_eof(input@, 0, 1, 1, Seq::empty());
        assert(scan(input@, 0, 1, 1, Seq::empty())->Ok_0 == stream_view(out@));
    }
    Ok(out)
}

proof fn lemma_glyph_not_eof(c: char)
    requires
        glyph_of(c) is Some,
    ensures
        glyph_of(c)->0 != Token::EOF,
{
}

/// Law: a successful scan only ever extends the tokens already emitted,
/// and what it adds is non-empty and ends with the one and only
/// end-of-stream marker: every token stream the tokenizer returns is
/// terminated by a trailing `EOF` token, and by nothing after it.
#[verifier::rlimit(100)]
pub proof fn lemma_scan_ends_with_eof(
    s: Seq<char>,
    i: int,
    line: int,
    col: int,
    acc: Seq<(TokenV, Loc)>,
)
    requires
        scan(s, i, line, col, acc) is Ok,
    ensures
        ({
            let out = scan(s, i, line, col, acc)->Ok_0;
            &&& out.len() > acc.len()
            &&& out.subrange(0, acc.len() as int) == acc
            &&& out.last().0 == TokenV::Fixed(Token::EOF)
            &&& forall|k: int|
                acc.len() <= k < out.len() - 1 ==> (#[trigger] out[k]).0 != TokenV::Fixed(
                    Token::EOF,
                )
        }),
    decreases s.len() - i,
{
    let out = scan(s, i, line, col, acc)->Ok_0;
    if i < 0 || i >= s.len() {
        assert(out.subrange(0, acc.len() as int) =~= acc);
    } else {
        let c = s[i];
        if is_dec_digit(c) {
            let j0 = numeral_end(s, i + 1);
            let j = if j0 < i + 1 {
                i + 1
            } else if j0 > s.len() {
                s.len() as int
            } else {
                j0
            };
            let v = num_lit_spec(s.subrange(i, j))->Ok_0;
            let acc2 = acc.push((TokenV::NumericLiteral(v), at(line, col + (j - i) - 1)));
            lemma_scan_ends_with_eof(s, j, line, col + (j - i), acc2);
            assert(out.subrange(0, acc2.len() as int)[acc.len() as int] == acc2[acc.len() as int]);
            assert(out[acc.len() as int] == acc2[acc.len() as int]);
            assert(out.subrange(0, acc.len() as int) =~= acc);
        } else if c == '\'' {
            let p = string_scan(s, i + 1, line, col + 1, Seq::empty())->Ok_0;
            let i2 = if p.1 < i + 1 {
                i + 1
            } else if p.1 > s.len() {
                s.len() as int
            } else {
                p.1
            };
            let acc2 = acc.push((TokenV::StringLiteral(p.0), at(p.2, p.3 - 1)));
            lemma_scan_ends_with_eof(s, i2, p.2, p.3, acc2);
            assert(out.subrange(0, acc2.len() as int)[acc.len() as int] == acc2[acc.len() as int]);
            assert(out[acc.len() as int] == acc2[acc.len() as int]);
            assert(out.subrange(0, acc.len() as int) =~= acc);
        } else if c == '\n' {
            let acc2 = acc.push((TokenV::Fixed(Token::NL), at(line, col)));
            lemma_scan_ends_with_eof(s, i + 1, line + 1, 1, acc2);
            assert(out.subrange(0, acc2.len() as int)[acc.len() as int] == acc2[acc.len() as int]);
            assert(out[acc.len() as int] == acc2[acc.len() as int]);
            assert(out.subrange(0, acc.len() as int) =~= acc);
        } else if c == ' ' || c == '\t' {
            lemma_scan_ends_with_eof(s, i + 1, line, col + 1, acc);
        } else if glyph_of(c) is Some {
            lemma_glyph_not_eof(c);
            let acc2 = acc.push((TokenV::Fixed(glyph_of(c)->0), at(line, col)));
            lemma_scan_ends_with_eof(s, i + 1, line, col + 1, acc2);
            assert(out.subrange(0, acc2.len() as int)[acc.len() as int] == acc2[acc.len() as int]);
            assert(out[acc.len() as int] == acc2[acc.len() as int]);
            assert(out.subrange(0, acc.len() as int) =~= acc);
        } else {
            let j0 = ident_end(s, i + 1);
            let j = if j0 < i + 1 {
                i + 1
            } else if j0 > s.len() {
                s.len() as int
            } else {
                j0
            };
            let acc2 = acc.push((TokenV::Identifier(s.subrange(i, j)), at(line, col + (j - i) - 1)));
            lemma_scan_ends_with_eof(s, j, line, col + (j - i), acc2);
            assert(out.subrange(0, acc2.len() as int)[acc.len() as int] == acc2[acc.len() as int]);
            assert(out[acc.len() as int] == acc2[acc.len() as int]);
            assert(out.subrange(0, acc.len() as int) =~= acc);
        }
    }
}

// ---------------------------------------------------------------------------
// Destreaming: rendering a token stream back to source text, a separating
// space reinserted wherever a numeric or string literal would otherwise
// fuse with the text before it.
// ---------------------------------------------------------------------------

/// A character that a following numeral or quote would fuse with.
pub open spec fn fusable(c: char) -> bool {
    is_numeral_char(c) || c == '\''
}

/// String-literal content rendered back: each raw newline becomes the
/// two-character escape.
pub open spec fn escape_nl(s: Seq<char>) -> Seq<char>
    decreases s.len(),
{
    if s.len() == 0 {
        Seq::empty()
    } else {
        escape_nl(s.drop_last()) + (if s.last() == '\n' {
            seq!['\\', 'n']
        } else {
            seq![s.last()]
        })
    }
}

/// The separating space, when the text so far ends in a character the next
/// chunk would fuse with.
pub open spec fn maybe_space(acc: Seq<char>) -> Seq<char> {
    if acc.len() > 0 && fusable(acc.last()) {
        seq![' ']
    } else {
        Seq::empty()
    }
}

/// The text one token appends to the output built so far.
pub open spec fn chunk(acc: Seq<char>, t: Token) -> Seq<char> {
    match t {
        Token::Identifier(s) => s@,
        Token::Comment(s) => s@,
        Token::StringLiteral(s) => maybe_space(acc) + seq!['\''] + escape_nl(s@) + seq!['\''],
        Token::NumericLiteral(n) => maybe_space(acc) + crate::numeric_literal::num_text(n@),
        Token::NL => seq!['\n'],
        Token::EOF => Seq::empty(),
        g => seq![glyph_char(g)],
    }
}

/// The rendered text of a token stream, left to right.
pub open spec fn destream_text(ts: Seq<(Token, Loc)>, acc: Seq<char>) -> Seq<char>
    decreases ts.len(),
{
    if ts.len() == 0 {
        acc
    } else {
        destream_text(ts.drop_first(), acc + chunk(acc, ts[0].0))
    }
}

/// Appends string-literal content with its newlines escaped.
#[verifier::loop_isolation(false)]
fn push_escaped(s: &str, out: &mut Vec<char>)
    ensures
        final(out)@ == old(out)@ + escape_nl(s@),
{
    let v = crate::text::to_chars(s);
    let n = v.len();
    let mut k: usize = 0;
    while k < n
        invariant
            k <= n == s@.len(),
            v@ == s@,
            out@ == old(out)@ + escape_nl(s@.take(k as int)),
        decreases n - k,
    {
        let ghost pre = s@.take(k as int);
        assert(s@.take(k + 1).drop_last() =~= pre);
        if v[k] == '\n' {
            out.push('\\');
            out.push('n');
        } else {
            out.push(v[k]);
        }
        assert(out@ =~= old(out)@ + escape_nl(s@.take(k + 1)));
        k = k + 1;
    }
    assert(s@.take(n as int) =~= s@);
}

fn fusable_exec(c: char) -> (r: bool)
    ensures
        r == fusable(c),
{
    is_numeral_char_exec(c) || c == '\''
}

/// Renders a token stream back to source text: each glyph token prints as
/// its glyph, newline tokens as newlines, the end-of-stream marker as
/// nothing, and literals as their texts, a separating space reinserted
/// wherever a numeric or string literal would otherwise fuse with the
/// character before it.
#[verifier::loop_isolation(false)]
pub fn destream(stream: TokenStream) -> (r: String)
    ensures
        r@ == destream_text(stream@, Seq::empty()),
{
    let n = stream.len();
    let mut out: Vec<char> = Vec::new();
    let mut idx: usize = 0;
    proof {
        assert(stream@.skip(0) =~= stream@);
    }
    while idx < n
        invariant
            idx <= n == stream@.len(),
            destream_text(stream@, Seq::empty()) == destream_text(
                stream@.skip(idx as int),
                out@,
            ),
        decreases n - idx,
    {
        let ghost rest = stream@.skip(idx as int);
        proof {
            assert(rest[0] == stream@[idx as int]);
            assert(rest.drop_first() =~= stream@.skip(idx + 1));
        }
        let ghost acc0 = out@;
        let t = &stream[idx].0;
        match t {
            Token::Identifier(s) => {
                let mut chars = crate::text::to_chars(s.as_str());
                out.append(&mut chars);
            },
            Token::Comment(s) => {
                let mut chars = crate::text::to_chars(s.as_str());
                out.append(&mut chars);
            },
            Token::StringLiteral(s) => {
                if out.len() > 0 && fusable_exec(out[out.len() - 1]) {
                    out.push(' ');
                }
                out.push('\'');
                push_escaped(s.as_str(), &mut out);
                out.push('\'');
            },
            Token::NumericLiteral(num) => {
                if out.len() > 0 && fusable_exec(out[out.len() - 1]) {
                    out.push(' ');
                }
                num.push_text(&mut out);
            },
            Token::NL => {
                out.push('\n');
            },
            Token::EOF => {},
            g => {
                out.push(glyph_char_of(g));
            },
        }
        assert(out@ =~= acc0 + chunk(acc0, stream@[idx as int].0));
        idx = idx + 1;
    }
    proof {
        assert(stream@.skip(n as int) =~= Seq::<(Token, Loc)>::empty());
    }
    let m = out.len();
    proof {
        assert(out@.subrange(0, m as int) =~= out@);
    }
    build_string(&out, 0, m)
}

/// One step of the rendering, taken from the right: the text of a stream
/// extended by one token is the text so far plus that token's chunk.
pub proof fn lemma_destream_snoc(ts: Seq<(Token, Loc)>, acc: Seq<char>, x: (Token, Loc))
    ensures
        destream_text(ts.push(x), acc) == destream_text(ts, acc) + chunk(
            destream_text(ts, acc),
            x.0,
        ),
    decreases ts.len(),
{
    if ts.len() == 0 {
        assert(ts.push(x).drop_first() =~= Seq::<(Token, Loc)>::empty());
        assert(ts.push(x)[0] == x);
        assert(destream_text(ts.push(x), acc) == destream_text(
            Seq::<(Token, Loc)>::empty(),
            acc + chunk(acc, x.0),
        ));
        assert(destream_text(ts, acc) == acc);
    } else {
        assert(ts.push(x).drop_first() =~= ts.drop_first().push(x));
        assert(ts.push(x)[0] == ts[0]);
        let acc2 = acc + chunk(acc, ts[0].0);
        lemma_destream_snoc(ts.drop_first(), acc2, x);
        assert(destream_text(ts.push(x), acc) == destream_text(ts.drop_first().push(x), acc2));
        assert(destream_text(ts, acc) == destream_text(ts.drop_first(), acc2));
    }
}

/// Law: wherever a numeric or string literal follows text that ends in a
/// numeral-alphabet character or a quote — text the literal would fuse
/// with — the rendering puts a separating space first, so the rendered
/// literal still begins its own lexeme.
pub proof fn lemma_destream_separates(ts: Seq<(Token, Loc)>, idx: int)
    requires
        0 <= idx < ts.len(),
        ts[idx].0 is NumericLiteral || ts[idx].0 is StringLiteral,
    ensures
        ({
            let pre = destream_text(ts.take(idx), Seq::empty());
            let next = destream_text(ts.take(idx + 1), Seq::empty());
            &&& next == pre + chunk(pre, ts[idx].0)
            &&& (pre.len() > 0 && fusable(pre.last()) ==> next[pre.len() as int] == ' ')
        }),
{
    assert(ts.take(idx + 1) =~= ts.take(idx).push(ts[idx]));
    lemma_destream_snoc(ts.take(idx), Seq::empty(), ts[idx]);
}

proof fn lemma_numeral_end_past(s: Seq<char>, i: int, k: int)
    requires
        0 <= i <= k <= s.len(),
        forall|x: int| i <= x < k ==> is_numeral_char(#[trigger] s[x]),
        k < s.len() ==> !is_numeral_char(s[k]),
    ensures
        numeral_end(s, i) == k,
    decreases k - i,
{
    if i < k {
        lemma_numeral_end_past(s, i + 1, k);
    }
}

/// The text a stream renders to keeps the text already built as a prefix.
proof fn lemma_destream_keeps_prefix(ts: Seq<(Token, Loc)>, acc: Seq<char>)
    ensures
        destream_text(ts, acc).len() >= acc.len(),
        destream_text(ts, acc).take(acc.len() as int) == acc,
    decreases ts.len(),
{
    if ts.len() == 0 {
        assert(destream_text(ts, acc).take(acc.len() as int) =~= acc);
    } else {
        let acc2 = acc + chunk(acc, ts[0].0);
        lemma_destream_keeps_prefix(ts.drop_first(), acc2);
        let out = destream_text(ts, acc);
        assert(out.take(acc2.len() as int) == acc2);
        assert forall|x: int| 0 <= x < acc.len() implies out.take(acc.len() as int)[x] == acc[x] by {
            assert(out.take(acc2.len() as int)[x] == acc2[x]);
        }
        assert(out.take(acc.len() as int) =~= acc);
    }
}

/// The numeral text of an unsigned literal: at least two characters, all
/// of the numeral alphabet, opening with a digit.
proof fn lemma_unsigned_text_shape(v: crate::numeric_literal::NumLitV)
    requires
        v is SysUint || v is Uint,
    ensures
        crate::numeric_literal::num_text(v).len() >= 2,
        is_dec_digit(crate::numeric_literal::num_text(v)[0]),
        forall|x: int|
            0 <= x < crate::numeric_literal::num_text(v).len() ==> is_numeral_char(
                #[trigger] crate::numeric_literal::num_text(v)[x],
            ),
{
    let nt = crate::numeric_literal::num_text(v);
    match v {
        crate::numeric_literal::NumLitV::SysUint(n) => {
            let dt = dec_text(n as nat);
            crate::digits::lemma_dec_text_digits(n as nat);
            assert(nt[0] == dt[0]);
            assert forall|x: int| 0 <= x < nt.len() implies is_numeral_char(#[trigger] nt[x]) by {
                if x < dt.len() {
                    assert(nt[x] == dt[x]);
                } else {
                    assert(nt[x] == 'u');
                }
            }
        },
        crate::numeric_literal::NumLitV::Uint(vol, n) => {
            let dt = dec_text(n as nat);
            let vt = dec_text(vol as nat);
            crate::digits::lemma_dec_text_digits(n as nat);
            crate::digits::lemma_dec_text_digits(vol as nat);
            assert(nt[0] == dt[0]);
            assert forall|x: int| 0 <= x < nt.len() implies is_numeral_char(#[trigger] nt[x]) by {
                if x < dt.len() {
                    assert(nt[x] == dt[x]);
                } else if x == dt.len() {
                    assert(nt[x] == 'u');
                } else {
                    assert(nt[x] == vt[x - dt.len() - 1]);
                }
            }
        },
        _ => {},
    }
}

/// In the rendering, when the text so far ends in something fusable, the
/// next literal's chunk opens with the separating space.
#[verifier::rlimit(100)]
proof fn lemma_unsigned_space_facts(s: Seq<char>, i: int, ts: Seq<(Token, Loc)>)
    requires
        0 <= i <= s.len(),
        s == destream_text(ts, s.take(i)),
        ts.len() > 0,
        ts[0].0 is NumericLiteral,
        (ts[0].0)->NumericLiteral_0@ is SysUint || (ts[0].0)->NumericLiteral_0@ is Uint,
        s.take(i).len() > 0 && fusable(s.take(i).last()),
    ensures
        i < s.len(),
        s[i] == ' ',
        s == destream_text(ts, s.take(i + 1)),
{
    let pre = s.take(i);
    let t0 = ts[0].0;
    let v0 = t0->NumericLiteral_0@;
    let nt = crate::numeric_literal::num_text(v0);
    let ch = chunk(pre, t0);
    let pre2 = pre + ch;
    assert(destream_text(ts, pre) == destream_text(ts.drop_first(), pre2));
    lemma_destream_keeps_prefix(ts.drop_first(), pre2);
    lemma_unsigned_text_shape(v0);
    assert(ch == maybe_space(pre) + nt);
    assert(s[i] == pre2[i]) by {
        assert(s.take(pre2.len() as int)[i] == pre2[i]);
    }
    assert(s[i] == ' ');
    assert(s.take(i + 1) =~= pre.push(' '));
    assert(chunk(pre.push(' '), t0) =~= nt);
    assert(destream_text(ts.drop_first(), pre.push(' ') + chunk(pre.push(' '), t0))
        == destream_text(ts.drop_first(), pre2)) by {
        assert(pre.push(' ') + chunk(pre.push(' '), t0) =~= pre2);
    }
}

/// In the rendering, when nothing fusable precedes, the next literal's
/// numeral text stands directly at the scan position: it is one maximal
/// numeral run, and it parses back to the literal it rendered.
#[verifier::rlimit(100)]
#[verifier::spinoff_prover]
proof fn lemma_unsigned_chunk_facts(s: Seq<char>, i: int, ts: Seq<(Token, Loc)>)
    requires
        0 <= i <= s.len(),
        s == destream_text(ts, s.take(i)),
        forall|k: int|
            0 <= k < ts.len() ==> (#[trigger] ts[k]).0 is NumericLiteral && ((ts[k].0)->NumericLiteral_0@
                is SysUint || (ts[k].0)->NumericLiteral_0@ is Uint),
        ts.len() > 0,
        !(s.take(i).len() > 0 && fusable(s.take(i).last())),
    ensures
        ({
            let v0 = (ts[0].0)->NumericLiteral_0@;
            let j = i + crate::numeric_literal::num_text(v0).len();
            &&& i < j <= s.len()
            &&& is_dec_digit(s[i])
            &&& numeral_end(s, i + 1) == j
            &&& num_lit_spec(s.subrange(i, j)) == Ok::<NumLitV, crate::numeric_literal::NumReason>(
                v0,
            )
            &&& s == destream_text(ts.drop_first(), s.take(j))
        }),
{
    let pre = s.take(i);
    let t0 = ts[0].0;
    let v0 = t0->NumericLiteral_0@;
    let nt = crate::numeric_literal::num_text(v0);
    let ch = chunk(pre, t0);
    let pre2 = pre + ch;
    assert(destream_text(ts, pre) == destream_text(ts.drop_first(), pre2));
    lemma_destream_keeps_prefix(ts.drop_first(), pre2);
    lemma_unsigned_text_shape(v0);
    assert(ch == nt);
    assert(pre2 == s.take(pre2.len() as int));
    assert forall|x: int| 0 <= x < nt.len() implies s[i + x] == nt[x] by {
        assert(s.take(pre2.len() as int)[i + x] == pre2[i + x]);
    }
    let j = i + nt.len();
    assert(is_dec_digit(s[i]));
    if j < s.len() {
        // the next chunk opens with a space: this literal ends in a
        // numeral character, so the rendering separated them
        let ch1 = chunk(pre2, ts.drop_first()[0].0);
        lemma_unsigned_text_shape(ts.drop_first()[0].0->NumericLiteral_0@);
        assert(fusable(pre2.last())) by {
            assert(pre2.last() == nt.last());
        }
        assert(ch1[0] == ' ');
        assert(destream_text(ts.drop_first(), pre2) == destream_text(
            ts.drop_first().drop_first(),
            pre2 + ch1,
        ));
        lemma_destream_keeps_prefix(ts.drop_first().drop_first(), pre2 + ch1);
        assert(s[j] == (pre2 + ch1)[j]) by {
            assert(s.take((pre2 + ch1).len() as int)[j] == (pre2 + ch1)[j]);
        }
        assert(s[j] == ' ');
        assert(!is_numeral_char(s[j]));
    }
    assert forall|x: int| i + 1 <= x < j implies is_numeral_char(#[trigger] s[x]) by {
        assert(s[x] == nt[x - i]);
    }
    lemma_numeral_end_past(s, i + 1, j);
    assert(s.subrange(i, j) =~= nt);
    crate::numeric_literal::lemma_integer_literal_round_trip(v0);
    assert(s.take(j) =~= pre2);
}

/// The scan of a rendered run of unsigned integer literals, from the end
/// of the text built so far: each literal parses back to itself, and the
/// end-of-stream marker follows them.
#[verifier::rlimit(100)]
#[verifier::spinoff_prover]
proof fn lemma_scan_unsigned_run(
    s: Seq<char>,
    i: int,
    line: int,
    col: int,
    acc: Seq<(TokenV, Loc)>,
    ts: Seq<(Token, Loc)>,
)
    requires
        0 <= i <= s.len(),
        s == destream_text(ts, s.take(i)),
        forall|k: int|
            0 <= k < ts.len() ==> (#[trigger] ts[k]).0 is NumericLiteral && ((ts[k].0)->NumericLiteral_0@
                is SysUint || (ts[k].0)->NumericLiteral_0@ is Uint),
    ensures
        ({
            let r = scan(s, i, line, col, acc);
            &&& r is Ok
            &&& r->Ok_0.len() == acc.len() + ts.len() + 1
            &&& r->Ok_0.subrange(0, acc.len() as int) == acc
            &&& forall|k: int|
                0 <= k < ts.len() ==> (#[trigger] r->Ok_0[acc.len() + k]).0 == (ts[k].0)@
            &&& r->Ok_0.last().0 == TokenV::Fixed(Token::EOF)
        }),
    decreases ts.len(), s.len() - i,
{
    let pre = s.take(i);
    if ts.len() == 0 {
        assert(s == pre);
        assert(i == s.len());
        let r = scan(s, i, line, col, acc);
        assert(r->Ok_0.subrange(0, acc.len() as int) =~= acc);
    } else if pre.len() > 0 && fusable(pre.last()) {
        lemma_unsigned_space_facts(s, i, ts);
        lemma_scan_unsigned_run(s, i + 1, line, col + 1, acc, ts);
    } else {
        lemma_unsigned_chunk_facts(s, i, ts);
        let t0 = ts[0].0;
        let v0 = t0->NumericLiteral_0@;
        let nt = crate::numeric_literal::num_text(v0);
        let j = i + nt.len();
        let acc2 = acc.push((TokenV::NumericLiteral(v0), at(line, col + (j - i) - 1)));
        lemma_scan_unsigned_run(s, j, line, col + (j - i), acc2, ts.drop_first());
        let r = scan(s, i, line, col, acc);
        assert(r == scan(s, j, line, col + (j - i), acc2));
        assert(r->Ok_0.subrange(0, acc2.len() as int) == acc2);
        assert(r->Ok_0.subrange(0, acc.len() as int) =~= acc);
        assert(r->Ok_0[acc.len() as int] == acc2[acc.len() as int]) by {
            assert(r->Ok_0.subrange(0, acc2.len() as int)[acc.len() as int] == acc2[acc.len() as int]);
        }
        assert forall|k: int| 0 <= k < ts.len() implies (#[trigger] r->Ok_0[acc.len() + k]).0
            == (ts[k].0)@ by {
            if k > 0 {
                assert(ts.drop_first()[k - 1] == ts[k]);
                assert(r->Ok_0[acc2.len() + (k - 1)].0 == (ts.drop_first()[k - 1].0)@);
            }
        }
    }
}

/// Law: destreaming a stream of unsigned integer literals and tokenizing
/// the rendered text again reproduces exactly those literals, in order,
/// with the end-of-stream marker after them — the reinserted separating
/// spaces keep adjacent numeric literals from merging into one lexeme.
pub proof fn lemma_unsigned_literal_round_trip(ts: Seq<(Token, Loc)>)
    requires
        forall|k: int|
            0 <= k < ts.len() ==> (#[trigger] ts[k]).0 is NumericLiteral && ((ts[k].0)->NumericLiteral_0@
                is SysUint || (ts[k].0)->NumericLiteral_0@ is Uint),
    ensures
        ({
            let r = scan(destream_text(ts, Seq::empty()), 0, 1, 1, Seq::empty());
            &&& r is Ok
            &&& r->Ok_0.len() == ts.len() + 1
            &&& forall|k: int| 0 <= k < ts.len() ==> (#[trigger] r->Ok_0[k]).0 == (ts[k].0)@
            &&& r->Ok_0.last().0 == TokenV::Fixed(Token::EOF)
        }),
{
    let s = destream_text(ts, Seq::empty());
    assert(s.take(0) =~= Seq::<char>::empty());
    lemma_scan_unsigned_run(s, 0, 1, 1, Seq::empty(), ts);
    let r = scan(s, 0, 1, 1, Seq::empty());
    assert forall|k: int| 0 <= k < ts.len() implies (#[trigger] r->Ok_0[k]).0 == (ts[k].0)@ by {
        assert(r->Ok_0[0 + k].0 == (ts[k].0)@);
    }
}

// ---------------------------------------------------------------------------
// Location indicators: a diagnostic picture of a token stream, one
// indicator character per token, planted on a grid of text rows at the
// token's line and column.
// ---------------------------------------------------------------------------

/// The indicator character a token plants: a letter for each payload
/// family, the bracket itself for a bracket, a caret for anything else.
pub open spec fn indicator(t: Token) -> char {
    match t {
        Token::StringLiteral(_) => 's',
        Token::NumericLiteral(_) => 'n',
        Token::Identifier(_) => 'i',
        Token::OpenCurlyBracket => '{',
        Token::CloseCurlyBracket => '}',
        Token::OpenSquareBracket => '[',
        Token::CloseSquareBracket => ']',
        Token::OpenRoundBracket => '(',
        Token::CloseRoundBracket => ')',
        _ => '^',
    }
}

pub open spec fn spaces(n: int) -> Seq<char> {
    Seq::new(n as nat, |i: int| ' ')
}

pub open spec fn blank_rows(n: int) -> Seq<Seq<char>> {
    Seq::new(n as nat, |i: int| Seq::<char>::empty())
}

/// Plants one token's indicator: the grid grows to reach the token's row,
/// the row grows with spaces to reach the token's column, and the
/// indicator is inserted there, shifting what follows it.
pub open spec fn place_indicator(rows: Seq<Seq<char>>, t: Token, l: Loc) -> Seq<Seq<char>> {
    let li = l.line - 1;
    let co = l.col - 1;
    let padded = if rows.len() <= li {
        rows + blank_rows(li + 1 - rows.len())
    } else {
        rows
    };
    let row = padded[li];
    let row2 = if row.len() < co {
        row + spaces(co - row.len())
    } else {
        row
    };
    padded.update(li, row2.take(co) + seq![indicator(t)] + row2.skip(co))
}

/// The indicator grid of a token stream: every token but the newlines
/// plants its indicator, in stream order.
pub open spec fn indicator_rows(ts: Seq<(Token, Loc)>, rows: Seq<Seq<char>>) -> Seq<Seq<char>>
    decreases ts.len(),
{
    if ts.len() == 0 {
        rows
    } else {
        let rows2 = if ts[0].0 == Token::NL {
            rows
        } else {
            place_indicator(rows, ts[0].0, ts[0].1)
        };
        indicator_rows(ts.drop_first(), rows2)
    }
}

/// The rows of the grid joined under newlines.
pub open spec fn join_rows(rows: Seq<Seq<char>>) -> Seq<char>
    decreases rows.len(),
{
    if rows.len() == 0 {
        Seq::empty()
    } else if rows.len() == 1 {
        rows[0]
    } else {
        join_rows(rows.drop_last()) + seq!['\n'] + rows.last()
    }
}

/// The view of a grid of rows.
pub open spec fn rows_view(rs: Seq<Vec<char>>) -> Seq<Seq<char>> {
    Seq::new(rs.len(), |i: int| rs[i]@)
}

fn indicator_exec(t: &Token) -> (c: char)
    ensures
        c == indicator(*t),
{
    match t {
        Token::StringLiteral(_) => 's',
        Token::NumericLiteral(_) => 'n',
        Token::Identifier(_) => 'i',
        Token::OpenCurlyBracket => '{',
        Token::CloseCurlyBracket => '}',
        Token::OpenSquareBracket => '[',
        Token::CloseSquareBracket => ']',
        Token::OpenRoundBracket => '(',
        Token::CloseRoundBracket => ')',
        _ => '^',
    }
}

/// Draws the indicator grid of a token stream as text: one indicator
/// character per token other than a newline, planted at the token's line
/// and column, the rows joined under newlines. Locations must be one-based
/// as the tokenizer stamps them.
#[verifier::loop_isolation(false)]
#[verifier::rlimit(100)]
pub fn destream_loc_indicators(stream: TokenStream) -> (r: String)
    requires
        forall|k: int|
            0 <= k < stream@.len() ==> (#[trigger] stream@[k]).1.line >= 1 && stream@[k].1.col
                >= 1,
    ensures
        r@ == join_rows(indicator_rows(stream@, seq![Seq::<char>::empty()])),
{
    let n = stream.len();
    let mut rows: Vec<Vec<char>> = Vec::new();
    rows.push(Vec::new());
    proof {
        assert(rows_view(rows@) =~= seq![Seq::<char>::empty()]);
        assert(stream@.skip(0) =~= stream@);
    }
    let mut idx: usize = 0;
    while idx < n
        invariant
            idx <= n == stream@.len(),
            indicator_rows(stream@, seq![Seq::<char>::empty()]) == indicator_rows(
                stream@.skip(idx as int),
                rows_view(rows@),
            ),
        decreases n - idx,
    {
        let ghost rest = stream@.skip(idx as int);
        proof {
            assert(rest[0] == stream@[idx as int]);
            assert(rest.drop_first() =~= stream@.skip(idx + 1));
        }
        let pair = &stream[idx];
        if !matches!(&pair.0, Token::NL) {
            let ghost rows0 = rows_view(rows@);
            let ghost target = place_indicator(rows0, stream@[idx as int].0, stream@[idx as int].1);
            let li = pair.1.line - 1;
            let co = pair.1.col - 1;
            proof {
                assert(blank_rows(0) =~= Seq::<Seq<char>>::empty());
                assert(rows0 + blank_rows(0) =~= rows0);
            }
            while rows.len() <= li
                invariant
                    rows_view(rows@) == rows0 + blank_rows(rows@.len() - rows0.len()),
                    rows0.len() <= rows@.len() <= (if rows0.len() <= li {
                        li + 1
                    } else {
                        rows0.len() as int
                    }),
                decreases li + 1 - rows@.len(),
            {
                let ghost before = rows_view(rows@);
                rows.push(Vec::new());
                proof {
                    assert(rows_view(rows@) =~= before.push(Seq::<char>::empty()));
                    assert(before.push(Seq::<char>::empty()) =~= rows0 + blank_rows(
                        rows@.len() - rows0.len(),
                    ));
                }
            }
            let ghost padded = rows_view(rows@);
            proof {
                if rows0.len() <= li {
                    assert(padded =~= rows0 + blank_rows(li + 1 - rows0.len()));
                } else {
                    assert(blank_rows(0) =~= Seq::<Seq<char>>::empty());
                    assert(padded =~= rows0);
                }
            }
            let mut row = rows.remove(li);
            let ghost row0 = row@;
            while row.len() < co
                invariant
                    row@ == row0 + spaces(row@.len() - row0.len()),
                    row0.len() <= row@.len() <= if co > row0.len() {
                        co as int
                    } else {
                        row0.len() as int
                    },
                decreases co - row@.len(),
            {
                proof {
                    assert(row@.push(' ') =~= row0 + spaces(row@.len() + 1 - row0.len()));
                }
                row.push(' ');
            }
            let ghost row2 = row@;
            proof {
                if row0.len() < co {
                    assert(row2 =~= row0 + spaces(co - row0.len()));
                } else {
                    assert(spaces(0) =~= Seq::<char>::empty());
                    assert(row2 =~= row0);
                }
            }
            row.insert(co, indicator_exec(&pair.0));
            proof {
                assert(row@ =~= row2.take(co as int) + seq![indicator(stream@[idx as int].0)]
                    + row2.skip(co as int));
            }
            rows.insert(li, row);
            proof {
                assert(rows_view(rows@) =~= target);
            }
        }
        idx = idx + 1;
    }
    proof {
        assert(stream@.skip(n as int) =~= Seq::<(Token, Loc)>::empty());
    }
    let m = rows.len();
    let mut out: Vec<char> = Vec::new();
    let mut ri: usize = 0;
    while ri < m
        invariant
            ri <= m == rows@.len(),
            out@ == join_rows(rows_view(rows@).take(ri as int)),
        decreases m - ri,
    {
        let ghost grid = rows_view(rows@);
        if ri > 0 {
            out.push('\n');
        }
        let row = &rows[ri];
        let rl = row.len();
        let mut ci: usize = 0;
        let ghost outbase = out@;
        while ci < rl
            invariant
                ci <= rl == row@.len(),
                out@ == outbase + row@.take(ci as int),
            decreases rl - ci,
        {
            out.push(row[ci]);
            assert(out@ =~= outbase + row@.take(ci + 1));
            ci = ci + 1;
        }
        proof {
            assert(row@.take(rl as int) =~= row@);
            assert(grid.take(ri + 1).drop_last() =~= grid.take(ri as int));
            assert(grid.take(ri + 1).last() == grid[ri as int]);
            if ri == 0 {
                assert(out@ =~= grid.take(1)[0]);
            } else {
                assert(out@ =~= join_rows(grid.take(ri as int)) + seq!['\n'] + grid[ri as int]);
            }
        }
        ri = ri + 1;
    }
    proof {
        assert(rows_view(rows@).take(m as int) =~= rows_view(rows@));
    }
    let w = out.len();
    proof {
        assert(out@.subrange(0, w as int) =~= out@);
    }
    build_string(&out, 0, w)
}

/// An exact copy of a token: the payload families are rebuilt around
/// copies of their strings and values, every other variant is itself.
pub fn copy_token(t: &Token) -> (r: Token)
    ensures
        r == *t,
{
    match t {
        Token::Identifier(s) => Token::Identifier(s.clone()),
        Token::NumericLiteral(n) => Token::NumericLiteral(copy_numeric_literal(n)),
        Token::StringLiteral(s) => Token::StringLiteral(s.clone()),
        Token::Comment(s) => Token::Comment(s.clone()),
        Token::Plus => Token::Plus,
        Token::Minus => Token::Minus,
        Token::Times => Token::Times,
        Token::Divide => Token::Divide,
        Token::Upstile => Token::Upstile,
        Token::Downstile => Token::Downstile,
        Token::Star => Token::Star,
        Token::ExclamationMark => Token::ExclamationMark,
        Token::Stile => Token::Stile,
        Token::Log => Token::Log,
        Token::Circle => Token::Circle,
        Token::Domino => Token::Domino,
        Token::UpTack => Token::UpTack,
        Token::DownTack => Token::DownTack,
        Token::QuestionMark => Token::QuestionMark,
        Token::Tilde => Token::Tilde,
        Token::LogicalAND => Token::LogicalAND,
        Token::LogicalOR => Token::LogicalOR,
        Token::LogicalNAND => Token::LogicalNAND,
        Token::LogicalNOR => Token::LogicalNOR,
        Token::LessThan => Token::LessThan,
        Token::GreaterThan => Token::GreaterThan,
        Token::LessThanOrEqualTo => Token::LessThanOrEqualTo,
        Token::GreaterThanOrEqualTo => Token::GreaterThanOrEqualTo,
        Token::Equal => Token::Equal,
        Token::NotEqual => Token::NotEqual,
        Token::EqualUnderbar => Token::EqualUnderbar,
        Token::EqualUnderbarSlash => Token::EqualUnderbarSlash,
        Token::Rho => Token::Rho,
        Token::Comma => Token::Comma,
        Token::CommaBar => Token::CommaBar,
        Token::CircleStile => Token::CircleStile,
        Token::CircleBar => Token::CircleBar,
        Token::Transpose => Token::Transpose,
        Token::UpArrow => Token::UpArrow,
        Token::DownArrow => Token::DownArrow,
        Token::LeftShoe => Token::LeftShoe,
        Token::LeftShoeUnderbar => Token::LeftShoeUnderbar,
        Token::Epsilon => Token::Epsilon,
        Token::Squad => Token::Squad,
        Token::RightShoe => Token::RightShoe,
        Token::Slash => Token::Slash,
        Token::SlashBar => Token::SlashBar,
        Token::Backslash => Token::Backslash,
        Token::BackslashBar => Token::BackslashBar,
        Token::DownShoe => Token::DownShoe,
        Token::UpShoe => Token::UpShoe,
        Token::LeftTack => Token::LeftTack,
        Token::RightTack => Token::RightTack,
        Token::Iota => Token::Iota,
        Token::IotaUnderbar => Token::IotaUnderbar,
        Token::EpsilonUnderbar => Token::EpsilonUnderbar,
        Token::GradeUp => Token::GradeUp,
        Token::GradeDown => Token::GradeDown,
        Token::Diaeresis => Token::Diaeresis,
        Token::TildeDiaeresis => Token::TildeDiaeresis,
        Token::StarDiaeresis => Token::StarDiaeresis,
        Token::Dot => Token::Dot,
        Token::Jot => Token::Jot,
        Token::QuadEqual => Token::QuadEqual,
        Token::JotDiaeresis => Token::JotDiaeresis,
        Token::CircleDieresis => Token::CircleDieresis,
        Token::QuadDiamond => Token::QuadDiamond,
        Token::At => Token::At,
        Token::QuadColon => Token::QuadColon,
        Token::LeftArrow => Token::LeftArrow,
        Token::Zilde => Token::Zilde,
        Token::Hydrant => Token::Hydrant,
        Token::Thorn => Token::Thorn,
        Token::Diamond => Token::Diamond,
        Token::Del => Token::Del,
        Token::Alpha => Token::Alpha,
        Token::Omega => Token::Omega,
        Token::Colon => Token::Colon,
        Token::OpenRoundBracket => Token::OpenRoundBracket,
        Token::OpenSquareBracket => Token::OpenSquareBracket,
        Token::OpenCurlyBracket => Token::OpenCurlyBracket,
        Token::CloseRoundBracket => Token::CloseRoundBracket,
        Token::CloseSquareBracket => Token::CloseSquareBracket,
        Token::CloseCurlyBracket => Token::CloseCurlyBracket,
        Token::NL => Token::NL,
        Token::EOF => Token::EOF,
    }
}

fn copy_float_lit(f: &FloatLit) -> (r: FloatLit)
    ensures
        r == *f,
{
    let c = FloatLit { negative: f.negative, magnitude: f.magnitude.clone(), exponent: f.exponent };
    proof {
        assert(c.magnitude@ == f.magnitude@);
    }
    c
}

fn copy_numeric_literal(n: &NumericLiteral) -> (r: NumericLiteral)
    ensures
        r == *n,
{
    match n {
        NumericLiteral::Complex(a, b) => NumericLiteral::Complex(copy_float_lit(a), copy_float_lit(b)),
        NumericLiteral::Float(v, f) => NumericLiteral::Float(*v, copy_float_lit(f)),
        NumericLiteral::SysUint(x) => NumericLiteral::SysUint(*x),
        NumericLiteral::Uint(v, x) => NumericLiteral::Uint(*v, *x),
        NumericLiteral::SysInt(x) => NumericLiteral::SysInt(*x),
        NumericLiteral::Int(v, x) => NumericLiteral::Int(*v, *x),
        NumericLiteral::Auto(f) => NumericLiteral::Auto(copy_float_lit(f)),
        NumericLiteral::Boolean(b) => NumericLiteral::Boolean(*b),
    }
}

} // verus!
