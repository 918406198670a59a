//! The lexer: source text to a token stream with byte spans.
//!
//! The source is modelled as its UTF-8 byte sequence, so spans are byte
//! offsets. The language itself is ASCII: ASCII whitespace separates
//! tokens, `//` starts a comment running to end of line, identifiers and
//! numbers are ASCII runs, and any other byte is an "unexpected character"
//! error. Lexing is fail-fast: the first error aborts the whole stream.

use vstd::prelude::*;

use crate::token::{Span, Token, TokenKind, TokenKindV, TokenV};
use vstd::string::StringSliceAdditionalSpecFns;

verus! {

/// A lexical error, carrying the byte span at which it arose.
#[derive(Debug, Clone, Copy, PartialEq, Eq, Structural)]
pub enum LexError {
    UnexpectedChar { ch: char, span: Span },
    InvalidNumber { span: Span },
    UnterminatedComment { span: Span },
}

/// ASCII whitespace: space, tab, line feed, vertical tab, form feed,
/// carriage return.
pub open spec fn is_ws(b: u8) -> bool {
    b == ' ' as u8 || (0x09 <= b <= 0x0d)
}

/// An ASCII decimal digit.
pub open spec fn is_digit_byte(b: u8) -> bool {
    '0' as u8 <= b <= '9' as u8
}

/// An ASCII letter or underscore: what may start an identifier.
pub open spec fn is_ident_start_byte(b: u8) -> bool {
    ('a' as u8 <= b <= 'z' as u8) || ('A' as u8 <= b <= 'Z' as u8) || b == '_' as u8
}

/// What may continue an identifier: a letter, digit or underscore.
pub open spec fn is_ident_cont_byte(b: u8) -> bool {
    is_ident_start_byte(b) || is_digit_byte(b)
}

/// The ASCII bytes of a run, read as characters.
pub open spec fn chars_of(bs: Seq<u8>) -> Seq<char> {
    bs.map_values(|b: u8| b as char)
}

/// The index of the first byte at or after `pos` where the next token can
/// start: skips whitespace and, while `in_comment`, everything up to the
/// end of the line.
pub open spec fn scan_start(bs: Seq<u8>, pos: nat, in_comment: bool) -> nat
    decreases bs.len() - pos,
{
    if pos >= bs.len() {
        pos
    } else if in_comment {
        if bs[pos as int] == '\n' as u8 {
            scan_start(bs, (pos + 1) as nat, false)
        } else {
            scan_start(bs, (pos + 1) as nat, true)
        }
    } else if is_ws(bs[pos as int]) {
        scan_start(bs, (pos + 1) as nat, false)
    } else if bs[pos as int] == '/' as u8 && pos + 1 < bs.len() && bs[pos + 1 as int] == '/' as u8 {
        scan_start(bs, (pos + 2) as nat, true)
    } else {
        pos
    }
}

/// The index just past the run of digit bytes starting at `pos`.
pub open spec fn digits_end(bs: Seq<u8>, pos: nat) -> nat
    decreases bs.len() - pos,
{
    if pos < bs.len() && is_digit_byte(bs[pos as int]) {
        digits_end(bs, (pos + 1) as nat)
    } else {
        pos
    }
}

/// The index just past the run of identifier bytes starting at `pos`.
pub open spec fn ident_end(bs: Seq<u8>, pos: nat) -> nat
    decreases bs.len() - pos,
{
    if pos < bs.len() && is_ident_cont_byte(bs[pos as int]) {
        ident_end(bs, (pos + 1) as nat)
    } else {
        pos
    }
}

/// The numeric value of a run of ASCII digits.
pub open spec fn digits_val(ds: Seq<u8>) -> int
    decreases ds.len(),
{
    if ds.len() == 0 {
        0
    } else {
        digits_val(ds.drop_last()) * 10 + (ds.last() - '0' as u8)
    }
}

/// The token kind of an identifier run: one of the six keywords, the
/// reserved type name `Int`, or an identifier carrying its characters.
pub open spec fn ident_kind(run: Seq<u8>) -> TokenKindV {
    if run == seq!['l' as u8, 'e' as u8, 't' as u8] {
        TokenKindV::Let
    } else if run == seq!['f' as u8, 'n' as u8] {
        TokenKindV::Fn
    } else if run == seq!['i' as u8, 'f' as u8] {
        TokenKindV::If
    } else if run == seq!['e' as u8, 'l' as u8, 's' as u8, 'e' as u8] {
        TokenKindV::Else
    } else if run == seq!['w' as u8, 'h' as u8, 'i' as u8, 'l' as u8, 'e' as u8] {
        TokenKindV::While
    } else if run == seq!['r' as u8, 'e' as u8, 't' as u8, 'u' as u8, 'r' as u8, 'n' as u8] {
        TokenKindV::Return
    } else if run == seq!['I' as u8, 'n' as u8, 't' as u8] {
        TokenKindV::IntType
    } else {
        TokenKindV::Ident(chars_of(run))
    }
}

/// The kind of the bytes that form a one-byte token on their own.
pub open spec fn single_kind(b: u8) -> Option<TokenKindV> {
    if b == '(' as u8 {
        Some(TokenKindV::LParen)
    } else if b == ')' as u8 {
        Some(TokenKindV::RParen)
    } else if b == '{' as u8 {
        Some(TokenKindV::LBrace)
    } else if b == '}' as u8 {
        Some(TokenKindV::RBrace)
    } else if b == ';' as u8 {
        Some(TokenKindV::Semicolon)
    } else if b == '+' as u8 {
        Some(TokenKindV::Plus)
    } else if b == ':' as u8 {
        Some(TokenKindV::Colon)
    } else if b == ',' as u8 {
        Some(TokenKindV::Comma)
    } else if b == '*' as u8 {
        Some(TokenKindV::Star)
    } else if b == '%' as u8 {
        Some(TokenKindV::Percentage)
    } else {
        None
    }
}

pub open spec fn mk_span(a: nat, b: nat) -> Span {
    Span { start: a as usize, end: b as usize }
}

pub open spec fn mk_tok(k: TokenKindV, a: nat, b: nat) -> TokenV {
    TokenV { kind: k, span: mk_span(a, b) }
}

/// A two-byte operator if the byte after `start` is `second`, else the
/// one-byte operator.
pub open spec fn two_or_one(
    bs: Seq<u8>,
    start: nat,
    second: u8,
    two: TokenKindV,
    one: TokenKindV,
) -> (TokenV, nat) {
    if start + 1 < bs.len() && bs[start + 1 as int] == second {
        (mk_tok(two, start, start + 2), (start + 2) as nat)
    } else {
        (mk_tok(one, start, start + 1), (start + 1) as nat)
    }
}

/// The next token of `bs` at or after `pos`, and the position just past
/// it; or the first lexical error.
pub open spec fn next_token_s(bs: Seq<u8>, pos: nat) -> Result<(TokenV, nat), LexError> {
    let start = scan_start(bs, pos, false);
    if start >= bs.len() {
        Ok((mk_tok(TokenKindV::Eof, start, start), start))
    } else {
        let b = bs[start as int];
        if single_kind(b) is Some {
            Ok((mk_tok(single_kind(b)->0, start, start + 1), (start + 1) as nat))
        } else if b == '>' as u8 {
            Ok(two_or_one(bs, start, '=' as u8, TokenKindV::GreaterEqual, TokenKindV::Greater))
        } else if b == '<' as u8 {
            Ok(two_or_one(bs, start, '=' as u8, TokenKindV::LessEqual, TokenKindV::Less))
        } else if b == '-' as u8 {
            Ok(two_or_one(bs, start, '>' as u8, TokenKindV::Arrow, TokenKindV::Minus))
        } else if b == '=' as u8 {
            Ok(two_or_one(bs, start, '=' as u8, TokenKindV::EqualEqual, TokenKindV::Equal))
        } else if b == '/' as u8 {
            // after `scan_start` this is never the start of a comment
            Ok((mk_tok(TokenKindV::Slash, start, start + 1), (start + 1) as nat))
        } else if b == '!' as u8 {
            if start + 1 < bs.len() && bs[start + 1 as int] == '=' as u8 {
                Ok((mk_tok(TokenKindV::NotEqual, start, start + 2), (start + 2) as nat))
            } else {
                Err(LexError::UnexpectedChar { ch: '!', span: mk_span(start, start + 1) })
            }
        } else if is_digit_byte(b) {
            let dend = digits_end(bs, (start + 1) as nat);
            let v = digits_val(bs.subrange(start as int, dend as int));
            if v <= i64::MAX {
                Ok((mk_tok(TokenKindV::Int(v as i64), start, dend), dend))
            } else {
                Err(LexError::InvalidNumber { span: mk_span(start, dend) })
            }
        } else if is_ident_start_byte(b) {
            let iend = ident_end(bs, (start + 1) as nat);
            Ok((mk_tok(ident_kind(bs.subrange(start as int, iend as int)), start, iend), iend))
        } else {
            Err(LexError::UnexpectedChar { ch: b as char, span: mk_span(start, start + 1) })
        }
    }
}

/// The whole token stream of `bs` from `pos` on, ending in exactly one
/// end-of-stream token; or the first lexical error.
pub open spec fn lex_from(bs: Seq<u8>, pos: nat) -> Result<Seq<TokenV>, LexError>
    decreases bs.len() - pos,
{
    match next_token_s(bs, pos) {
        Err(e) => Err(e),
        Ok((t, p2)) => {
            if t.kind is Eof {
                Ok(seq![t])
            } else if pos < p2 <= bs.len() {
                match lex_from(bs, p2) {
                    Err(e) => Err(e),
                    Ok(rest) => Ok(seq![t] + rest),
                }
            } else {
                // never reached: a token that is not end-of-stream consumes
                // at least one byte (`lemma_next_token_s_bounds`)
                Err(LexError::InvalidNumber { span: mk_span(pos, pos) })
            }
        },
    }
}

/// The token stream of a whole source text.
pub open spec fn lex_spec(bs: Seq<u8>) -> Result<Seq<TokenV>, LexError> {
    lex_from(bs, 0)
}

pub proof fn lemma_scan_start_bounds(bs: Seq<u8>, pos: nat, in_comment: bool)
    requires
        pos <= bs.len(),
    ensures
        pos <= scan_start(bs, pos, in_comment) <= bs.len(),
    decreases bs.len() - pos,
{
    if pos < bs.len() {
        if in_comment {
            lemma_scan_start_bounds(bs, (pos + 1) as nat, bs[pos as int] != '\n' as u8);
        } else if is_ws(bs[pos as int]) {
            lemma_scan_start_bounds(bs, (pos + 1) as nat, false);
        } else if bs[pos as int] == '/' as u8 && pos + 1 < bs.len() && bs[pos + 1 as int] == '/' as u8 {
            lemma_scan_start_bounds(bs, (pos + 2) as nat, true);
        }
    }
}

pub proof fn lemma_digits_end_bounds(bs: Seq<u8>, pos: nat)
    requires
        pos <= bs.len(),
    ensures
        pos <= digits_end(bs, pos) <= bs.len(),
    decreases bs.len() - pos,
{
    if pos < bs.len() && is_digit_byte(bs[pos as int]) {
        lemma_digits_end_bounds(bs, (pos + 1) as nat);
    }
}

pub proof fn lemma_ident_end_bounds(bs: Seq<u8>, pos: nat)
    requires
        pos <= bs.len(),
    ensures
        pos <= ident_end(bs, pos) <= bs.len(),
    decreases bs.len() - pos,
{
    if pos < bs.len() && is_ident_cont_byte(bs[pos as int]) {
        lemma_ident_end_bounds(bs, (pos + 1) as nat);
    }
}

/// A token that is not end-of-stream consumes at least one byte, and the
/// position past any token stays within the source.
pub proof fn lemma_next_token_s_bounds(bs: Seq<u8>, pos: nat)
    requires
        pos <= bs.len(),
    ensures
        next_token_s(bs, pos) matches Ok((t, p2)) ==> {
            &&& p2 <= bs.len()
            &&& pos <= p2
            &&& (!(t.kind is Eof) ==> pos < p2)
            &&& (t.kind is Eof ==> p2 == scan_start(bs, pos, false))
        },
{
    lemma_scan_start_bounds(bs, pos, false);
    let start = scan_start(bs, pos, false);
    if start < bs.len() {
        let b = bs[start as int];
        if is_digit_byte(b) {
            lemma_digits_end_bounds(bs, (start + 1) as nat);
        } else if is_ident_start_byte(b) {
            lemma_ident_end_bounds(bs, (start + 1) as nat);
        }
    }
}

} // verus!

// The executable lexer.

verus! {

/// Produces tokens lazily, one at a time, from a cursor over the source
/// bytes.
pub struct Lexer<'a> {
    src: &'a [u8],
    pos: usize,
}

impl<'a> Lexer<'a> {
    /// The cursor never runs past the end of the source.
    pub closed spec fn wf(&self) -> bool {
        self.pos <= self.src@.len()
    }

    /// The source bytes this lexer reads.
    pub closed spec fn bytes(&self) -> Seq<u8> {
        self.src@
    }

    /// The current cursor position.
    pub closed spec fn cursor(&self) -> nat {
        self.pos as nat
    }

    pub fn new(src: &'a str) -> (l: Lexer<'a>)
        ensures
            l.wf(),
            l.bytes() == src.spec_bytes(),
            l.cursor() == 0,
    {
        Lexer { src: src.as_bytes(), pos: 0 }
    }

    fn span_from(&self, start: usize) -> (s: Span)
        ensures
            s == (Span { start, end: self.pos }),
    {
        Span { start, end: self.pos }
    }

    /// Whether a byte may start an identifier: an ASCII letter or
    /// underscore.
    pub fn is_ident_start(c: u8) -> (r: bool)
        ensures
            r == is_ident_start_byte(c),
    {
        ('a' as u8 <= c && c <= 'z' as u8) || ('A' as u8 <= c && c <= 'Z' as u8) || c == '_' as u8
    }

    fn is_ws_byte(c: u8) -> (r: bool)
        ensures
            r == is_ws(c),
    {
        c == ' ' as u8 || (0x09 <= c && c <= 0x0d)
    }

    fn is_digit(c: u8) -> (r: bool)
        ensures
            r == is_digit_byte(c),
    {
        '0' as u8 <= c && c <= '9' as u8
    }

    /// Advances the cursor past whitespace and line comments, to the first
    /// byte that can start a token.
    fn skip_trivia(&mut self)
        requires
            old(self).wf(),
        ensures
            final(self).wf(),
            final(self).src == old(self).src,
            final(self).cursor() == scan_start(old(self).bytes(), old(self).cursor(), false),
            final(self).pos < final(self).src@.len() ==> {
                &&& !is_ws(final(self).bytes()[final(self).pos as int])
                &&& !(final(self).bytes()[final(self).pos as int] == '/' as u8
                    && final(self).pos + 1 < final(self).bytes().len()
                    && final(self).bytes()[final(self).pos + 1] == '/' as u8)
            },
    {
        let ghost bs = self.src@;
        let ghost pos0 = self.pos as nat;
        let mut in_comment = false;
        loop
            invariant
                self.wf(),
                self.src@ == bs,
                scan_start(bs, pos0, false) == scan_start(bs, self.pos as nat, in_comment),
            ensures
                self.wf(),
                self.src@ == bs,
                self.pos as nat == scan_start(bs, pos0, false),
                self.pos < bs.len() ==> {
                    &&& !is_ws(bs[self.pos as int])
                    &&& !(bs[self.pos as int] == '/' as u8 && self.pos + 1 < bs.len()
                        && bs[self.pos + 1 as int] == '/' as u8)
                },
            decreases bs.len() - self.pos + (if in_comment { 1int } else { 0int }),
        {
            if self.pos >= self.src.len() {
                break;
            }
            let b = self.src[self.pos];
            if in_comment {
                if b == '\n' as u8 {
                    in_comment = false;
                }
                self.pos = self.pos + 1;
            } else if Lexer::is_ws_byte(b) {
                self.pos = self.pos + 1;
            } else if b == '/' as u8 && self.pos + 1 < self.src.len()
                && self.src[self.pos + 1] == '/' as u8 {
                self.pos = self.pos + 2;
                in_comment = true;
            } else {
                break;
            }
        }
    }

    /// Lexes the run of digits whose first digit was just consumed, as a
    /// 64-bit signed integer; a run that does not fit is an "invalid
    /// number" error spanning the whole run.
    pub fn lex_number(&mut self, first_digit: u8) -> (r: Result<TokenKind, LexError>)
        requires
            old(self).wf(),
            old(self).cursor() >= 1,
            is_digit_byte(first_digit),
            old(self).bytes()[old(self).cursor() - 1] == first_digit,
        ensures
            final(self).wf(),
            final(self).bytes() == old(self).bytes(),
            final(self).cursor() == digits_end(old(self).bytes(), old(self).cursor()),
            ({
                let bs = old(self).bytes();
                let start = old(self).cursor() - 1;
                let dend = digits_end(bs, old(self).cursor());
                let v = digits_val(bs.subrange(start as int, dend as int));
                if v <= i64::MAX {
                    r == Ok::<TokenKind, LexError>(TokenKind::Int(v as i64))
                } else {
                    r == Err::<TokenKind, LexError>(
                        LexError::InvalidNumber { span: mk_span(start as nat, dend) },
                    )
                }
            }),
    {
        let ghost bs = self.src@;
        let start = self.pos - 1;
        let ghost entry = self.pos as nat;
        let mut value: i64 = (first_digit - '0' as u8) as i64;
        let mut overflow = false;
        proof {
            assert(bs.subrange(start as int, self.pos as int) =~= seq![first_digit]);
            assert(seq![first_digit].drop_last() =~= Seq::<u8>::empty());
            assert(digits_val(Seq::<u8>::empty()) == 0);
            assert(digits_val(seq![first_digit]) == first_digit - '0' as u8);
        }
        loop
            invariant
                self.wf(),
                self.src@ == bs,
                start + 1 <= self.pos <= bs.len(),
                digits_end(bs, entry) == digits_end(bs, self.pos as nat),
                forall|i: int| start <= i < self.pos ==> is_digit_byte(#[trigger] bs[i]),
                ({
                    let pref = bs.subrange(start as int, self.pos as int);
                    &&& (!overflow ==> 0 <= value && value == digits_val(pref))
                    &&& (overflow ==> digits_val(pref) > i64::MAX)
                }),
            ensures
                self.wf(),
                self.src@ == bs,
                start + 1 <= self.pos <= bs.len(),
                self.pos as nat == digits_end(bs, entry),
                ({
                    let pref = bs.subrange(start as int, self.pos as int);
                    &&& (!overflow ==> 0 <= value && value == digits_val(pref))
                    &&& (overflow ==> digits_val(pref) > i64::MAX)
                }),
            decreases bs.len() - self.pos,
        {
            if self.pos >= self.src.len() {
                break;
            }
            let b = self.src[self.pos];
            if !Lexer::is_digit(b) {
                break;
            }
            let ghost pref = bs.subrange(start as int, self.pos as int);
            let d = b - '0' as u8;
            proof {
                assert(bs.subrange(start as int, self.pos + 1) =~= pref.push(b));
                assert(pref.push(b).drop_last() =~= pref);
                assert(digits_val(pref.push(b)) == digits_val(pref) * 10 + d);
            }
            if !overflow {
                if value <= (i64::MAX - d as i64) / 10 {
                    proof {
                        assert(value * 10 <= ((i64::MAX - d) / 10) * 10);
                        assert(((i64::MAX - d) / 10) * 10 <= i64::MAX - d);
                    }
                    value = value * 10 + d as i64;
                } else {
                    proof {
                        assert(value >= (i64::MAX - d) / 10 + 1);
                        assert(value * 10 >= ((i64::MAX - d) / 10 + 1) * 10);
                        assert(((i64::MAX - d) / 10) * 10 > i64::MAX - d - 10);
                    }
                    overflow = true;
                }
            }
            self.pos = self.pos + 1;
        }
        if overflow {
            Err(LexError::InvalidNumber { span: self.span_from(start) })
        } else {
            Ok(TokenKind::Int(value))
        }
    }

    /// Lexes the identifier or keyword whose first byte was just consumed.
    pub fn lex_ident(&mut self, first_char: u8) -> (k: TokenKind)
        requires
            old(self).wf(),
            old(self).cursor() >= 1,
            is_ident_start_byte(first_char),
            old(self).bytes()[old(self).cursor() - 1] == first_char,
        ensures
            final(self).wf(),
            final(self).bytes() == old(self).bytes(),
            final(self).cursor() == ident_end(old(self).bytes(), old(self).cursor()),
            k@ == ident_kind(
                old(self).bytes().subrange(
                    old(self).cursor() - 1,
                    ident_end(old(self).bytes(), old(self).cursor()) as int,
                ),
            ),
    {
        let ghost bs = self.src@;
        let start = self.pos - 1;
        let ghost entry = self.pos as nat;
        loop
            invariant
                self.wf(),
                self.src@ == bs,
                start + 1 <= self.pos <= bs.len(),
                ident_end(bs, entry) == ident_end(bs, self.pos as nat),
                bs[start as int] == first_char,
                forall|i: int| start < i < self.pos ==> is_ident_cont_byte(#[trigger] bs[i]),
            ensures
                self.wf(),
                self.src@ == bs,
                start + 1 <= self.pos <= bs.len(),
                self.pos as nat == ident_end(bs, entry),
                bs[start as int] == first_char,
                forall|i: int| start < i < self.pos ==> is_ident_cont_byte(#[trigger] bs[i]),
            decreases bs.len() - self.pos,
        {
            if self.pos >= self.src.len() {
                break;
            }
            let b = self.src[self.pos];
            if !(Lexer::is_ident_start(b) || Lexer::is_digit(b)) {
                break;
            }
            self.pos = self.pos + 1;
        }
        let run = &self.src[start..self.pos];
        proof {
            assert(run@[0] == first_char);
        }
        keyword_or_ident(run)
    }

    /// Produces the next token, skipping whitespace and comments before it.
    pub fn next_token(&mut self) -> (r: Result<Token, LexError>)
        requires
            old(self).wf(),
        ensures
            final(self).wf(),
            final(self).bytes() == old(self).bytes(),
            (match r {
                Ok(t) => next_token_s(old(self).bytes(), old(self).cursor())
                    == Ok::<(TokenV, nat), LexError>((t@, final(self).cursor())),
                Err(e) => next_token_s(old(self).bytes(), old(self).cursor())
                    == Err::<(TokenV, nat), LexError>(e),
            }),
    {
        let ghost bs = self.src@;
        let ghost pos0 = self.pos as nat;
        self.skip_trivia();
        let start = self.pos;
        if self.pos >= self.src.len() {
            return Ok(Token { kind: TokenKind::Eof, span: Span { start, end: start } });
        }
        let b = self.src[self.pos];
        self.pos = self.pos + 1;
        let kind = if b == '(' as u8 {
            TokenKind::LParen
        } else if b == ')' as u8 {
            TokenKind::RParen
        } else if b == '{' as u8 {
            TokenKind::LBrace
        } else if b == '}' as u8 {
            TokenKind::RBrace
        } else if b == ';' as u8 {
            TokenKind::Semicolon
        } else if b == '+' as u8 {
            TokenKind::Plus
        } else if b == ':' as u8 {
            TokenKind::Colon
        } else if b == ',' as u8 {
            TokenKind::Comma
        } else if b == '*' as u8 {
            TokenKind::Star
        } else if b == '%' as u8 {
            TokenKind::Percentage
        } else if b == '>' as u8 {
            if self.pos < self.src.len() && self.src[self.pos] == '=' as u8 {
                self.pos = self.pos + 1;
                TokenKind::GreaterEqual
            } else {
                TokenKind::Greater
            }
        } else if b == '<' as u8 {
            if self.pos < self.src.len() && self.src[self.pos] == '=' as u8 {
                self.pos = self.pos + 1;
                TokenKind::LessEqual
            } else {
                TokenKind::Less
            }
        } else if b == '-' as u8 {
            if self.pos < self.src.len() && self.src[self.pos] == '>' as u8 {
                self.pos = self.pos + 1;
                TokenKind::Arrow
            } else {
                TokenKind::Minus
            }
        } else if b == '=' as u8 {
            if self.pos < self.src.len() && self.src[self.pos] == '=' as u8 {
                self.pos = self.pos + 1;
                TokenKind::EqualEqual
            } else {
                TokenKind::Equal
            }
        } else if b == '/' as u8 {
            // a `//` comment was already skipped, so this is division
            TokenKind::Slash
        } else if b == '!' as u8 {
            if self.pos < self.src.len() && self.src[self.pos] == '=' as u8 {
                self.pos = self.pos + 1;
                TokenKind::NotEqual
            } else {
                return Err(LexError::UnexpectedChar { ch: '!', span: self.span_from(start) });
            }
        } else if Lexer::is_digit(b) {
            match self.lex_number(b) {
                Ok(k) => k,
                Err(e) => {
                    return Err(e);
                },
            }
        } else if Lexer::is_ident_start(b) {
            self.lex_ident(b)
        } else {
            return Err(LexError::UnexpectedChar { ch: b as char, span: self.span_from(start) });
        };
        Ok(Token { kind, span: self.span_from(start) })
    }
}

/// Relies on `String::from_utf8`: ASCII bytes decode to exactly their
/// characters; decoding ASCII never fails.
#[verifier::external_body]
pub(crate) fn ascii_string(bytes: &[u8]) -> (r: String)
    requires
        forall|i: int| 0 <= i < bytes@.len() ==> bytes@[i] < 128,
    ensures
        r@ == chars_of(bytes@),
{
    String::from_utf8(bytes.to_vec()).unwrap_or_default()
}

/// Turns an identifier run into its keyword token, the reserved type name
/// `Int`, or an identifier token carrying its name.
fn keyword_or_ident(run: &[u8]) -> (k: TokenKind)
    requires
        run@.len() >= 1,
        is_ident_start_byte(run@[0]),
        forall|i: int| 0 < i < run@.len() ==> is_ident_cont_byte(#[trigger] run@[i]),
    ensures
        k@ == ident_kind(run@),
{
    if run.len() == 3 && run[0] == 'l' as u8 && run[1] == 'e' as u8 && run[2] == 't' as u8 {
        proof {
            assert(run@ =~= seq!['l' as u8, 'e' as u8, 't' as u8]);
        }
        TokenKind::Let
    } else if run.len() == 2 && run[0] == 'f' as u8 && run[1] == 'n' as u8 {
        proof {
            assert(run@ =~= seq!['f' as u8, 'n' as u8]);
        }
        TokenKind::Fn
    } else if run.len() == 2 && run[0] == 'i' as u8 && run[1] == 'f' as u8 {
        proof {
            assert(run@ =~= seq!['i' as u8, 'f' as u8]);
        }
        TokenKind::If
    } else if run.len() == 4 && run[0] == 'e' as u8 && run[1] == 'l' as u8 && run[2] == 's' as u8
        && run[3] == 'e' as u8 {
        proof {
            assert(run@ =~= seq!['e' as u8, 'l' as u8, 's' as u8, 'e' as u8]);
        }
        TokenKind::Else
    } else if run.len() == 5 && run[0] == 'w' as u8 && run[1] == 'h' as u8 && run[2] == 'i' as u8
        && run[3] == 'l' as u8 && run[4] == 'e' as u8 {
        proof {
            assert(run@ =~= seq!['w' as u8, 'h' as u8, 'i' as u8, 'l' as u8, 'e' as u8]);
        }
        TokenKind::While
    } else if run.len() == 6 && run[0] == 'r' as u8 && run[1] == 'e' as u8 && run[2] == 't' as u8
        && run[3] == 'u' as u8 && run[4] == 'r' as u8 && run[5] == 'n' as u8 {
        proof {
            assert(run@ =~= seq!['r' as u8, 'e' as u8, 't' as u8, 'u' as u8, 'r' as u8, 'n' as u8]);
        }
        TokenKind::Return
    } else if run.len() == 3 && run[0] == 'I' as u8 && run[1] == 'n' as u8 && run[2] == 't' as u8 {
        proof {
            assert(run@ =~= seq!['I' as u8, 'n' as u8, 't' as u8]);
        }
        TokenKind::IntType
    } else {
        proof {
            assert(forall|i: int| 0 <= i < run@.len() ==> run@[i] < 128);
        }
        TokenKind::Ident(ascii_string(run))
    }
}

/// Lexes a whole source text into its token stream, ending in exactly one
/// end-of-stream token, or stops at the first lexical error.
pub fn lex_file(src: &str) -> (r: Result<Vec<Token>, LexError>)
    ensures
        (match r {
            Ok(toks) => lex_spec(src.spec_bytes()) == Ok::<Seq<TokenV>, LexError>(toks.deep_view()),
            Err(e) => lex_spec(src.spec_bytes()) == Err::<Seq<TokenV>, LexError>(e),
        }),
{
    let ghost bs = src.spec_bytes();
    let mut lexer = Lexer::new(src);
    let mut tokens: Vec<Token> = Vec::new();
    proof {
        assert(tokens.deep_view() =~= Seq::<TokenV>::empty());
        assert(forall|rest: Seq<TokenV>| #[trigger] (tokens.deep_view() + rest) =~= rest);
    }
    loop
        invariant
            bs == src.spec_bytes(),
            lexer.wf(),
            lexer.bytes() == bs,
            (match lex_from(bs, lexer.cursor()) {
                Ok(rest) => lex_from(bs, 0) == Ok::<Seq<TokenV>, LexError>(
                    tokens.deep_view() + rest,
                ),
                Err(e) => lex_from(bs, 0) == Err::<Seq<TokenV>, LexError>(e),
            }),
        decreases bs.len() - lexer.cursor() + 1,
    {
        let ghost pos_before = lexer.cursor();
        proof {
            lemma_next_token_s_bounds(bs, pos_before);
        }
        let token = match lexer.next_token() {
            Ok(t) => t,
            Err(e) => {
                return Err(e);
            },
        };
        let is_eof = matches!(token.kind, TokenKind::Eof);
        let ghost old_tokens = tokens.deep_view();
        tokens.push(token);
        proof {
            assert(tokens.deep_view() =~= old_tokens.push(token@));
        }
        if is_eof {
            proof {
                assert(token@.kind is Eof);
                assert(lex_from(bs, pos_before) == Ok::<Seq<TokenV>, LexError>(seq![token@]));
                assert(old_tokens + seq![token@] =~= tokens.deep_view());
            }
            return Ok(tokens);
        }
        proof {
            assert(!(token@.kind is Eof));
            assert(match lex_from(bs, lexer.cursor()) {
                Ok(rest) => lex_from(bs, pos_before) == Ok::<Seq<TokenV>, LexError>(
                    seq![token@] + rest,
                ),
                Err(e) => lex_from(bs, pos_before) == Err::<Seq<TokenV>, LexError>(e),
            });
            assert(forall|rest: Seq<TokenV>|
                old_tokens + (seq![token@] + rest) =~= tokens.deep_view() + rest);
        }
    }
}

} // verus!

// Laws of the lexer.

verus! {

/// All-digit input scans to its end.
proof fn lemma_digits_end_all(bs: Seq<u8>, pos: nat)
    requires
        pos <= bs.len(),
        forall|i: int| 0 <= i < bs.len() ==> is_digit_byte(#[trigger] bs[i]),
    ensures
        digits_end(bs, pos) == bs.len(),
    decreases bs.len() - pos,
{
    if pos < bs.len() {
        lemma_digits_end_all(bs, (pos + 1) as nat);
    }
}

/// For every sequence of ASCII digits whose value is within the 64-bit
/// signed range, lexing it in isolation yields exactly one integer token
/// with that value, followed by the end-of-stream token.
pub proof fn lemma_lex_digits(bs: Seq<u8>)
    requires
        bs.len() >= 1,
        forall|i: int| 0 <= i < bs.len() ==> is_digit_byte(#[trigger] bs[i]),
        digits_val(bs) <= i64::MAX,
    ensures
        lex_spec(bs) == Ok::<Seq<TokenV>, LexError>(
            seq![
                mk_tok(TokenKindV::Int(digits_val(bs) as i64), 0, bs.len()),
                mk_tok(TokenKindV::Eof, bs.len(), bs.len()),
            ],
        ),
{
    let b0 = bs[0];
    assert(!is_ws(b0));
    assert(single_kind(b0) is None);
    assert(scan_start(bs, 0, false) == 0);
    lemma_digits_end_all(bs, 1);
    assert(bs.subrange(0, bs.len() as int) =~= bs);
    let t = mk_tok(TokenKindV::Int(digits_val(bs) as i64), 0, bs.len());
    assert(next_token_s(bs, 0) == Ok::<(TokenV, nat), LexError>((t, bs.len())));
    assert(scan_start(bs, bs.len(), false) == bs.len());
    let eof = mk_tok(TokenKindV::Eof, bs.len(), bs.len());
    assert(next_token_s(bs, bs.len()) == Ok::<(TokenV, nat), LexError>((eof, bs.len())));
    assert(lex_from(bs, bs.len()) == Ok::<Seq<TokenV>, LexError>(seq![eof]));
    assert(lex_from(bs, 0) == Ok::<Seq<TokenV>, LexError>(seq![t] + seq![eof]));
    assert(seq![t] + seq![eof] =~= seq![t, eof]);
}

} // verus!
