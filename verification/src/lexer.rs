//! The lexer: turns source bytes into a lossless sequence of tokens,
//! including `Skip`, `Comment` and in-band `Error` markers.
//!
//! The behaviour is specified by `spec_tokens`, a specification-level
//! scanner over the byte sequence; the executable `Lexer` is proved to
//! produce exactly that token sequence.

use crate::number::{NumberValue, Rat};
use crate::token::{Span, Token, TokenKind, TokenKindView, TokenView};
use vstd::prelude::*;

verus! {

/// A lexical failure, carried in-band as an `Error` token.
#[derive(Debug, Clone, Copy, PartialEq, Eq)]
pub enum LexError {
    /// A string literal reached end of input before its closing quote.
    UnterminatedString,
    /// A character that starts no token.
    UnrecognizedCharacter,
    /// A number literal whose exact value does not fit the numeric domain.
    NumberTooLarge,
}

// Byte values of the characters the scanner inspects.
pub const NUL: u8 = 0;
pub const TAB: u8 = 9;
pub const NEWLINE: u8 = 10;
pub const CARRIAGE_RETURN: u8 = 13;
pub const SPACE: u8 = 32;
pub const BANG_BYTE: u8 = 33;
pub const QUOTE_BYTE: u8 = 34;
pub const LEFT_PAREN_BYTE: u8 = 40;
pub const RIGHT_PAREN_BYTE: u8 = 41;
pub const STAR_BYTE: u8 = 42;
pub const PLUS_BYTE: u8 = 43;
pub const COMMA_BYTE: u8 = 44;
pub const MINUS_BYTE: u8 = 45;
pub const DOT_BYTE: u8 = 46;
pub const SLASH_BYTE: u8 = 47;
pub const ZERO_BYTE: u8 = 48;
pub const NINE_BYTE: u8 = 57;
pub const COLON_BYTE: u8 = 58;
pub const SEMICOLON_BYTE: u8 = 59;
pub const LESS_BYTE: u8 = 60;
pub const EQUAL_BYTE: u8 = 61;
pub const GREATER_BYTE: u8 = 62;
pub const QUESTION_BYTE: u8 = 63;
pub const UPPER_A_BYTE: u8 = 65;
pub const UPPER_Z_BYTE: u8 = 90;
pub const LOWER_A_BYTE: u8 = 97;
pub const LOWER_Z_BYTE: u8 = 122;
pub const LEFT_BRACE_BYTE: u8 = 123;
pub const RIGHT_BRACE_BYTE: u8 = 125;

// ---------------------------------------------------------------------
// Character classes and cursor primitives, at the specification level.
// ---------------------------------------------------------------------

pub open spec fn is_digit(c: u8) -> bool {
    ZERO_BYTE <= c && c <= NINE_BYTE
}

/// ASCII letters and digits continue an identifier.
pub open spec fn is_alnum(c: u8) -> bool {
    is_digit(c) || (LOWER_A_BYTE <= c && c <= LOWER_Z_BYTE) || (UPPER_A_BYTE <= c && c <= UPPER_Z_BYTE)
}

/// The cursor is at the end of input: past the buffer, or at a NUL byte,
/// which acts as an end-of-input sentinel.
pub open spec fn at_end(s: Seq<u8>, i: int) -> bool {
    i >= s.len() || s[i] == NUL
}

/// The end of the digit run that starts at `i`.
pub open spec fn digits_end(s: Seq<u8>, i: int) -> int
    decreases s.len() - i,
{
    if i < s.len() && is_digit(s[i]) {
        digits_end(s, i + 1)
    } else {
        i
    }
}

pub proof fn lemma_digits_end(s: Seq<u8>, i: int)
    requires
        0 <= i <= s.len(),
    ensures
        i <= digits_end(s, i) <= s.len(),
        forall|j: int| i <= j < digits_end(s, i) ==> is_digit(#[trigger] s[j]),
        digits_end(s, i) < s.len() ==> !is_digit(s[digits_end(s, i)]),
    decreases s.len() - i,
{
    if i < s.len() && is_digit(s[i]) {
        lemma_digits_end(s, i + 1);
    }
}

/// The end of the letters-and-digits run that starts at `i`.
pub open spec fn ident_end(s: Seq<u8>, i: int) -> int
    decreases s.len() - i,
{
    if i < s.len() && is_alnum(s[i]) {
        ident_end(s, i + 1)
    } else {
        i
    }
}

pub proof fn lemma_ident_end(s: Seq<u8>, i: int)
    requires
        0 <= i <= s.len(),
    ensures
        i <= ident_end(s, i) <= s.len(),
        forall|j: int| i <= j < ident_end(s, i) ==> is_alnum(#[trigger] s[j]),
        ident_end(s, i) < s.len() ==> !is_alnum(s[ident_end(s, i)]),
    decreases s.len() - i,
{
    if i < s.len() && is_alnum(s[i]) {
        lemma_ident_end(s, i + 1);
    }
}

/// The first position at or after `i` holding `stop` or the end of
/// input, whichever comes first.
pub open spec fn run_until(s: Seq<u8>, i: int, stop: u8) -> int
    decreases s.len() - i,
{
    if i < s.len() && s[i] != stop && s[i] != NUL {
        run_until(s, i + 1, stop)
    } else {
        i
    }
}

pub proof fn lemma_run_until(s: Seq<u8>, i: int, stop: u8)
    requires
        0 <= i <= s.len(),
    ensures
        i <= run_until(s, i, stop) <= s.len(),
        forall|j: int| i <= j < run_until(s, i, stop)
            ==> #[trigger] s[j] != stop && s[j] != NUL,
        run_until(s, i, stop) < s.len()
            ==> s[run_until(s, i, stop)] == stop || s[run_until(s, i, stop)] == NUL,
    decreases s.len() - i,
{
    if i < s.len() && s[i] != stop && s[i] != NUL {
        lemma_run_until(s, i + 1, stop);
    }
}

/// The first position at or after `i` where a closing `*/` stands, or
/// the end of input if the block comment is never closed.
pub open spec fn block_comment_end(s: Seq<u8>, i: int) -> int
    decreases s.len() - i,
{
    if i >= s.len() || s[i] == NUL {
        i
    } else if s[i] == STAR_BYTE && i + 1 < s.len() && s[i + 1] == SLASH_BYTE {
        i
    } else {
        block_comment_end(s, i + 1)
    }
}

/// Whether the block comment scan stopped on an actual `*/`.
pub open spec fn block_closed(s: Seq<u8>, r: int) -> bool {
    &&& r < s.len()
    &&& s[r] == STAR_BYTE
    &&& r + 1 < s.len()
    &&& s[r + 1] == SLASH_BYTE
}

pub proof fn lemma_block_comment_end(s: Seq<u8>, i: int)
    requires
        0 <= i <= s.len(),
    ensures
        i <= block_comment_end(s, i) <= s.len(),
        block_comment_end(s, i) < s.len() && !block_closed(s, block_comment_end(s, i))
            ==> s[block_comment_end(s, i)] == NUL,
    decreases s.len() - i,
{
    if i < s.len() && s[i] != NUL && !(s[i] == STAR_BYTE && i + 1 < s.len() && s[i + 1] == SLASH_BYTE) {
        lemma_block_comment_end(s, i + 1);
    }
}

// ---------------------------------------------------------------------
// Number literals: decimal digit runs and their values.
// ---------------------------------------------------------------------

/// The value of the decimal digit run `s[i..j)`.
pub open spec fn digits_val(s: Seq<u8>, i: int, j: int) -> int
    decreases j - i,
{
    if j <= i {
        0
    } else {
        digits_val(s, i, j - 1) * 10 + (s[j - 1] - ZERO_BYTE)
    }
}

/// `10^k`.
pub open spec fn pow10(k: nat) -> int
    decreases k,
{
    if k == 0 {
        1
    } else {
        10 * pow10((k - 1) as nat)
    }
}

pub proof fn lemma_pow10_pos(k: nat)
    ensures
        pow10(k) >= 1,
    decreases k,
{
    if k > 0 {
        lemma_pow10_pos((k - 1) as nat);
    }
}

pub proof fn lemma_pow10_mono(a: nat, b: nat)
    requires
        a <= b,
    ensures
        pow10(a) <= pow10(b),
    decreases b,
{
    if a < b {
        lemma_pow10_mono(a, (b - 1) as nat);
        lemma_pow10_pos((b - 1) as nat);
    }
}

/// The value of a digit run is nonnegative, and below `10^(j-i)`.
pub proof fn lemma_digits_val_bounds(s: Seq<u8>, i: int, j: int)
    requires
        i <= j <= s.len(),
        forall|m: int| i <= m < j ==> is_digit(#[trigger] s[m]),
    ensures
        0 <= digits_val(s, i, j) < pow10((j - i) as nat),
    decreases j - i,
{
    if j <= i {
    } else {
        lemma_digits_val_bounds(s, i, j - 1);
        lemma_pow10_pos((j - i - 1) as nat);
        assert(digits_val(s, i, j) == digits_val(s, i, j - 1) * 10 + (s[j - 1] - ZERO_BYTE));
        assert(digits_val(s, i, j - 1) * 10 + 9 < pow10((j - i) as nat)) by {
            assert(pow10((j - i) as nat) == 10 * pow10((j - i - 1) as nat));
            assert(digits_val(s, i, j - 1) <= pow10((j - i - 1) as nat) - 1);
            assert(digits_val(s, i, j - 1) * 10 <= (pow10((j - i - 1) as nat) - 1) * 10)
                by (nonlinear_arith)
                requires digits_val(s, i, j - 1) <= pow10((j - i - 1) as nat) - 1,
            ;
        }
    }
}

/// A longer digit run has at least the value of any of its prefixes.
pub proof fn lemma_digits_val_mono(s: Seq<u8>, i: int, j: int, j2: int)
    requires
        i <= j <= j2 <= s.len(),
        forall|m: int| i <= m < j2 ==> is_digit(#[trigger] s[m]),
    ensures
        digits_val(s, i, j) <= digits_val(s, i, j2),
    decreases j2 - j,
{
    if j < j2 {
        lemma_digits_val_mono(s, i, j, j2 - 1);
        lemma_digits_val_bounds(s, i, j2 - 1);
        assert(digits_val(s, i, j2 - 1) * 10 >= digits_val(s, i, j2 - 1))
            by (nonlinear_arith)
            requires digits_val(s, i, j2 - 1) >= 0,
        ;
    }
}

// ---------------------------------------------------------------------
// One scanning step, at the specification level.
// ---------------------------------------------------------------------

/// One scanning step: the kind of the token that starts at the cursor,
/// and the cursor position just past it.
pub struct ScanStep {
    pub kind: TokenKindView,
    pub end: int,
}

/// A one-character lookahead step: the two-character kind if the next
/// byte matches, the one-character kind otherwise.
pub open spec fn two_char_step(
    s: Seq<u8>,
    i: int,
    second: u8,
    long: TokenKindView,
    short: TokenKindView,
) -> ScanStep {
    if i + 1 < s.len() && s[i + 1] == second {
        ScanStep { kind: long, end: i + 2 }
    } else {
        ScanStep { kind: short, end: i + 1 }
    }
}

/// A string literal step, for a cursor on the opening quote: the text up
/// to the next quote, or an unterminated-string error if the input ends
/// first.
pub open spec fn string_step(s: Seq<u8>, i: int) -> ScanStep {
    let qe = run_until(s, i + 1, QUOTE_BYTE);
    if qe < s.len() && s[qe] == QUOTE_BYTE {
        ScanStep { kind: TokenKindView::String(s.subrange(i + 1, qe)), end: qe + 1 }
    } else {
        ScanStep { kind: TokenKindView::Error(LexError::UnterminatedString), end: qe }
    }
}

/// A number literal step, for a cursor on a digit: digits, then at most
/// one `.` followed by at least one digit, then digits. The value is the
/// exact rational `num / 10^k` with `k` fraction digits; a value whose
/// parts exceed 64 bits is a lexical error.
pub open spec fn number_step(s: Seq<u8>, i: int) -> ScanStep {
    let ie = digits_end(s, i);
    if ie < s.len() && s[ie] == DOT_BYTE && ie + 1 < s.len() && is_digit(s[ie + 1]) {
        let fe = digits_end(s, ie + 1);
        let den = pow10((fe - (ie + 1)) as nat);
        let num = digits_val(s, i, ie) * den + digits_val(s, ie + 1, fe);
        if num <= i64::MAX && den <= i64::MAX {
            ScanStep { kind: TokenKindView::Number(Rat { num, den }), end: fe }
        } else {
            ScanStep { kind: TokenKindView::Error(LexError::NumberTooLarge), end: fe }
        }
    } else {
        let num = digits_val(s, i, ie);
        if num <= i64::MAX {
            ScanStep { kind: TokenKindView::Number(Rat { num, den: 1 }), end: ie }
        } else {
            ScanStep { kind: TokenKindView::Error(LexError::NumberTooLarge), end: ie }
        }
    }
}

/// The token kind of a word: one of the sixteen reserved words, or an
/// identifier.
pub open spec fn keyword_kind(w: Seq<u8>) -> TokenKindView {
    if w.len() == 3 && w[0] == LOWER_A_BYTE && w[1] == 110 && w[2] == 100 {
        TokenKindView::And
    } else if w.len() == 5 && w[0] == 99 && w[1] == 108 && w[2] == LOWER_A_BYTE && w[3] == 115
        && w[4] == 115 {
        TokenKindView::Class
    } else if w.len() == 4 && w[0] == 101 && w[1] == 108 && w[2] == 115 && w[3] == 101 {
        TokenKindView::Else
    } else if w.len() == 5 && w[0] == 102 && w[1] == LOWER_A_BYTE && w[2] == 108 && w[3] == 115
        && w[4] == 101 {
        TokenKindView::False
    } else if w.len() == 3 && w[0] == 102 && w[1] == 117 && w[2] == 110 {
        TokenKindView::Fun
    } else if w.len() == 3 && w[0] == 102 && w[1] == 111 && w[2] == 114 {
        TokenKindView::For
    } else if w.len() == 2 && w[0] == 105 && w[1] == 102 {
        TokenKindView::If
    } else if w.len() == 3 && w[0] == 110 && w[1] == 105 && w[2] == 108 {
        TokenKindView::Nil
    } else if w.len() == 2 && w[0] == 111 && w[1] == 114 {
        TokenKindView::Or
    } else if w.len() == 5 && w[0] == 112 && w[1] == 114 && w[2] == 105 && w[3] == 110
        && w[4] == 116 {
        TokenKindView::Print
    } else if w.len() == 6 && w[0] == 114 && w[1] == 101 && w[2] == 116 && w[3] == 117
        && w[4] == 114 && w[5] == 110 {
        TokenKindView::Return
    } else if w.len() == 5 && w[0] == 115 && w[1] == 117 && w[2] == 112 && w[3] == 101
        && w[4] == 114 {
        TokenKindView::Super
    } else if w.len() == 4 && w[0] == 116 && w[1] == 104 && w[2] == 105 && w[3] == 115 {
        TokenKindView::This
    } else if w.len() == 4 && w[0] == 116 && w[1] == 114 && w[2] == 117 && w[3] == 101 {
        TokenKindView::True
    } else if w.len() == 3 && w[0] == 118 && w[1] == LOWER_A_BYTE && w[2] == 114 {
        TokenKindView::Var
    } else if w.len() == 5 && w[0] == 119 && w[1] == 104 && w[2] == 105 && w[3] == 108
        && w[4] == 101 {
        TokenKindView::While
    } else {
        TokenKindView::Identifier(w)
    }
}

/// An identifier-or-keyword step, for a cursor on a letter or digit.
pub open spec fn ident_step(s: Seq<u8>, i: int) -> ScanStep {
    let ie = ident_end(s, i);
    ScanStep { kind: keyword_kind(s.subrange(i, ie)), end: ie }
}

/// One full scanning step for a cursor not at the end of input: the kind
/// of the next token and the position just past its lexeme.
pub open spec fn spec_next(s: Seq<u8>, i: int) -> ScanStep
    recommends
        0 <= i < s.len(),
        s[i] != 0,
{
    let c = s[i];
    if c == LEFT_PAREN_BYTE {
        ScanStep { kind: TokenKindView::LeftParen, end: i + 1 }
    } else if c == RIGHT_PAREN_BYTE {
        ScanStep { kind: TokenKindView::RightParen, end: i + 1 }
    } else if c == LEFT_BRACE_BYTE {
        ScanStep { kind: TokenKindView::LeftBrace, end: i + 1 }
    } else if c == RIGHT_BRACE_BYTE {
        ScanStep { kind: TokenKindView::RightBrace, end: i + 1 }
    } else if c == COMMA_BYTE {
        ScanStep { kind: TokenKindView::Comma, end: i + 1 }
    } else if c == DOT_BYTE {
        ScanStep { kind: TokenKindView::Dot, end: i + 1 }
    } else if c == MINUS_BYTE {
        ScanStep { kind: TokenKindView::Minus, end: i + 1 }
    } else if c == PLUS_BYTE {
        ScanStep { kind: TokenKindView::Plus, end: i + 1 }
    } else if c == SEMICOLON_BYTE {
        ScanStep { kind: TokenKindView::SemiColon, end: i + 1 }
    } else if c == STAR_BYTE {
        ScanStep { kind: TokenKindView::Star, end: i + 1 }
    } else if c == QUESTION_BYTE {
        ScanStep { kind: TokenKindView::QuestionMark, end: i + 1 }
    } else if c == COLON_BYTE {
        ScanStep { kind: TokenKindView::Colon, end: i + 1 }
    } else if c == BANG_BYTE {
        two_char_step(s, i, EQUAL_BYTE, TokenKindView::BangEqual, TokenKindView::Bang)
    } else if c == EQUAL_BYTE {
        two_char_step(s, i, EQUAL_BYTE, TokenKindView::EqualEqual, TokenKindView::Equal)
    } else if c == GREATER_BYTE {
        two_char_step(s, i, EQUAL_BYTE, TokenKindView::GreaterEqual, TokenKindView::Greater)
    } else if c == LESS_BYTE {
        two_char_step(s, i, EQUAL_BYTE, TokenKindView::LessEqual, TokenKindView::Less)
    } else if c == SLASH_BYTE {
        if i + 1 < s.len() && s[i + 1] == SLASH_BYTE {
            let ce = run_until(s, i + 2, NEWLINE);
            ScanStep { kind: TokenKindView::Comment(s.subrange(i + 2, ce)), end: ce }
        } else if i + 1 < s.len() && s[i + 1] == STAR_BYTE {
            let be = block_comment_end(s, i + 2);
            if block_closed(s, be) {
                ScanStep { kind: TokenKindView::Comment(s.subrange(i + 2, be)), end: be + 2 }
            } else {
                ScanStep { kind: TokenKindView::Comment(s.subrange(i + 2, be)), end: be }
            }
        } else {
            ScanStep { kind: TokenKindView::Slash, end: i + 1 }
        }
    } else if c == QUOTE_BYTE {
        string_step(s, i)
    } else if c == NEWLINE || c == CARRIAGE_RETURN || c == TAB || c == SPACE {
        ScanStep { kind: TokenKindView::Skip(c), end: i + 1 }
    } else if is_digit(c) {
        number_step(s, i)
    } else if is_alnum(c) {
        ident_step(s, i)
    } else {
        ScanStep { kind: TokenKindView::Error(LexError::UnrecognizedCharacter), end: i + 1 }
    }
}

/// Every scanning step consumes at least one byte and stays inside the
/// buffer, and produces a well-formed kind.
pub proof fn lemma_spec_next(s: Seq<u8>, i: int)
    requires
        0 <= i < s.len(),
        s[i] != 0,
    ensures
        i < spec_next(s, i).end <= s.len(),
        spec_next(s, i).kind.wf(),
{
    let c = s[i];
    if c == SLASH_BYTE && i + 1 < s.len() && s[i + 1] == SLASH_BYTE {
        lemma_run_until(s, i + 2, NEWLINE);
    } else if c == SLASH_BYTE && i + 1 < s.len() && s[i + 1] == STAR_BYTE {
        lemma_block_comment_end(s, i + 2);
    } else if c == QUOTE_BYTE {
        lemma_run_until(s, i + 1, QUOTE_BYTE);
    } else if is_digit(c) {
        lemma_digits_end(s, i);
        let ie = digits_end(s, i);
        if ie < s.len() && s[ie] == DOT_BYTE && ie + 1 < s.len() && is_digit(s[ie + 1]) {
            lemma_digits_end(s, ie + 1);
            let fe = digits_end(s, ie + 1);
            lemma_pow10_pos((fe - (ie + 1)) as nat);
        }
    } else if is_alnum(c) {
        lemma_ident_end(s, i);
    }
}

/// The full token sequence of the source from position `i` on: the
/// lexer's entire observable behaviour.
pub open spec fn spec_tokens(s: Seq<u8>, i: int) -> Seq<TokenView>
    decreases s.len() - i
        when 0 <= i <= s.len()
{
    if at_end(s, i) {
        Seq::empty()
    } else {
        proof {
            lemma_spec_next(s, i);
        }
        let st = spec_next(s, i);
        seq![TokenView { kind: st.kind, start: i, end: st.end }] + spec_tokens(s, st.end)
    }
}

/// Every token the specification scanner produces is well formed: its
/// kind is valid and its span runs forward.
pub proof fn lemma_spec_tokens_wf(s: Seq<u8>, i: int)
    requires
        0 <= i <= s.len(),
    ensures
        forall|k: int| 0 <= k < spec_tokens(s, i).len() ==> (#[trigger] spec_tokens(s, i)[k]).wf(),
    decreases s.len() - i,
{
    if !at_end(s, i) {
        lemma_spec_next(s, i);
        let st = spec_next(s, i);
        lemma_spec_tokens_wf(s, st.end);
        assert forall|k: int| 0 <= k < spec_tokens(s, i).len()
            implies (#[trigger] spec_tokens(s, i)[k]).wf() by {
            if k > 0 {
                assert(spec_tokens(s, i)[k] == spec_tokens(s, st.end)[k - 1]);
            }
        }
    }
}

/// Law: the token stream is lossless. Tokens are produced in source
/// order with forward, nonempty spans inside the buffer; the first
/// starts exactly at the cursor, each next token starts exactly where
/// the previous one ended, and the last ends exactly at the end of
/// input. The stream is empty exactly at the end of input.
pub proof fn lemma_tokens_tile(s: Seq<u8>, i: int)
    requires
        0 <= i <= s.len(),
    ensures
        spec_tokens(s, i).len() == 0 <==> at_end(s, i),
        spec_tokens(s, i).len() > 0 ==> spec_tokens(s, i)[0].start == i,
        forall|k: int| 0 <= k < spec_tokens(s, i).len()
            ==> (#[trigger] spec_tokens(s, i)[k]).start < spec_tokens(s, i)[k].end <= s.len(),
        forall|k: int| 0 <= k < spec_tokens(s, i).len() - 1
            ==> (#[trigger] spec_tokens(s, i)[k]).end == spec_tokens(s, i)[k + 1].start,
        spec_tokens(s, i).len() > 0 ==> at_end(s, spec_tokens(s, i).last().end),
    decreases s.len() - i,
{
    if !at_end(s, i) {
        lemma_spec_next(s, i);
        let st = spec_next(s, i);
        lemma_tokens_tile(s, st.end);
        let ts = spec_tokens(s, i);
        let rest = spec_tokens(s, st.end);
        assert(ts == seq![TokenView { kind: st.kind, start: i, end: st.end }] + rest);
        assert forall|k: int| 0 <= k < ts.len()
            implies (#[trigger] ts[k]).start < ts[k].end <= s.len() by {
            if k > 0 {
                assert(ts[k] == rest[k - 1]);
            }
        }
        assert forall|k: int| 0 <= k < ts.len() - 1
            implies (#[trigger] ts[k]).end == ts[k + 1].start by {
            if k == 0 {
                assert(ts[1] == rest[0]);
            } else {
                assert(ts[k] == rest[k - 1]);
                assert(ts[k + 1] == rest[k]);
            }
        }
        if rest.len() == 0 {
            assert(ts.last() == ts[0]);
        } else {
            assert(ts.last() == rest.last());
        }
    }
}

/// The views of a produced token vector.
pub open spec fn token_views(ts: Seq<Token>) -> Seq<TokenView> {
    ts.map_values(|t: Token| t@)
}

// ---------------------------------------------------------------------
// Executable helpers.
// ---------------------------------------------------------------------

fn is_digit_byte(c: u8) -> (r: bool)
    ensures
        r == is_digit(c),
{
    ZERO_BYTE <= c && c <= NINE_BYTE
}

fn is_alnum_byte(c: u8) -> (r: bool)
    ensures
        r == is_alnum(c),
{
    (ZERO_BYTE <= c && c <= NINE_BYTE) || (LOWER_A_BYTE <= c && c <= LOWER_Z_BYTE) || (UPPER_A_BYTE <= c && c <= UPPER_Z_BYTE)
}

/// Copies the byte range `[a, b)` out of the source buffer.
fn copy_range(v: &Vec<u8>, a: usize, b: usize) -> (r: Vec<u8>)
    requires
        a <= b <= v.len(),
    ensures
        r@ == v@.subrange(a as int, b as int),
{
    let mut r: Vec<u8> = Vec::new();
    let mut j: usize = a;
    while j < b
        invariant
            a <= j <= b <= v.len(),
            r@ == v@.subrange(a as int, j as int),
        decreases b - j,
    {
        r.push(v[j]);
        proof {
            assert(r@ =~= v@.subrange(a as int, j + 1));
        }
        j = j + 1;
    }
    r
}

/// The value of the digit run `v[a..b)`, or `None` if it exceeds
/// `i64::MAX`.
fn digits_value(v: &Vec<u8>, a: usize, b: usize) -> (r: Option<i64>)
    requires
        a <= b <= v.len(),
        forall|m: int| a <= m < b ==> is_digit(#[trigger] v@[m]),
    ensures
        (match r {
            Some(x) => 0 <= x && x as int == digits_val(v@, a as int, b as int),
            None => digits_val(v@, a as int, b as int) > i64::MAX,
        }),
{
    let mut acc: i64 = 0;
    let mut j: usize = a;
    while j < b
        invariant
            a <= j <= b <= v.len(),
            forall|m: int| a <= m < b ==> is_digit(#[trigger] v@[m]),
            0 <= acc,
            acc as int == digits_val(v@, a as int, j as int),
        decreases b - j,
    {
        let d = v[j] - ZERO_BYTE;
        let wide: i128 = (acc as i128) * 10 + (d as i128);
        proof {
            assert(digits_val(v@, a as int, j + 1)
                == digits_val(v@, a as int, j as int) * 10 + (v@[j as int] - ZERO_BYTE));
        }
        if wide > 0x7fff_ffff_ffff_ffffi128 {
            proof {
                lemma_digits_val_mono(v@, a as int, j + 1, b as int);
            }
            return None;
        }
        acc = wide as i64;
        j = j + 1;
    }
    Some(acc)
}

/// `10^k` as an `i64`, or `None` if it exceeds `i64::MAX` (that is, if
/// `k > 18`).
fn pow10_i64(k: usize) -> (r: Option<i64>)
    ensures
        (match r {
            Some(x) => 1 <= x && x as int == pow10(k as nat),
            None => pow10(k as nat) > i64::MAX,
        }),
{
    if k > 18 {
        proof {
            assert(pow10(19) == 10_000_000_000_000_000_000) by {
                reveal_with_fuel(pow10, 20);
            }
            lemma_pow10_mono(19, k as nat);
        }
        return None;
    }
    proof {
        assert(pow10(18) == 1_000_000_000_000_000_000) by {
            reveal_with_fuel(pow10, 19);
        }
        lemma_pow10_mono(k as nat, 18);
    }
    let mut r: i64 = 1;
    let mut j: usize = 0;
    while j < k
        invariant
            j <= k <= 18,
            1 <= r,
            r as int == pow10(j as nat),
            pow10(k as nat) <= i64::MAX,
        decreases k - j,
    {
        proof {
            lemma_pow10_mono((j + 1) as nat, k as nat);
            lemma_pow10_pos(j as nat);
        }
        r = r * 10;
        j = j + 1;
    }
    Some(r)
}

/// Looks the word up in the fixed keyword table; an unmatched word is an
/// identifier.
fn keyword_or_identifier(w: Vec<u8>) -> (k: TokenKind)
    ensures
        k@ == keyword_kind(w@),
{
    if w.len() == 3 && w[0] == LOWER_A_BYTE && w[1] == 110 && w[2] == 100 {
        TokenKind::And
    } else if w.len() == 5 && w[0] == 99 && w[1] == 108 && w[2] == LOWER_A_BYTE && w[3] == 115
        && w[4] == 115 {
        TokenKind::Class
    } else if w.len() == 4 && w[0] == 101 && w[1] == 108 && w[2] == 115 && w[3] == 101 {
        TokenKind::Else
    } else if w.len() == 5 && w[0] == 102 && w[1] == LOWER_A_BYTE && w[2] == 108 && w[3] == 115
        && w[4] == 101 {
        TokenKind::False
    } else if w.len() == 3 && w[0] == 102 && w[1] == 117 && w[2] == 110 {
        TokenKind::Fun
    } else if w.len() == 3 && w[0] == 102 && w[1] == 111 && w[2] == 114 {
        TokenKind::For
    } else if w.len() == 2 && w[0] == 105 && w[1] == 102 {
        TokenKind::If
    } else if w.len() == 3 && w[0] == 110 && w[1] == 105 && w[2] == 108 {
        TokenKind::Nil
    } else if w.len() == 2 && w[0] == 111 && w[1] == 114 {
        TokenKind::Or
    } else if w.len() == 5 && w[0] == 112 && w[1] == 114 && w[2] == 105 && w[3] == 110
        && w[4] == 116 {
        TokenKind::Print
    } else if w.len() == 6 && w[0] == 114 && w[1] == 101 && w[2] == 116 && w[3] == 117
        && w[4] == 114 && w[5] == 110 {
        TokenKind::Return
    } else if w.len() == 5 && w[0] == 115 && w[1] == 117 && w[2] == 112 && w[3] == 101
        && w[4] == 114 {
        TokenKind::Super
    } else if w.len() == 4 && w[0] == 116 && w[1] == 104 && w[2] == 105 && w[3] == 115 {
        TokenKind::This
    } else if w.len() == 4 && w[0] == 116 && w[1] == 114 && w[2] == 117 && w[3] == 101 {
        TokenKind::True
    } else if w.len() == 3 && w[0] == 118 && w[1] == LOWER_A_BYTE && w[2] == 114 {
        TokenKind::Var
    } else if w.len() == 5 && w[0] == 119 && w[1] == 104 && w[2] == 105 && w[3] == 108
        && w[4] == 101 {
        TokenKind::While
    } else {
        TokenKind::Identifier(w)
    }
}

// ---------------------------------------------------------------------
// The executable lexer.
// ---------------------------------------------------------------------

/// A pull-based scanner over a source buffer: each `next_token` call
/// returns the next token, or `None` at the end of input.
#[derive(Debug)]
pub struct Lexer {
    pub src: Vec<u8>,
    pub current: usize,
}

impl Lexer {
    /// The cursor never leaves the buffer.
    pub open spec fn wf(self) -> bool {
        self.current <= self.src@.len()
    }

    pub fn new(src: Vec<u8>) -> (l: Lexer)
        ensures
            l.wf(),
            l.src@ == src@,
            l.current == 0,
    {
        Lexer { src, current: 0 }
    }

    /// Scans one token and advances the cursor past its lexeme; yields
    /// `None` at the end of input. The token is exactly what the
    /// specification scanner says stands at the cursor.
    pub fn next_token(&mut self) -> (t: Option<Token>)
        requires
            old(self).wf(),
        ensures
            final(self).wf(),
            final(self).src@ == old(self).src@,
            (match t {
                Some(tok) => {
                    &&& !at_end(old(self).src@, old(self).current as int)
                    &&& tok@ == (TokenView {
                        kind: spec_next(old(self).src@, old(self).current as int).kind,
                        start: old(self).current as int,
                        end: spec_next(old(self).src@, old(self).current as int).end,
                    })
                    &&& final(self).current as int
                        == spec_next(old(self).src@, old(self).current as int).end
                    &&& final(self).current > old(self).current
                },
                None => {
                    &&& at_end(old(self).src@, old(self).current as int)
                    &&& final(self).current == old(self).current
                },
            }),
    {
        let ghost s = self.src@;
        let ghost i = self.current as int;
        if self.current >= self.src.len() || self.src[self.current] == NUL {
            return None;
        }
        proof {
            lemma_spec_next(s, i);
        }
        let start = self.current;
        let c = self.src[self.current];
        let kind: TokenKind;
        if c == LEFT_PAREN_BYTE {
            self.current = self.current + 1;
            kind = TokenKind::LeftParen;
        } else if c == RIGHT_PAREN_BYTE {
            self.current = self.current + 1;
            kind = TokenKind::RightParen;
        } else if c == LEFT_BRACE_BYTE {
            self.current = self.current + 1;
            kind = TokenKind::LeftBrace;
        } else if c == RIGHT_BRACE_BYTE {
            self.current = self.current + 1;
            kind = TokenKind::RightBrace;
        } else if c == COMMA_BYTE {
            self.current = self.current + 1;
            kind = TokenKind::Comma;
        } else if c == DOT_BYTE {
            self.current = self.current + 1;
            kind = TokenKind::Dot;
        } else if c == MINUS_BYTE {
            self.current = self.current + 1;
            kind = TokenKind::Minus;
        } else if c == PLUS_BYTE {
            self.current = self.current + 1;
            kind = TokenKind::Plus;
        } else if c == SEMICOLON_BYTE {
            self.current = self.current + 1;
            kind = TokenKind::SemiColon;
        } else if c == STAR_BYTE {
            self.current = self.current + 1;
            kind = TokenKind::Star;
        } else if c == QUESTION_BYTE {
            self.current = self.current + 1;
            kind = TokenKind::QuestionMark;
        } else if c == COLON_BYTE {
            self.current = self.current + 1;
            kind = TokenKind::Colon;
        } else if c == BANG_BYTE {
            kind = self.take_select(EQUAL_BYTE, TokenKind::BangEqual, TokenKind::Bang);
        } else if c == EQUAL_BYTE {
            kind = self.take_select(EQUAL_BYTE, TokenKind::EqualEqual, TokenKind::Equal);
        } else if c == GREATER_BYTE {
            kind = self.take_select(EQUAL_BYTE, TokenKind::GreaterEqual, TokenKind::Greater);
        } else if c == LESS_BYTE {
            kind = self.take_select(EQUAL_BYTE, TokenKind::LessEqual, TokenKind::Less);
        } else if c == SLASH_BYTE {
            kind = self.comment_or(TokenKind::Slash);
        } else if c == QUOTE_BYTE {
            kind = self.string();
        } else if c == NEWLINE || c == CARRIAGE_RETURN || c == TAB || c == SPACE {
            self.current = self.current + 1;
            kind = TokenKind::Skip(c);
        } else if is_digit_byte(c) {
            kind = self.take_number();
        } else if is_alnum_byte(c) {
            kind = self.take_identifier_or_keyword();
        } else {
            self.current = self.current + 1;
            kind = TokenKind::Error(LexError::UnrecognizedCharacter);
        }
        Some(Token::new(kind, Span::new(start, self.current)))
    }

    /// Consumes the next byte too when it matches `expected`, choosing
    /// between the two-character and one-character kind.
    fn take_select(&mut self, expected: u8, kind_true: TokenKind, kind_false: TokenKind)
        -> (kind: TokenKind)
        requires
            old(self).wf(),
            old(self).current < old(self).src@.len(),
        ensures
            final(self).wf(),
            final(self).src@ == old(self).src@,
            ({
                let st = two_char_step(
                    old(self).src@,
                    old(self).current as int,
                    expected,
                    kind_true@,
                    kind_false@,
                );
                kind@ == st.kind && final(self).current as int == st.end
            }),
    {
        proof {
            assert(self.src@.len() == self.src.len());
        }
        if self.current + 1 < self.src.len() && self.src[self.current + 1] == expected {
            self.current = self.current + 2;
            kind_true
        } else {
            self.current = self.current + 1;
            kind_false
        }
    }

    /// A `/` token, unless a second `/` or a `*` follows: then a line or
    /// block comment.
    fn comment_or(&mut self, or: TokenKind) -> (kind: TokenKind)
        requires
            old(self).wf(),
            old(self).current < old(self).src@.len(),
            old(self).src@[old(self).current as int] == SLASH_BYTE,
            or@ == TokenKindView::Slash,
        ensures
            final(self).wf(),
            final(self).src@ == old(self).src@,
            kind@ == spec_next(old(self).src@, old(self).current as int).kind,
            final(self).current as int == spec_next(old(self).src@, old(self).current as int).end,
    {
        let ghost s = self.src@;
        let ghost i = self.current as int;
        proof {
            assert(self.src@.len() == self.src.len());
        }
        if self.current + 1 < self.src.len() && self.src[self.current + 1] == SLASH_BYTE {
            let text = self.take_single_line_comment();
            TokenKind::Comment(text)
        } else if self.current + 1 < self.src.len() && self.src[self.current + 1] == STAR_BYTE {
            let text = self.take_multi_line_comment();
            TokenKind::Comment(text)
        } else {
            self.current = self.current + 1;
            or
        }
    }

    /// Scans a line comment to the end of the line (exclusive) and
    /// returns its text.
    fn take_single_line_comment(&mut self) -> (text: Vec<u8>)
        requires
            old(self).wf(),
            old(self).current + 1 < old(self).src@.len(),
        ensures
            final(self).wf(),
            final(self).src@ == old(self).src@,
            ({
                let s = old(self).src@;
                let i = old(self).current as int;
                let ce = run_until(s, i + 2, NEWLINE);
                text@ == s.subrange(i + 2, ce) && final(self).current as int == ce
            }),
    {
        let ghost s = self.src@;
        let ghost i = self.current as int;
        let start = self.current;
        proof {
            assert(self.src@.len() == self.src.len());
        }
        let mut pos = self.current + 2;
        proof {
            lemma_run_until(s, i + 2, NEWLINE);
        }
        while pos < self.src.len() && self.src[pos] != NEWLINE && self.src[pos] != NUL
            invariant
                self.wf(),
                self.src@ == s,
                i + 2 <= pos as int <= s.len(),
                run_until(s, i + 2, NEWLINE) == run_until(s, pos as int, NEWLINE),
            decreases s.len() - pos,
        {
            pos = pos + 1;
        }
        self.current = pos;
        copy_range(&self.src, start + 2, pos)
    }

    /// Scans a block comment to its closing `*/` (or the end of input)
    /// and returns its text.
    fn take_multi_line_comment(&mut self) -> (text: Vec<u8>)
        requires
            old(self).wf(),
            old(self).current + 1 < old(self).src@.len(),
        ensures
            final(self).wf(),
            final(self).src@ == old(self).src@,
            ({
                let s = old(self).src@;
                let i = old(self).current as int;
                let be = block_comment_end(s, i + 2);
                &&& text@ == s.subrange(i + 2, be)
                &&& final(self).current as int == (if block_closed(s, be) { be + 2 } else { be })
            }),
    {
        let ghost s = self.src@;
        let ghost i = self.current as int;
        let start = self.current;
        proof {
            assert(self.src@.len() == self.src.len());
        }
        let mut pos = self.current + 2;
        proof {
            lemma_block_comment_end(s, i + 2);
        }
        loop
            invariant
                self.wf(),
                self.src@ == s,
                i + 2 <= pos as int <= s.len(),
                block_comment_end(s, i + 2) == block_comment_end(s, pos as int),
            ensures
                pos as int == block_comment_end(s, i + 2),
            decreases s.len() - pos,
        {
            if pos >= self.src.len() || self.src[pos] == NUL {
                break;
            }
            if self.src[pos] == STAR_BYTE && pos + 1 < self.src.len() && self.src[pos + 1] == SLASH_BYTE {
                break;
            }
            pos = pos + 1;
        }
        let text = copy_range(&self.src, start + 2, pos);
        if pos < self.src.len() && self.src[pos] != NUL {
            // the scan stopped on `*/`
            self.current = pos + 2;
        } else {
            self.current = pos;
        }
        text
    }

    /// Scans a string literal; reaching the end of input before the
    /// closing quote is a lexical error.
    fn string(&mut self) -> (kind: TokenKind)
        requires
            old(self).wf(),
            old(self).current < old(self).src@.len(),
            old(self).src@[old(self).current as int] == QUOTE_BYTE,
        ensures
            final(self).wf(),
            final(self).src@ == old(self).src@,
            ({
                let st = string_step(old(self).src@, old(self).current as int);
                kind@ == st.kind && final(self).current as int == st.end
            }),
    {
        let ghost s = self.src@;
        let ghost i = self.current as int;
        let start = self.current;
        proof {
            assert(self.src@.len() == self.src.len());
        }
        let mut pos = self.current + 1;
        proof {
            lemma_run_until(s, i + 1, QUOTE_BYTE);
        }
        while pos < self.src.len() && self.src[pos] != QUOTE_BYTE && self.src[pos] != NUL
            invariant
                self.wf(),
                self.src@ == s,
                i + 1 <= pos as int <= s.len(),
                run_until(s, i + 1, QUOTE_BYTE) == run_until(s, pos as int, QUOTE_BYTE),
            decreases s.len() - pos,
        {
            pos = pos + 1;
        }
        if pos < self.src.len() && self.src[pos] == QUOTE_BYTE {
            let text = copy_range(&self.src, start + 1, pos);
            self.current = pos + 1;
            TokenKind::String(text)
        } else {
            self.current = pos;
            TokenKind::Error(LexError::UnterminatedString)
        }
    }

    /// Scans a number literal: digits, at most one `.` followed by at
    /// least one digit, then digits. A trailing dot is not consumed.
    fn take_number(&mut self) -> (kind: TokenKind)
        requires
            old(self).wf(),
            old(self).current < old(self).src@.len(),
            is_digit(old(self).src@[old(self).current as int]),
        ensures
            final(self).wf(),
            final(self).src@ == old(self).src@,
            ({
                let st = number_step(old(self).src@, old(self).current as int);
                kind@ == st.kind && final(self).current as int == st.end && st.kind.wf()
            }),
    {
        let ghost s = self.src@;
        let ghost i = self.current as int;
        let start = self.current;
        let mut pos = self.current;
        proof {
            lemma_digits_end(s, i);
        }
        while pos < self.src.len() && is_digit_byte(self.src[pos])
            invariant
                self.wf(),
                self.src@ == s,
                i <= pos as int <= s.len(),
                digits_end(s, i) == digits_end(s, pos as int),
            decreases s.len() - pos,
        {
            pos = pos + 1;
        }
        let ie = pos;
        proof {
            assert(ie as int == digits_end(s, i));
        }
        if ie < self.src.len() && self.src[ie] == DOT_BYTE && ie + 1 < self.src.len()
            && is_digit_byte(self.src[ie + 1]) {
            let mut pos2 = ie + 1;
            proof {
                lemma_digits_end(s, ie + 1);
            }
            while pos2 < self.src.len() && is_digit_byte(self.src[pos2])
                invariant
                    self.wf(),
                    self.src@ == s,
                    ie + 1 <= pos2 as int <= s.len(),
                    digits_end(s, ie + 1) == digits_end(s, pos2 as int),
                decreases s.len() - pos2,
            {
                pos2 = pos2 + 1;
            }
            let fe = pos2;
            proof {
                assert(fe as int == digits_end(s, ie + 1));
            }
            self.current = fe;
            let ghost den_g = pow10((fe - (ie + 1)) as nat);
            let ghost num_g = digits_val(s, i, ie as int) * den_g
                + digits_val(s, ie + 1, fe as int);
            proof {
                lemma_digits_val_bounds(s, i, ie as int);
                lemma_digits_val_bounds(s, ie + 1, fe as int);
                lemma_pow10_pos((fe - (ie + 1)) as nat);
            }
            let whole = digits_value(&self.src, start, ie);
            let frac = digits_value(&self.src, ie + 1, fe);
            let den = pow10_i64(fe - (ie + 1));
            match (whole, frac, den) {
                (Some(w), Some(f), Some(d)) => {
                    proof {
                        crate::number::lemma_mul_i64_den_range(w as int, d as int);
                        assert((w as int) * (d as int) >= 0) by (nonlinear_arith)
                            requires w as int >= 0, d as int >= 1,
                        ;
                    }
                    let wide: i128 = (w as i128) * (d as i128) + (f as i128);
                    proof {
                        assert(wide == num_g);
                    }
                    if wide <= 0x7fff_ffff_ffff_ffffi128 {
                        TokenKind::Number(NumberValue { num: wide as i64, den: d })
                    } else {
                        TokenKind::Error(LexError::NumberTooLarge)
                    }
                },
                (None, _, _) => {
                    // the whole part alone exceeds the range
                    proof {
                        assert(digits_val(s, i, ie as int) * den_g >= digits_val(s, i, ie as int))
                            by (nonlinear_arith)
                            requires digits_val(s, i, ie as int) >= 0, den_g >= 1,
                        ;
                    }
                    TokenKind::Error(LexError::NumberTooLarge)
                },
                (_, None, _) => {
                    proof {
                        assert(digits_val(s, i, ie as int) * den_g >= 0)
                            by (nonlinear_arith)
                            requires digits_val(s, i, ie as int) >= 0, den_g >= 1,
                        ;
                    }
                    TokenKind::Error(LexError::NumberTooLarge)
                },
                (_, _, None) => {
                    TokenKind::Error(LexError::NumberTooLarge)
                },
            }
        } else {
            self.current = ie;
            proof {
                lemma_digits_val_bounds(s, i, ie as int);
            }
            match digits_value(&self.src, start, ie) {
                Some(w) => TokenKind::Number(NumberValue { num: w, den: 1 }),
                None => TokenKind::Error(LexError::NumberTooLarge),
            }
        }
    }

    /// Scans a run of letters and digits and classifies it as a keyword
    /// or an identifier.
    fn take_identifier_or_keyword(&mut self) -> (kind: TokenKind)
        requires
            old(self).wf(),
            old(self).current < old(self).src@.len(),
            is_alnum(old(self).src@[old(self).current as int]),
        ensures
            final(self).wf(),
            final(self).src@ == old(self).src@,
            ({
                let st = ident_step(old(self).src@, old(self).current as int);
                kind@ == st.kind && final(self).current as int == st.end
            }),
    {
        let ghost s = self.src@;
        let ghost i = self.current as int;
        let start = self.current;
        let mut pos = self.current;
        proof {
            lemma_ident_end(s, i);
        }
        while pos < self.src.len() && is_alnum_byte(self.src[pos])
            invariant
                self.wf(),
                self.src@ == s,
                i <= pos as int <= s.len(),
                ident_end(s, i) == ident_end(s, pos as int),
            decreases s.len() - pos,
        {
            pos = pos + 1;
        }
        self.current = pos;
        let word = copy_range(&self.src, start, pos);
        keyword_or_identifier(word)
    }

    /// Whether the cursor stands at the end of input.
    pub fn is_at_end(&self) -> (r: bool)
        requires
            self.wf(),
        ensures
            r == at_end(self.src@, self.current as int),
    {
        self.current >= self.src.len() || self.src[self.current] == 0
    }

    /// Scans the whole remaining input: the full token sequence that the
    /// specification scanner assigns to the source.
    pub fn tokenize(&mut self) -> (out: Vec<Token>)
        requires
            old(self).wf(),
        ensures
            final(self).wf(),
            final(self).src@ == old(self).src@,
            token_views(out@) == spec_tokens(old(self).src@, old(self).current as int),
    {
        let ghost s = self.src@;
        let ghost i0 = self.current as int;
        let mut out: Vec<Token> = Vec::new();
        while !self.is_at_end()
            invariant
                self.wf(),
                self.src@ == s,
                token_views(out@) + spec_tokens(s, self.current as int) == spec_tokens(s, i0),
            decreases s.len() - self.current,
        {
            let ghost cur = self.current as int;
            let ghost prev = out@;
            let t = self.next_token();
            proof {
                lemma_spec_next(s, cur);
            }
            if let Some(tok) = t {
                out.push(tok);
                proof {
                    let st = spec_next(s, cur);
                    assert(spec_tokens(s, cur) == seq![
                        TokenView { kind: st.kind, start: cur, end: st.end }
                    ] + spec_tokens(s, st.end));
                    assert(token_views(out@) =~= token_views(prev) + seq![tok@]);
                    assert(token_views(out@) + spec_tokens(s, self.current as int)
                        =~= spec_tokens(s, i0));
                }
            }
        }
        proof {
            assert(spec_tokens(s, self.current as int) =~= Seq::<TokenView>::empty());
            assert(token_views(out@) =~= spec_tokens(s, i0));
        }
        out
    }
}

} // verus!
