//! Rendering of tokens, expressions and values to text: the verifier
//! does not support the standard formatting traits, so each type offers
//! a method returning the rendered bytes under an exact contract.

use crate::expr::{Expr, ExprView, LiteralView};
use crate::interpreter::{value_wf, Output, ValueView};
use crate::lexer::{pow10, lemma_pow10_mono, lemma_pow10_pos, LexError};
use crate::number::{NumberValue, Rat};
use crate::token::{Token, TokenKind, TokenKindView};
use vstd::arithmetic::div_mod::lemma_fundamental_div_mod;
use vstd::prelude::*;

verus! {

// ---------------------------------------------------------------------
// Low-level helpers.
// ---------------------------------------------------------------------

/// Appends a byte slice.
pub(crate) fn push_slice(out: &mut Vec<u8>, s: &[u8])
    ensures
        final(out)@ == old(out)@ + s@,
{
    let mut i: usize = 0;
    while i < s.len()
        invariant
            i <= s.len(),
            out@ == old(out)@ + s@.subrange(0, i as int),
        decreases s.len() - i,
    {
        out.push(s[i]);
        proof {
            assert(out@ =~= old(out)@ + s@.subrange(0, i + 1));
        }
        i = i + 1;
    }
    proof {
        assert(out@ =~= old(out)@ + s@);
    }
}

/// Appends a byte vector.
pub(crate) fn push_vec(out: &mut Vec<u8>, s: &Vec<u8>)
    ensures
        final(out)@ == old(out)@ + s@,
{
    let mut i: usize = 0;
    while i < s.len()
        invariant
            i <= s.len(),
            out@ == old(out)@ + s@.subrange(0, i as int),
        decreases s.len() - i,
    {
        out.push(s[i]);
        proof {
            assert(out@ =~= old(out)@ + s@.subrange(0, i + 1));
        }
        i = i + 1;
    }
    proof {
        assert(out@ =~= old(out)@ + s@);
    }
}

// ---------------------------------------------------------------------
// Decimal rendering of numbers.
// ---------------------------------------------------------------------

/// The decimal digits of a nonnegative integer, most significant first.
pub open spec fn dec_rep(n: int) -> Seq<u8>
    decreases n
        when n >= 0
{
    if n < 10 {
        seq![(48 + n) as u8]
    } else {
        dec_rep(n / 10) + seq![(48 + n % 10) as u8]
    }
}

/// Exactly `k` decimal digits of `n`, zero-padded on the left.
pub open spec fn dec_pad(n: int, k: nat) -> Seq<u8>
    decreases k,
{
    if k == 0 {
        Seq::empty()
    } else {
        dec_pad(n / 10, (k - 1) as nat) + seq![(48 + n % 10) as u8]
    }
}

/// The exponent `k` with `den == 10^k`, if there is one.
pub open spec fn pow10_exp(den: int) -> Option<nat>
    decreases den
        when den >= 1
{
    if den == 1 {
        Some(0)
    } else if den % 10 == 0 {
        match pow10_exp(den / 10) {
            Some(k) => Some(k + 1),
            None => None,
        }
    } else {
        None
    }
}

/// How a number renders: an integer plainly; a decimal-scaled value with
/// a dot and a zero-padded fraction; any other rational as `num/den`.
pub open spec fn spec_render_number(r: Rat) -> Seq<u8> {
    let mag = if r.num < 0 { -r.num } else { r.num };
    let sign: Seq<u8> = if r.num < 0 { seq![45u8] } else { Seq::empty() };
    if r.den == 1 {
        sign + dec_rep(mag)
    } else {
        match pow10_exp(r.den) {
            Some(k) => sign + dec_rep(mag / r.den) + seq![46u8] + dec_pad(mag % r.den, k),
            None => sign + dec_rep(mag) + seq![47u8] + dec_rep(r.den),
        }
    }
}

/// Appends the decimal digits of `n`.
fn push_dec(out: &mut Vec<u8>, n: u64)
    ensures
        final(out)@ == old(out)@ + dec_rep(n as int),
    decreases n,
{
    if n < 10 {
        out.push(48 + (n as u8));
        proof {
            assert(out@ =~= old(out)@ + dec_rep(n as int));
        }
    } else {
        push_dec(out, n / 10);
        out.push(48 + ((n % 10) as u8));
        proof {
            assert(out@ =~= old(out)@ + dec_rep(n as int));
        }
    }
}

/// Appends exactly `k` decimal digits of `n`, zero-padded.
fn push_dec_pad(out: &mut Vec<u8>, n: u64, k: usize)
    ensures
        final(out)@ == old(out)@ + dec_pad(n as int, k as nat),
    decreases k,
{
    if k == 0 {
        proof {
            assert(out@ =~= old(out)@ + dec_pad(n as int, k as nat));
        }
    } else {
        push_dec_pad(out, n / 10, k - 1);
        out.push(48 + ((n % 10) as u8));
        proof {
            assert(out@ =~= old(out)@ + dec_pad(n as int, k as nat));
        }
    }
}

/// The power-of-ten exponent of `den`, if `den` is a power of ten.
fn pow10_exp_u64(den: u64) -> (r: Option<usize>)
    requires
        den >= 1,
    ensures
        (match r {
            Some(k) => pow10_exp(den as int) == Some(k as nat)
                && pow10(k as nat) == den as int && k <= 19,
            None => pow10_exp(den as int) is None,
        }),
    decreases den,
{
    if den == 1 {
        Some(0)
    } else if den % 10 == 0 {
        proof {
            lemma_fundamental_div_mod(den as int, 10);
        }
        match pow10_exp_u64(den / 10) {
            Some(k) => {
                proof {
                    assert(pow10((k + 1) as nat) == 10 * pow10(k as nat));
                    assert(pow10((k + 1) as nat) == den as int);
                    if k + 1 > 19 {
                        assert(pow10(20) == 100_000_000_000_000_000_000) by {
                            reveal_with_fuel(pow10, 21);
                        }
                        lemma_pow10_mono(20, (k + 1) as nat);
                        assert(false);
                    }
                }
                Some(k + 1)
            },
            None => None,
        }
    } else {
        None
    }
}

/// Appends the rendering of a number value.
fn push_number(out: &mut Vec<u8>, n: &NumberValue)
    requires
        n.wf(),
    ensures
        final(out)@ == old(out)@ + spec_render_number(n@),
{
    let mag: u64;
    if n.num < 0 {
        out.push(45);
        mag = (-(n.num as i128)) as u64;
        proof {
            assert(mag as int == -(n@.num));
        }
    } else {
        mag = n.num as u64;
    }
    if n.den == 1 {
        push_dec(out, mag);
        proof {
            assert(out@ =~= old(out)@ + spec_render_number(n@));
        }
    } else {
        let den_u = n.den as u64;
        match pow10_exp_u64(den_u) {
            Some(k) => {
                push_dec(out, mag / den_u);
                out.push(46);
                push_dec_pad(out, mag % den_u, k);
                proof {
                    assert(out@ =~= old(out)@ + spec_render_number(n@));
                }
            },
            None => {
                push_dec(out, mag);
                out.push(47);
                push_dec(out, den_u);
                proof {
                    assert(out@ =~= old(out)@ + spec_render_number(n@));
                }
            },
        }
    }
}

// ---------------------------------------------------------------------
// Lexical error messages.
// ---------------------------------------------------------------------

/// The diagnostic text of a lexical error.
pub open spec fn lex_error_message(e: LexError) -> Seq<u8> {
    match e {
        LexError::UnterminatedString => seq![85u8, 110u8, 116u8, 101u8, 114u8, 109u8, 105u8, 110u8, 97u8, 116u8, 101u8, 100u8, 32u8, 83u8, 116u8, 114u8, 105u8, 110u8, 103u8],  // "Unterminated String"
        LexError::UnrecognizedCharacter => seq![85u8, 110u8, 114u8, 101u8, 99u8, 111u8, 103u8, 110u8, 105u8, 122u8, 101u8, 100u8, 32u8, 67u8, 104u8, 97u8, 114u8, 97u8, 99u8, 116u8, 101u8, 114u8],  // "Unrecognized Character"
        LexError::NumberTooLarge => seq![78u8, 117u8, 109u8, 98u8, 101u8, 114u8, 32u8, 84u8, 111u8, 111u8, 32u8, 76u8, 97u8, 114u8, 103u8, 101u8],  // "Number Too Large"
    }
}

impl LexError {
    /// The diagnostic text of the error.
    pub fn message(&self) -> (r: Vec<u8>)
        ensures
            r@ == lex_error_message(*self),
    {
        let mut r: Vec<u8> = Vec::new();
        match self {
            LexError::UnterminatedString => {
                let s: &[u8] = &[85, 110, 116, 101, 114, 109, 105, 110, 97, 116, 101, 100, 32, 83, 116, 114, 105, 110, 103];
                push_slice(&mut r, s);
                proof {
                    assert(s@ =~= seq![85u8, 110u8, 116u8, 101u8, 114u8, 109u8, 105u8, 110u8, 97u8, 116u8, 101u8, 100u8, 32u8, 83u8, 116u8, 114u8, 105u8, 110u8, 103u8]);
                }
            },
            LexError::UnrecognizedCharacter => {
                let s: &[u8] = &[85, 110, 114, 101, 99, 111, 103, 110, 105, 122, 101, 100, 32, 67, 104, 97, 114, 97, 99, 116, 101, 114];
                push_slice(&mut r, s);
                proof {
                    assert(s@ =~= seq![85u8, 110u8, 114u8, 101u8, 99u8, 111u8, 103u8, 110u8, 105u8, 122u8, 101u8, 100u8, 32u8, 67u8, 104u8, 97u8, 114u8, 97u8, 99u8, 116u8, 101u8, 114u8]);
                }
            },
            LexError::NumberTooLarge => {
                let s: &[u8] = &[78, 117, 109, 98, 101, 114, 32, 84, 111, 111, 32, 76, 97, 114, 103, 101];
                push_slice(&mut r, s);
                proof {
                    assert(s@ =~= seq![78u8, 117u8, 109u8, 98u8, 101u8, 114u8, 32u8, 84u8, 111u8, 111u8, 32u8, 76u8, 97u8, 114u8, 103u8, 101u8]);
                }
            },
        }
        r
    }
}

// ---------------------------------------------------------------------
// Token rendering.
// ---------------------------------------------------------------------

/// The text a token kind renders to.
pub open spec fn spec_render_kind(k: TokenKindView) -> Seq<u8> {
    match k {
        TokenKindView::LeftParen => seq![40u8],  // "("
        TokenKindView::RightParen => seq![41u8],  // ")"
        TokenKindView::LeftBrace => seq![123u8],  // "{"
        TokenKindView::RightBrace => seq![125u8],  // "}"
        TokenKindView::Comma => seq![44u8],  // ","
        TokenKindView::Dot => seq![46u8],  // "."
        TokenKindView::Minus => seq![45u8],  // "-"
        TokenKindView::Plus => seq![43u8],  // "+"
        TokenKindView::SemiColon => seq![59u8],  // ";"
        TokenKindView::Slash => seq![47u8],  // "/"
        TokenKindView::Star => seq![42u8],  // "*"
        TokenKindView::QuestionMark => seq![63u8],  // "?"
        TokenKindView::Colon => seq![58u8],  // ":"
        TokenKindView::Bang => seq![33u8],  // "!"
        TokenKindView::BangEqual => seq![33u8, 61u8],  // "!="
        TokenKindView::Equal => seq![61u8],  // "="
        TokenKindView::EqualEqual => seq![61u8, 61u8],  // "=="
        TokenKindView::Greater => seq![62u8],  // ">"
        TokenKindView::GreaterEqual => seq![62u8, 61u8],  // ">="
        TokenKindView::Less => seq![60u8],  // "<"
        TokenKindView::LessEqual => seq![60u8, 61u8],  // "<="
        TokenKindView::And => seq![97u8, 110u8, 100u8],  // "and"
        TokenKindView::Class => seq![99u8, 108u8, 97u8, 115u8, 115u8],  // "class"
        TokenKindView::Else => seq![101u8, 108u8, 115u8, 101u8],  // "else"
        TokenKindView::False => seq![102u8, 97u8, 108u8, 115u8, 101u8],  // "false"
        TokenKindView::Fun => seq![102u8, 117u8, 110u8],  // "fun"
        TokenKindView::For => seq![102u8, 111u8, 114u8],  // "for"
        TokenKindView::If => seq![105u8, 102u8],  // "if"
        TokenKindView::Nil => seq![110u8, 105u8, 108u8],  // "nil"
        TokenKindView::Or => seq![111u8, 114u8],  // "or"
        TokenKindView::Print => seq![112u8, 114u8, 105u8, 110u8, 116u8],  // "print"
        TokenKindView::Return => seq![114u8, 101u8, 116u8, 117u8, 114u8, 110u8],  // "return"
        TokenKindView::Super => seq![115u8, 117u8, 112u8, 101u8, 114u8],  // "super"
        TokenKindView::This => seq![116u8, 104u8, 105u8, 115u8],  // "this"
        TokenKindView::True => seq![116u8, 114u8, 117u8, 101u8],  // "true"
        TokenKindView::Var => seq![118u8, 97u8, 114u8],  // "var"
        TokenKindView::While => seq![119u8, 104u8, 105u8, 108u8, 101u8],  // "while"
        TokenKindView::Eof => seq![101u8, 111u8, 102u8],  // "eof"
        TokenKindView::Identifier(v) => v,
        TokenKindView::String(v) => v,
        TokenKindView::Number(r) => spec_render_number(r),
        TokenKindView::Skip(c) => seq![115u8, 107u8, 105u8, 112u8, 32u8].push(c),  // "skip "
        TokenKindView::Error(e) => seq![101u8, 114u8, 114u8, 111u8, 114u8, 32u8]
            + lex_error_message(e),  // "error "
        TokenKindView::Comment(v) => v,
    }
}

/// Appends the rendering of a token kind.
#[verifier::rlimit(60)]
fn push_kind(out: &mut Vec<u8>, k: &TokenKind)
    requires
        k@.wf(),
    ensures
        final(out)@ == old(out)@ + spec_render_kind(k@),
{
    let ghost out0 = out@;
    match k {
        TokenKind::LeftParen => {
            let s: &[u8] = &[40];
            push_slice(out, s);
            proof {
                assert(s@ =~= seq![40u8]);
                assert(out@ =~= out0 + spec_render_kind(k@));
            }
        },
        TokenKind::RightParen => {
            let s: &[u8] = &[41];
            push_slice(out, s);
            proof {
                assert(s@ =~= seq![41u8]);
                assert(out@ =~= out0 + spec_render_kind(k@));
            }
        },
        TokenKind::LeftBrace => {
            let s: &[u8] = &[123];
            push_slice(out, s);
            proof {
                assert(s@ =~= seq![123u8]);
                assert(out@ =~= out0 + spec_render_kind(k@));
            }
        },
        TokenKind::RightBrace => {
            let s: &[u8] = &[125];
            push_slice(out, s);
            proof {
                assert(s@ =~= seq![125u8]);
                assert(out@ =~= out0 + spec_render_kind(k@));
            }
        },
        TokenKind::Comma => {
            let s: &[u8] = &[44];
            push_slice(out, s);
            proof {
                assert(s@ =~= seq![44u8]);
                assert(out@ =~= out0 + spec_render_kind(k@));
            }
        },
        TokenKind::Dot => {
            let s: &[u8] = &[46];
            push_slice(out, s);
            proof {
                assert(s@ =~= seq![46u8]);
                assert(out@ =~= out0 + spec_render_kind(k@));
            }
        },
        TokenKind::Minus => {
            let s: &[u8] = &[45];
            push_slice(out, s);
            proof {
                assert(s@ =~= seq![45u8]);
                assert(out@ =~= out0 + spec_render_kind(k@));
            }
        },
        TokenKind::Plus => {
            let s: &[u8] = &[43];
            push_slice(out, s);
            proof {
                assert(s@ =~= seq![43u8]);
                assert(out@ =~= out0 + spec_render_kind(k@));
            }
        },
        TokenKind::SemiColon => {
            let s: &[u8] = &[59];
            push_slice(out, s);
            proof {
                assert(s@ =~= seq![59u8]);
                assert(out@ =~= out0 + spec_render_kind(k@));
            }
        },
        TokenKind::Slash => {
            let s: &[u8] = &[47];
            push_slice(out, s);
            proof {
                assert(s@ =~= seq![47u8]);
                assert(out@ =~= out0 + spec_render_kind(k@));
            }
        },
        TokenKind::Star => {
            let s: &[u8] = &[42];
            push_slice(out, s);
            proof {
                assert(s@ =~= seq![42u8]);
                assert(out@ =~= out0 + spec_render_kind(k@));
            }
        },
        TokenKind::QuestionMark => {
            let s: &[u8] = &[63];
            push_slice(out, s);
            proof {
                assert(s@ =~= seq![63u8]);
                assert(out@ =~= out0 + spec_render_kind(k@));
            }
        },
        TokenKind::Colon => {
            let s: &[u8] = &[58];
            push_slice(out, s);
            proof {
                assert(s@ =~= seq![58u8]);
                assert(out@ =~= out0 + spec_render_kind(k@));
            }
        },
        TokenKind::Bang => {
            let s: &[u8] = &[33];
            push_slice(out, s);
            proof {
                assert(s@ =~= seq![33u8]);
                assert(out@ =~= out0 + spec_render_kind(k@));
            }
        },
        TokenKind::BangEqual => {
            let s: &[u8] = &[33, 61];
            push_slice(out, s);
            proof {
                assert(s@ =~= seq![33u8, 61u8]);
                assert(out@ =~= out0 + spec_render_kind(k@));
            }
        },
        TokenKind::Equal => {
            let s: &[u8] = &[61];
            push_slice(out, s);
            proof {
                assert(s@ =~= seq![61u8]);
                assert(out@ =~= out0 + spec_render_kind(k@));
            }
        },
        TokenKind::EqualEqual => {
            let s: &[u8] = &[61, 61];
            push_slice(out, s);
            proof {
                assert(s@ =~= seq![61u8, 61u8]);
                assert(out@ =~= out0 + spec_render_kind(k@));
            }
        },
        TokenKind::Greater => {
            let s: &[u8] = &[62];
            push_slice(out, s);
            proof {
                assert(s@ =~= seq![62u8]);
                assert(out@ =~= out0 + spec_render_kind(k@));
            }
        },
        TokenKind::GreaterEqual => {
            let s: &[u8] = &[62, 61];
            push_slice(out, s);
            proof {
                assert(s@ =~= seq![62u8, 61u8]);
                assert(out@ =~= out0 + spec_render_kind(k@));
            }
        },
        TokenKind::Less => {
            let s: &[u8] = &[60];
            push_slice(out, s);
            proof {
                assert(s@ =~= seq![60u8]);
                assert(out@ =~= out0 + spec_render_kind(k@));
            }
        },
        TokenKind::LessEqual => {
            let s: &[u8] = &[60, 61];
            push_slice(out, s);
            proof {
                assert(s@ =~= seq![60u8, 61u8]);
                assert(out@ =~= out0 + spec_render_kind(k@));
            }
        },
        TokenKind::And => {
            let s: &[u8] = &[97, 110, 100];
            push_slice(out, s);
            proof {
                assert(s@ =~= seq![97u8, 110u8, 100u8]);
                assert(out@ =~= out0 + spec_render_kind(k@));
            }
        },
        TokenKind::Class => {
            let s: &[u8] = &[99, 108, 97, 115, 115];
            push_slice(out, s);
            proof {
                assert(s@ =~= seq![99u8, 108u8, 97u8, 115u8, 115u8]);
                assert(out@ =~= out0 + spec_render_kind(k@));
            }
        },
        TokenKind::Else => {
            let s: &[u8] = &[101, 108, 115, 101];
            push_slice(out, s);
            proof {
                assert(s@ =~= seq![101u8, 108u8, 115u8, 101u8]);
                assert(out@ =~= out0 + spec_render_kind(k@));
            }
        },
        TokenKind::False => {
            let s: &[u8] = &[102, 97, 108, 115, 101];
            push_slice(out, s);
            proof {
                assert(s@ =~= seq![102u8, 97u8, 108u8, 115u8, 101u8]);
                assert(out@ =~= out0 + spec_render_kind(k@));
            }
        },
        TokenKind::Fun => {
            let s: &[u8] = &[102, 117, 110];
            push_slice(out, s);
            proof {
                assert(s@ =~= seq![102u8, 117u8, 110u8]);
                assert(out@ =~= out0 + spec_render_kind(k@));
            }
        },
        TokenKind::For => {
            let s: &[u8] = &[102, 111, 114];
            push_slice(out, s);
            proof {
                assert(s@ =~= seq![102u8, 111u8, 114u8]);
                assert(out@ =~= out0 + spec_render_kind(k@));
            }
        },
        TokenKind::If => {
            let s: &[u8] = &[105, 102];
            push_slice(out, s);
            proof {
                assert(s@ =~= seq![105u8, 102u8]);
                assert(out@ =~= out0 + spec_render_kind(k@));
            }
        },
        TokenKind::Nil => {
            let s: &[u8] = &[110, 105, 108];
            push_slice(out, s);
            proof {
                assert(s@ =~= seq![110u8, 105u8, 108u8]);
                assert(out@ =~= out0 + spec_render_kind(k@));
            }
        },
        TokenKind::Or => {
            let s: &[u8] = &[111, 114];
            push_slice(out, s);
            proof {
                assert(s@ =~= seq![111u8, 114u8]);
                assert(out@ =~= out0 + spec_render_kind(k@));
            }
        },
        TokenKind::Print => {
            let s: &[u8] = &[112, 114, 105, 110, 116];
            push_slice(out, s);
            proof {
                assert(s@ =~= seq![112u8, 114u8, 105u8, 110u8, 116u8]);
                assert(out@ =~= out0 + spec_render_kind(k@));
            }
        },
        TokenKind::Return => {
            let s: &[u8] = &[114, 101, 116, 117, 114, 110];
            push_slice(out, s);
            proof {
                assert(s@ =~= seq![114u8, 101u8, 116u8, 117u8, 114u8, 110u8]);
                assert(out@ =~= out0 + spec_render_kind(k@));
            }
        },
        TokenKind::Super => {
            let s: &[u8] = &[115, 117, 112, 101, 114];
            push_slice(out, s);
            proof {
                assert(s@ =~= seq![115u8, 117u8, 112u8, 101u8, 114u8]);
                assert(out@ =~= out0 + spec_render_kind(k@));
            }
        },
        TokenKind::This => {
            let s: &[u8] = &[116, 104, 105, 115];
            push_slice(out, s);
            proof {
                assert(s@ =~= seq![116u8, 104u8, 105u8, 115u8]);
                assert(out@ =~= out0 + spec_render_kind(k@));
            }
        },
        TokenKind::True => {
            let s: &[u8] = &[116, 114, 117, 101];
            push_slice(out, s);
            proof {
                assert(s@ =~= seq![116u8, 114u8, 117u8, 101u8]);
                assert(out@ =~= out0 + spec_render_kind(k@));
            }
        },
        TokenKind::Var => {
            let s: &[u8] = &[118, 97, 114];
            push_slice(out, s);
            proof {
                assert(s@ =~= seq![118u8, 97u8, 114u8]);
                assert(out@ =~= out0 + spec_render_kind(k@));
            }
        },
        TokenKind::While => {
            let s: &[u8] = &[119, 104, 105, 108, 101];
            push_slice(out, s);
            proof {
                assert(s@ =~= seq![119u8, 104u8, 105u8, 108u8, 101u8]);
                assert(out@ =~= out0 + spec_render_kind(k@));
            }
        },
        TokenKind::Eof => {
            let s: &[u8] = &[101, 111, 102];
            push_slice(out, s);
            proof {
                assert(s@ =~= seq![101u8, 111u8, 102u8]);
                assert(out@ =~= out0 + spec_render_kind(k@));
            }
        },
        TokenKind::Identifier(v) => {
            push_vec(out, v);
        },
        TokenKind::String(v) => {
            push_vec(out, v);
        },
        TokenKind::Number(n) => {
            push_number(out, n);
        },
        TokenKind::Skip(c) => {
            let s: &[u8] = &[115, 107, 105, 112, 32];
            push_slice(out, s);
            out.push(*c);
            proof {
                assert(s@ =~= seq![115u8, 107u8, 105u8, 112u8, 32u8]);
                assert(out@ =~= out0 + spec_render_kind(k@));
            }
        },
        TokenKind::Error(e) => {
            let s: &[u8] = &[101, 114, 114, 111, 114, 32];
            push_slice(out, s);
            let m = e.message();
            push_vec(out, &m);
            proof {
                assert(s@ =~= seq![101u8, 114u8, 114u8, 111u8, 114u8, 32u8]);
                assert(out@ =~= out0 + spec_render_kind(k@));
            }
        },
        TokenKind::Comment(v) => {
            push_vec(out, v);
        },
    }
}

impl Token {
    /// The token's rendered text.
    pub fn render(&self) -> (r: Vec<u8>)
        requires
            self@.wf(),
        ensures
            r@ == spec_render_kind(self@.kind),
    {
        let mut out: Vec<u8> = Vec::new();
        push_kind(&mut out, &self.kind);
        proof {
            assert(out@ =~= spec_render_kind(self@.kind));
        }
        out
    }
}

// ---------------------------------------------------------------------
// Expression rendering: parenthesized prefix form.
// ---------------------------------------------------------------------

/// The text a literal renders to.
pub open spec fn spec_render_literal(l: LiteralView) -> Seq<u8> {
    match l {
        LiteralView::Number(r) => spec_render_number(r),
        LiteralView::String(s) => s,
        LiteralView::Boolean(b) => if b {
            seq![116u8, 114u8, 117u8, 101u8]  // "true"
        } else {
            seq![102u8, 97u8, 108u8, 115u8, 101u8]  // "false"
        },
        LiteralView::Nil => seq![110u8, 105u8, 108u8],  // "nil"
    }
}

/// The text an expression tree renders to: each composite node in
/// parentheses, operator first.
pub open spec fn spec_render_expr(e: ExprView) -> Seq<u8>
    decreases e,
{
    match e {
        ExprView::Literal(l) => spec_render_literal(l),
        ExprView::Unary { operator, right } => seq![40u8] + spec_render_kind(operator.kind)
            + seq![32u8] + spec_render_expr(*right) + seq![41u8],
        ExprView::Binary { left, operator, right } => seq![40u8]
            + spec_render_kind(operator.kind) + seq![32u8] + spec_render_expr(*left)
            + seq![32u8] + spec_render_expr(*right) + seq![41u8],
        ExprView::Grouping(inner) => seq![40u8, 103u8, 114u8, 111u8, 117u8, 112u8, 32u8]
            + spec_render_expr(*inner) + seq![41u8],  // "(group "
        ExprView::Ternary { left, left_operator, middle, right_operator, right } => seq![40u8]
            + spec_render_expr(*left) + seq![32u8] + spec_render_kind(left_operator.kind)
            + seq![32u8] + spec_render_expr(*middle) + seq![32u8]
            + spec_render_kind(right_operator.kind) + seq![32u8] + spec_render_expr(*right)
            + seq![41u8],
    }
}

/// Appends the rendering of an expression tree.
#[verifier::rlimit(60)]
fn push_expr(out: &mut Vec<u8>, e: &Expr)
    requires
        e@.wf(),
    ensures
        final(out)@ == old(out)@ + spec_render_expr(e@),
    decreases *e,
{
    let ghost out0 = out@;
    match e {
        Expr::Literal(l) => {
            match &l.value {
                crate::expr::LiteralValue::Number(n) => {
                    push_number(out, n);
                },
                crate::expr::LiteralValue::String(v) => {
                    push_vec(out, v);
                },
                crate::expr::LiteralValue::Boolean(b) => {
                    if *b {
                        let s: &[u8] = &[116, 114, 117, 101];
                        push_slice(out, s);
                        proof {
                            assert(s@ =~= seq![116u8, 114u8, 117u8, 101u8]);
                        }
                    } else {
                        let s: &[u8] = &[102, 97, 108, 115, 101];
                        push_slice(out, s);
                        proof {
                            assert(s@ =~= seq![102u8, 97u8, 108u8, 115u8, 101u8]);
                        }
                    }
                },
                crate::expr::LiteralValue::Nil => {
                    let s: &[u8] = &[110, 105, 108];
                    push_slice(out, s);
                    proof {
                        assert(s@ =~= seq![110u8, 105u8, 108u8]);
                    }
                },
            }
            proof {
                assert(out@ =~= out0 + spec_render_expr(e@));
            }
        },
        Expr::Unary(u) => {
            out.push(40);
            push_kind(out, &u.operator.kind);
            out.push(32);
            push_expr(out, &u.right);
            out.push(41);
            proof {
                assert(out@ =~= out0 + spec_render_expr(e@));
            }
        },
        Expr::Binary(b) => {
            out.push(40);
            push_kind(out, &b.operator.kind);
            out.push(32);
            push_expr(out, &b.left);
            out.push(32);
            push_expr(out, &b.right);
            out.push(41);
            proof {
                assert(out@ =~= out0 + spec_render_expr(e@));
            }
        },
        Expr::Grouping(g) => {
            let s: &[u8] = &[40, 103, 114, 111, 117, 112, 32];
            push_slice(out, s);
            push_expr(out, &g.expr);
            out.push(41);
            proof {
                assert(s@ =~= seq![40u8, 103u8, 114u8, 111u8, 117u8, 112u8, 32u8]);
                assert(out@ =~= out0 + spec_render_expr(e@));
            }
        },
        Expr::Ternary(t) => {
            out.push(40);
            push_expr(out, &t.left);
            out.push(32);
            push_kind(out, &t.left_operator.kind);
            out.push(32);
            push_expr(out, &t.middle);
            out.push(32);
            push_kind(out, &t.right_operator.kind);
            out.push(32);
            push_expr(out, &t.right);
            out.push(41);
            proof {
                assert(out@ =~= out0 + spec_render_expr(e@));
            }
        },
    }
}

impl Expr {
    /// The tree's rendered text.
    pub fn render(&self) -> (r: Vec<u8>)
        requires
            self@.wf(),
        ensures
            r@ == spec_render_expr(self@),
    {
        let mut out: Vec<u8> = Vec::new();
        push_expr(&mut out, self);
        proof {
            assert(out@ =~= spec_render_expr(self@));
        }
        out
    }
}

// ---------------------------------------------------------------------
// Value rendering.
// ---------------------------------------------------------------------

/// The text a runtime value renders to.
pub open spec fn spec_render_value(v: ValueView) -> Seq<u8> {
    match v {
        ValueView::Number(r) => spec_render_number(r),
        ValueView::String(s) => s,
        ValueView::Boolean(b) => if b {
            seq![116u8, 114u8, 117u8, 101u8]  // "true"
        } else {
            seq![102u8, 97u8, 108u8, 115u8, 101u8]  // "false"
        },
        ValueView::Nil => seq![110u8, 105u8, 108u8],  // "nil"
    }
}

impl Output {
    /// The value's rendered text.
    pub fn render(&self) -> (r: Vec<u8>)
        requires
            value_wf(self@),
        ensures
            r@ == spec_render_value(self@),
    {
        let mut out: Vec<u8> = Vec::new();
        match self {
            Output::Number(n) => {
                push_number(&mut out, n);
            },
            Output::String(v) => {
                push_vec(&mut out, v);
            },
            Output::Boolean(b) => {
                if *b {
                    let s: &[u8] = &[116, 114, 117, 101];
                    push_slice(&mut out, s);
                    proof {
                        assert(s@ =~= seq![116u8, 114u8, 117u8, 101u8]);
                    }
                } else {
                    let s: &[u8] = &[102, 97, 108, 115, 101];
                    push_slice(&mut out, s);
                    proof {
                        assert(s@ =~= seq![102u8, 97u8, 108u8, 115u8, 101u8]);
                    }
                }
            },
            Output::Nil => {
                let s: &[u8] = &[110, 105, 108];
                push_slice(&mut out, s);
                proof {
                    assert(s@ =~= seq![110u8, 105u8, 108u8]);
                }
            },
        }
        proof {
            assert(out@ =~= spec_render_value(self@));
        }
        out
    }
}

} // verus!
