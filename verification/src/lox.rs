//! The front-end pipeline: source bytes in, rendered parse tree or
//! error message out. A driver around it owns all reading and printing.

use crate::lexer::{lemma_spec_tokens_wf, spec_tokens, token_views, Lexer};
use crate::parser::{
    all_wf, filter_tokens, is_carried, lemma_filter_tokens_wf, spec_parse, Parser, ParserError,
    ParserErrorView,
};
use crate::render::{spec_render_expr, spec_render_kind};
use crate::token::clone_bytes;
use vstd::prelude::*;

verus! {

/// A driver-level failure: an input failure reported by the caller, or
/// a parse failure carrying its rendered message.
#[derive(Debug, PartialEq)]
pub enum LoxError {
    IoError(Vec<u8>),
    ParserError(Vec<u8>),
}

/// The message a parser error renders to.
pub open spec fn spec_render_parser_error(e: ParserErrorView) -> Seq<u8> {
    match e {
        // "Reached end of file"
        ParserErrorView::Eof => seq![
            82u8, 101u8, 97u8, 99u8, 104u8, 101u8, 100u8, 32u8, 101u8, 110u8, 100u8, 32u8,
            111u8, 102u8, 32u8, 102u8, 105u8, 108u8, 101u8,
        ],
        // "Unexpected token " followed by the token's text
        ParserErrorView::UnexpectedToken(t) => seq![
            85u8, 110u8, 101u8, 120u8, 112u8, 101u8, 99u8, 116u8, 101u8, 100u8, 32u8, 116u8,
            111u8, 107u8, 101u8, 110u8, 32u8,
        ] + spec_render_kind(t.kind),
    }
}

impl ParserError {
    /// The error's rendered message.
    pub fn message(&self) -> (r: Vec<u8>)
        requires
            (self@ matches ParserErrorView::UnexpectedToken(t) ==> t.wf()),
        ensures
            r@ == spec_render_parser_error(self@),
    {
        match self {
            ParserError::Eof => {
                let s: &[u8] = &[
                    82, 101, 97, 99, 104, 101, 100, 32, 101, 110, 100, 32, 111, 102, 32, 102,
                    105, 108, 101,
                ];
                let mut out: Vec<u8> = Vec::new();
                crate::render::push_slice(&mut out, s);
                proof {
                    assert(out@ =~= spec_render_parser_error(self@));
                }
                out
            },
            ParserError::UnexpectedToken(t) => {
                let s: &[u8] = &[
                    85, 110, 101, 120, 112, 101, 99, 116, 101, 100, 32, 116, 111, 107, 101,
                    110, 32,
                ];
                let mut out: Vec<u8> = Vec::new();
                crate::render::push_slice(&mut out, s);
                let text = t.render();
                crate::render::push_vec(&mut out, &text);
                proof {
                    assert(s@ =~= seq![
                        85u8, 110u8, 101u8, 120u8, 112u8, 101u8, 99u8, 116u8, 101u8, 100u8,
                        32u8, 116u8, 111u8, 107u8, 101u8, 110u8, 32u8,
                    ]);
                    assert(out@ =~= spec_render_parser_error(self@));
                }
                out
            },
        }
    }
}

/// What one front-end run produces for given source bytes: the parse of
/// the lexed-and-filtered token sequence, rendered; or the parse error's
/// rendered message.
pub open spec fn spec_run(src: Seq<u8>) -> Result<Seq<u8>, Seq<u8>> {
    match spec_parse(filter_tokens(spec_tokens(src, 0))) {
        Ok(e) => Ok(spec_render_expr(e)),
        Err(pe) => Err(spec_render_parser_error(pe)),
    }
}

/// The front end as one object: it keeps the last source it ran.
#[derive(Debug)]
pub struct Lox {
    pub contents: Vec<u8>,
}

impl Lox {
    pub fn new() -> (l: Lox)
        ensures
            l.contents@ == Seq::<u8>::empty(),
    {
        Lox { contents: Vec::new() }
    }

    /// Runs the front end on one in-memory source: stores it, lexes it,
    /// parses the filtered tokens, and returns the rendered tree, or the
    /// parse error's message.
    pub fn run(&mut self, source: Vec<u8>) -> (r: Result<Vec<u8>, LoxError>)
        ensures
            final(self).contents@ == source@,
            (match spec_run(source@) {
                Ok(text) => r matches Ok(v) && v@ == text,
                Err(msg) => r matches Err(q)
                    && (q matches LoxError::ParserError(m) && m@ == msg),
            }),
    {
        let src_copy = clone_bytes(&source);
        self.contents = source;
        let mut lexer = Lexer::new(src_copy);
        let tokens = lexer.tokenize();
        proof {
            lemma_spec_tokens_wf(self.contents@, 0);
            assert(all_wf(token_views(tokens@)));
        }
        let mut parser = Parser::new(tokens);
        match parser.parse() {
            Ok(expr) => Ok(expr.render()),
            Err(e) => Err(LoxError::ParserError(e.message())),
        }
    }
}

/// Round trip from source to parser input: the token sequence the parser
/// consumes is exactly the lexer's output minus `Skip` and `Comment`
/// tokens — nothing else is dropped, reordered or invented — and every
/// token in it is well formed. That the lexer's output itself is a
/// function of the source alone (re-lexing the same source twice yields
/// the same sequence) is `spec_tokens`' being a function, and is what
/// `Lexer::tokenize` promises of every run.
pub proof fn lemma_round_trip(src: Seq<u8>)
    ensures
        forall|k: int| 0 <= k < filter_tokens(spec_tokens(src, 0)).len()
            ==> is_carried(#[trigger] filter_tokens(spec_tokens(src, 0))[k]),
        forall|k: int| 0 <= k < spec_tokens(src, 0).len()
            && is_carried(#[trigger] spec_tokens(src, 0)[k])
            ==> filter_tokens(spec_tokens(src, 0)).contains(spec_tokens(src, 0)[k]),
        all_wf(filter_tokens(spec_tokens(src, 0))),
{
    let ts = spec_tokens(src, 0);
    let pred = |t: crate::token::TokenView| is_carried(t);
    ts.filter_lemma(pred);
    lemma_spec_tokens_wf(src, 0);
    lemma_filter_tokens_wf(ts);
}

} // verus!
