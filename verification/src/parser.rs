//! The parser: recursive descent over the filtered token sequence,
//! producing one expression tree or a located error.
//!
//! The grammar is stated by the `spec_*` functions, one per precedence
//! level (lowest to highest binding: comma, ternary expression,
//! equality, comparison, term, factor, unary, primary); the executable
//! `Parser` is proved to return exactly what they describe.

use crate::expr::{
    is_literal_kind, literal_of_kind, Binary, Expr, ExprView, Grouping, Literal, Ternary, Unary,
};
use crate::lexer::token_views;
use crate::token::{clone_token, Token, TokenKind, TokenKindView, TokenView};
use vstd::prelude::*;

verus! {

/// A syntactic failure: premature end of input, or a token of the wrong
/// kind at a required position.
#[derive(Debug, PartialEq)]
pub enum ParserError {
    Eof,
    UnexpectedToken(Token),
}

/// Specification-level view of a parser error.
pub enum ParserErrorView {
    Eof,
    UnexpectedToken(TokenView),
}

impl View for ParserError {
    type V = ParserErrorView;

    open spec fn view(&self) -> ParserErrorView {
        match self {
            ParserError::Eof => ParserErrorView::Eof,
            ParserError::UnexpectedToken(t) => ParserErrorView::UnexpectedToken(t@),
        }
    }
}

/// Tokens the parser carries: everything but whitespace and comments.
pub open spec fn is_carried(t: TokenView) -> bool {
    !(t.kind is Skip) && !(t.kind is Comment)
}

/// What the parser consumes: the token sequence with `Skip` and
/// `Comment` tokens dropped.
pub open spec fn filter_tokens(ts: Seq<TokenView>) -> Seq<TokenView> {
    ts.filter(|t: TokenView| is_carried(t))
}

pub proof fn lemma_filter_tokens_empty()
    ensures
        filter_tokens(Seq::<TokenView>::empty()) == Seq::<TokenView>::empty(),
{
    reveal(Seq::filter);
}

pub proof fn lemma_filter_tokens_push(ts: Seq<TokenView>, t: TokenView)
    ensures
        is_carried(t) ==> filter_tokens(ts.push(t)) == filter_tokens(ts).push(t),
        !is_carried(t) ==> filter_tokens(ts.push(t)) == filter_tokens(ts),
{
    reveal(Seq::filter);
    assert(ts.push(t).drop_last() =~= ts);
    assert(ts.push(t).last() == t);
}

/// Every token view in the sequence is well formed.
pub open spec fn all_wf(ts: Seq<TokenView>) -> bool {
    forall|k: int| 0 <= k < ts.len() ==> (#[trigger] ts[k]).wf()
}

/// Filtering keeps only well-formed tokens when all tokens are well
/// formed.
pub proof fn lemma_filter_tokens_wf(ts: Seq<TokenView>)
    requires
        all_wf(ts),
    ensures
        all_wf(filter_tokens(ts)),
    decreases ts.len(),
{
    reveal(Seq::filter);
    if ts.len() > 0 {
        assert(all_wf(ts.drop_last())) by {
            assert(forall|k: int| 0 <= k < ts.drop_last().len()
                ==> ts.drop_last()[k] == ts[k]);
        }
        lemma_filter_tokens_wf(ts.drop_last());
        let sub = filter_tokens(ts.drop_last());
        if is_carried(ts.last()) {
            assert(filter_tokens(ts) == sub.push(ts.last()));
            assert forall|k: int| 0 <= k < filter_tokens(ts).len()
                implies (#[trigger] filter_tokens(ts)[k]).wf() by {
                if k < sub.len() {
                    assert(sub[k].wf());
                } else {
                    assert(filter_tokens(ts)[k] == ts.last());
                    assert(ts[ts.len() - 1].wf());
                }
            }
        } else {
            assert(filter_tokens(ts) == sub);
        }
    }
}


// ---------------------------------------------------------------------
// The grammar, as one specification function per precedence level.
//
// Each level takes the token sequence and a cursor and yields the parsed
// tree together with the cursor just past it, or the error. A real parse
// always moves the cursor forward; `advanced` clamps a sub-parse's end
// so that the termination checker sees that without a separate
// induction, and is the identity whenever the end is in range.
// ---------------------------------------------------------------------

pub open spec fn advanced(lo: int, j: int, n: int) -> int {
    if lo < j && j <= n {
        j
    } else if lo + 1 <= n {
        lo + 1
    } else {
        n
    }
}

/// primary: literals, or a parenthesized expression requiring its `)`.
pub open spec fn spec_primary(toks: Seq<TokenView>, i: int) -> Result<
    (ExprView, int),
    ParserErrorView,
>
    decreases toks.len() - i, 1int,
        when 0 <= i <= toks.len()
{
    if i >= toks.len() {
        Err(ParserErrorView::Eof)
    } else {
        let t = toks[i];
        if is_literal_kind(t.kind) {
            Ok((ExprView::Literal(literal_of_kind(t.kind)), i + 1))
        } else if t.kind is LeftParen {
            match spec_expression(toks, i + 1) {
                Ok((e, j0)) => {
                    let j = advanced(i + 1, j0, toks.len() as int);
                    if j < toks.len() && toks[j].kind is RightParen {
                        Ok((ExprView::Grouping(Box::new(e)), j + 1))
                    } else if j >= toks.len() || toks[j].kind is Eof {
                        Err(ParserErrorView::Eof)
                    } else {
                        Err(ParserErrorView::UnexpectedToken(toks[j]))
                    }
                },
                Err(e) => Err(e),
            }
        } else {
            Err(ParserErrorView::UnexpectedToken(t))
        }
    }
}

/// unary: prefix `!` and `-`, right-associative.
pub open spec fn spec_unary(toks: Seq<TokenView>, i: int) -> Result<
    (ExprView, int),
    ParserErrorView,
>
    decreases toks.len() - i, 2int,
        when 0 <= i <= toks.len()
{
    if i < toks.len() && (toks[i].kind is Bang || toks[i].kind is Minus) {
        match spec_unary(toks, i + 1) {
            Ok((r, j)) => Ok(
                (ExprView::Unary { operator: toks[i], right: Box::new(r) }, j),
            ),
            Err(e) => Err(e),
        }
    } else {
        spec_primary(toks, i)
    }
}

/// factor: `/` and `*`, left-associative.
pub open spec fn spec_factor_rest(toks: Seq<TokenView>, acc: ExprView, j: int) -> Result<
    (ExprView, int),
    ParserErrorView,
>
    decreases toks.len() - j, 3int,
        when 0 <= j <= toks.len()
{
    if j < toks.len() && (toks[j].kind is Slash || toks[j].kind is Star) {
        match spec_unary(toks, j + 1) {
            Ok((r, k0)) => spec_factor_rest(
                toks,
                ExprView::Binary {
                    left: Box::new(acc),
                    operator: toks[j],
                    right: Box::new(r),
                },
                advanced(j + 1, k0, toks.len() as int),
            ),
            Err(e) => Err(e),
        }
    } else {
        Ok((acc, j))
    }
}

pub open spec fn spec_factor(toks: Seq<TokenView>, i: int) -> Result<
    (ExprView, int),
    ParserErrorView,
>
    decreases toks.len() - i, 4int,
        when 0 <= i <= toks.len()
{
    match spec_unary(toks, i) {
        Ok((e, j0)) => spec_factor_rest(toks, e, advanced(i, j0, toks.len() as int)),
        Err(e) => Err(e),
    }
}

/// term: `+` and `-`, left-associative.
pub open spec fn spec_term_rest(toks: Seq<TokenView>, acc: ExprView, j: int) -> Result<
    (ExprView, int),
    ParserErrorView,
>
    decreases toks.len() - j, 5int,
        when 0 <= j <= toks.len()
{
    if j < toks.len() && (toks[j].kind is Minus || toks[j].kind is Plus) {
        match spec_factor(toks, j + 1) {
            Ok((r, k0)) => spec_term_rest(
                toks,
                ExprView::Binary {
                    left: Box::new(acc),
                    operator: toks[j],
                    right: Box::new(r),
                },
                advanced(j + 1, k0, toks.len() as int),
            ),
            Err(e) => Err(e),
        }
    } else {
        Ok((acc, j))
    }
}

pub open spec fn spec_term(toks: Seq<TokenView>, i: int) -> Result<
    (ExprView, int),
    ParserErrorView,
>
    decreases toks.len() - i, 6int,
        when 0 <= i <= toks.len()
{
    match spec_factor(toks, i) {
        Ok((e, j0)) => spec_term_rest(toks, e, advanced(i, j0, toks.len() as int)),
        Err(e) => Err(e),
    }
}

/// comparison: `>`, `>=`, `<`, `<=`, left-associative.
pub open spec fn spec_comparison_rest(toks: Seq<TokenView>, acc: ExprView, j: int) -> Result<
    (ExprView, int),
    ParserErrorView,
>
    decreases toks.len() - j, 7int,
        when 0 <= j <= toks.len()
{
    if j < toks.len() && (toks[j].kind is Greater || toks[j].kind is GreaterEqual
        || toks[j].kind is Less || toks[j].kind is LessEqual) {
        match spec_term(toks, j + 1) {
            Ok((r, k0)) => spec_comparison_rest(
                toks,
                ExprView::Binary {
                    left: Box::new(acc),
                    operator: toks[j],
                    right: Box::new(r),
                },
                advanced(j + 1, k0, toks.len() as int),
            ),
            Err(e) => Err(e),
        }
    } else {
        Ok((acc, j))
    }
}

pub open spec fn spec_comparison(toks: Seq<TokenView>, i: int) -> Result<
    (ExprView, int),
    ParserErrorView,
>
    decreases toks.len() - i, 8int,
        when 0 <= i <= toks.len()
{
    match spec_term(toks, i) {
        Ok((e, j0)) => spec_comparison_rest(toks, e, advanced(i, j0, toks.len() as int)),
        Err(e) => Err(e),
    }
}

/// equality: `!=` and `==`, left-associative.
pub open spec fn spec_equality_rest(toks: Seq<TokenView>, acc: ExprView, j: int) -> Result<
    (ExprView, int),
    ParserErrorView,
>
    decreases toks.len() - j, 9int,
        when 0 <= j <= toks.len()
{
    if j < toks.len() && (toks[j].kind is BangEqual || toks[j].kind is EqualEqual) {
        match spec_comparison(toks, j + 1) {
            Ok((r, k0)) => spec_equality_rest(
                toks,
                ExprView::Binary {
                    left: Box::new(acc),
                    operator: toks[j],
                    right: Box::new(r),
                },
                advanced(j + 1, k0, toks.len() as int),
            ),
            Err(e) => Err(e),
        }
    } else {
        Ok((acc, j))
    }
}

pub open spec fn spec_equality(toks: Seq<TokenView>, i: int) -> Result<
    (ExprView, int),
    ParserErrorView,
>
    decreases toks.len() - i, 10int,
        when 0 <= i <= toks.len()
{
    match spec_comparison(toks, i) {
        Ok((e, j0)) => spec_equality_rest(toks, e, advanced(i, j0, toks.len() as int)),
        Err(e) => Err(e),
    }
}

/// The ternary extension: for a condition `c` parsed up to `j`, if a
/// `?` follows, parse the middle branch at the equality level, require
/// `:`, and parse the right branch at the equality level; exactly the
/// `? ... : ...` pairing is accepted.
pub open spec fn spec_ternary_tail(toks: Seq<TokenView>, c: ExprView, j: int) -> Result<
    (ExprView, int),
    ParserErrorView,
>
    decreases toks.len() - j, 11int,
        when 0 <= j <= toks.len()
{
    if j < toks.len() && toks[j].kind is QuestionMark {
        match spec_equality(toks, j + 1) {
            Ok((m, k0)) => {
                let k = advanced(j + 1, k0, toks.len() as int);
                if k < toks.len() && toks[k].kind is Colon {
                    match spec_equality(toks, k + 1) {
                        Ok((r, l0)) => Ok(
                            (
                                ExprView::Ternary {
                                    left: Box::new(c),
                                    left_operator: toks[j],
                                    middle: Box::new(m),
                                    right_operator: toks[k],
                                    right: Box::new(r),
                                },
                                l0,
                            ),
                        ),
                        Err(e) => Err(e),
                    }
                } else if k >= toks.len() || toks[k].kind is Eof {
                    Err(ParserErrorView::Eof)
                } else {
                    Err(ParserErrorView::UnexpectedToken(toks[k]))
                }
            },
            Err(e) => Err(e),
        }
    } else {
        Ok((c, j))
    }
}

/// expression: an equality, optionally extended to the ternary form.
pub open spec fn spec_expression(toks: Seq<TokenView>, i: int) -> Result<
    (ExprView, int),
    ParserErrorView,
>
    decreases toks.len() - i, 12int,
        when 0 <= i <= toks.len()
{
    match spec_equality(toks, i) {
        Ok((c, j0)) => spec_ternary_tail(toks, c, advanced(i, j0, toks.len() as int)),
        Err(e) => Err(e),
    }
}

/// comma: the lowest level, folding `,`-separated expressions into
/// left-deepening binary nodes.
pub open spec fn spec_comma_rest(toks: Seq<TokenView>, acc: ExprView, j: int) -> Result<
    (ExprView, int),
    ParserErrorView,
>
    decreases toks.len() - j, 13int,
        when 0 <= j <= toks.len()
{
    if j < toks.len() && toks[j].kind is Comma {
        match spec_expression(toks, j + 1) {
            Ok((r, k0)) => spec_comma_rest(
                toks,
                ExprView::Binary {
                    left: Box::new(acc),
                    operator: toks[j],
                    right: Box::new(r),
                },
                advanced(j + 1, k0, toks.len() as int),
            ),
            Err(e) => Err(e),
        }
    } else {
        Ok((acc, j))
    }
}

pub open spec fn spec_comma(toks: Seq<TokenView>, i: int) -> Result<
    (ExprView, int),
    ParserErrorView,
>
    decreases toks.len() - i, 14int,
        when 0 <= i <= toks.len()
{
    match spec_expression(toks, i) {
        Ok((e, j0)) => spec_comma_rest(toks, e, advanced(i, j0, toks.len() as int)),
        Err(e) => Err(e),
    }
}

/// One full parse from position `i`: the comma level, with the end
/// position dropped (trailing input is not an error).
pub open spec fn spec_parse_from(toks: Seq<TokenView>, i: int) -> Result<
    ExprView,
    ParserErrorView,
> {
    match spec_comma(toks, i) {
        Ok((e, _)) => Ok(e),
        Err(e) => Err(e),
    }
}

/// One full parse from the start of the token sequence.
pub open spec fn spec_parse(toks: Seq<TokenView>) -> Result<ExprView, ParserErrorView> {
    spec_parse_from(toks, 0)
}

/// The token kinds at which error recovery stops: a statement-starting
/// keyword, or a semicolon.
pub open spec fn is_sync_point(k: TokenKindView) -> bool {
    ||| k is Class
    ||| k is Fun
    ||| k is Var
    ||| k is For
    ||| k is If
    ||| k is While
    ||| k is Print
    ||| k is Return
    ||| k is SemiColon
}

/// The cursor position just past the next statement boundary, or the
/// end of the tokens if none follows.
pub open spec fn sync_end(toks: Seq<TokenView>, j: int) -> int
    decreases toks.len() - j
        when 0 <= j <= toks.len()
{
    if j >= toks.len() {
        j
    } else if is_sync_point(toks[j].kind) {
        j + 1
    } else {
        sync_end(toks, j + 1)
    }
}

/// How an executable step relates to its specification: same tree (well
/// formed), same cursor on success; same error on failure; the cursor
/// never runs backwards and never leaves the sequence.
pub open spec fn step_matches(
    r: Result<Expr, ParserError>,
    cur: int,
    prev: int,
    n: int,
    out: Result<(ExprView, int), ParserErrorView>,
) -> bool {
    match out {
        Ok((e, j)) => r matches Ok(x) && x@ == e && x@.wf() && cur == j && prev < j <= n,
        Err(pe) => r matches Err(q) && q@ == pe && prev <= cur <= n
            && (pe matches ParserErrorView::UnexpectedToken(t) ==> t.wf()),
    }
}

} // verus!

verus! {

// ---------------------------------------------------------------------
// The executable parser.
// ---------------------------------------------------------------------

/// The recursive-descent parser: a cursor over the filtered token
/// sequence, with one token of lookahead.
#[derive(Debug)]
pub struct Parser {
    pub tokens: Vec<Token>,
    pub current: usize,
}

impl Parser {
    /// The token views the parser consumes.
    pub open spec fn toks(self) -> Seq<TokenView> {
        token_views(self.tokens@)
    }

    pub open spec fn wf(self) -> bool {
        self.current <= self.tokens@.len() && all_wf(self.toks())
    }

    /// Drops `Skip` and `Comment` tokens on construction: what remains
    /// is exactly the filtered token sequence.
    pub fn new(tokens: Vec<Token>) -> (p: Parser)
        requires
            all_wf(token_views(tokens@)),
        ensures
            p.wf(),
            p.current == 0,
            p.toks() == filter_tokens(token_views(tokens@)),
    {
        let mut kept: Vec<Token> = Vec::new();
        let mut i: usize = 0;
        proof {
            lemma_filter_tokens_empty();
            assert(token_views(tokens@.subrange(0, 0)) =~= Seq::<TokenView>::empty());
            assert(token_views(kept@) =~= Seq::<TokenView>::empty());
        }
        while i < tokens.len()
            invariant
                i <= tokens.len(),
                all_wf(token_views(tokens@)),
                token_views(kept@) == filter_tokens(token_views(tokens@.subrange(0, i as int))),
                all_wf(token_views(kept@)),
            decreases tokens.len() - i,
        {
            let ghost pre = token_views(tokens@.subrange(0, i as int));
            let ghost tv = tokens@[i as int]@;
            proof {
                assert(token_views(tokens@.subrange(0, i + 1)) =~= pre.push(tv));
                lemma_filter_tokens_push(pre, tv);
                assert(token_views(tokens@)[i as int] == tv);
                assert(tv.wf());
            }
            let keep_it = match &tokens[i].kind {
                TokenKind::Skip(_) => false,
                TokenKind::Comment(_) => false,
                _ => true,
            };
            if keep_it {
                let t = clone_token(&tokens[i]);
                let ghost kpre = token_views(kept@);
                kept.push(t);
                proof {
                    assert(token_views(kept@) =~= kpre.push(tv));
                    assert forall|k: int| 0 <= k < token_views(kept@).len()
                        implies (#[trigger] token_views(kept@)[k]).wf() by {
                        if k < kpre.len() {
                            assert(kpre[k].wf());
                        }
                    }
                }
            }
            i = i + 1;
        }
        proof {
            assert(tokens@.subrange(0, tokens@.len() as int) =~= tokens@);
        }
        Parser { tokens: kept, current: 0 }
    }

    /// Returns the current token (copied) and moves past it.
    fn advance(&mut self) -> (t: Token)
        requires
            old(self).wf(),
            old(self).current < old(self).tokens@.len(),
        ensures
            final(self).wf(),
            final(self).tokens@ == old(self).tokens@,
            final(self).current == old(self).current + 1,
            t@ == old(self).toks()[old(self).current as int],
    {
        proof {
            assert(self.tokens@.len() == self.tokens.len());
        }
        let t = clone_token(&self.tokens[self.current]);
        self.current = self.current + 1;
        t
    }

    fn next_is_literal(&self) -> (r: bool)
        requires
            self.wf(),
        ensures
            r == (self.current < self.toks().len()
                && is_literal_kind(self.toks()[self.current as int].kind)),
    {
        if self.current < self.tokens.len() {
            match &self.tokens[self.current].kind {
                TokenKind::Number(_) => true,
                TokenKind::String(_) => true,
                TokenKind::True => true,
                TokenKind::False => true,
                TokenKind::Nil => true,
                _ => false,
            }
        } else {
            false
        }
    }

    fn next_is_left_paren(&self) -> (r: bool)
        requires
            self.wf(),
        ensures
            r == (self.current < self.toks().len()
                && self.toks()[self.current as int].kind is LeftParen),
    {
        if self.current < self.tokens.len() {
            match &self.tokens[self.current].kind {
                TokenKind::LeftParen => true,
                _ => false,
            }
        } else {
            false
        }
    }

    fn next_is_right_paren(&self) -> (r: bool)
        requires
            self.wf(),
        ensures
            r == (self.current < self.toks().len()
                && self.toks()[self.current as int].kind is RightParen),
    {
        if self.current < self.tokens.len() {
            match &self.tokens[self.current].kind {
                TokenKind::RightParen => true,
                _ => false,
            }
        } else {
            false
        }
    }

    fn next_is_eof_kind(&self) -> (r: bool)
        requires
            self.wf(),
        ensures
            r == (self.current < self.toks().len()
                && self.toks()[self.current as int].kind is Eof),
    {
        if self.current < self.tokens.len() {
            match &self.tokens[self.current].kind {
                TokenKind::Eof => true,
                _ => false,
            }
        } else {
            false
        }
    }

    fn next_is_comma(&self) -> (r: bool)
        requires
            self.wf(),
        ensures
            r == (self.current < self.toks().len()
                && self.toks()[self.current as int].kind is Comma),
    {
        if self.current < self.tokens.len() {
            match &self.tokens[self.current].kind {
                TokenKind::Comma => true,
                _ => false,
            }
        } else {
            false
        }
    }

    fn next_is_question(&self) -> (r: bool)
        requires
            self.wf(),
        ensures
            r == (self.current < self.toks().len()
                && self.toks()[self.current as int].kind is QuestionMark),
    {
        if self.current < self.tokens.len() {
            match &self.tokens[self.current].kind {
                TokenKind::QuestionMark => true,
                _ => false,
            }
        } else {
            false
        }
    }

    fn next_is_colon(&self) -> (r: bool)
        requires
            self.wf(),
        ensures
            r == (self.current < self.toks().len()
                && self.toks()[self.current as int].kind is Colon),
    {
        if self.current < self.tokens.len() {
            match &self.tokens[self.current].kind {
                TokenKind::Colon => true,
                _ => false,
            }
        } else {
            false
        }
    }

    fn next_is_equality_op(&self) -> (r: bool)
        requires
            self.wf(),
        ensures
            r == (self.current < self.toks().len()
                && (self.toks()[self.current as int].kind is BangEqual
                    || self.toks()[self.current as int].kind is EqualEqual)),
    {
        if self.current < self.tokens.len() {
            match &self.tokens[self.current].kind {
                TokenKind::BangEqual => true,
                TokenKind::EqualEqual => true,
                _ => false,
            }
        } else {
            false
        }
    }

    fn next_is_comparison_op(&self) -> (r: bool)
        requires
            self.wf(),
        ensures
            r == (self.current < self.toks().len()
                && (self.toks()[self.current as int].kind is Greater
                    || self.toks()[self.current as int].kind is GreaterEqual
                    || self.toks()[self.current as int].kind is Less
                    || self.toks()[self.current as int].kind is LessEqual)),
    {
        if self.current < self.tokens.len() {
            match &self.tokens[self.current].kind {
                TokenKind::Greater => true,
                TokenKind::GreaterEqual => true,
                TokenKind::Less => true,
                TokenKind::LessEqual => true,
                _ => false,
            }
        } else {
            false
        }
    }

    fn next_is_term_op(&self) -> (r: bool)
        requires
            self.wf(),
        ensures
            r == (self.current < self.toks().len()
                && (self.toks()[self.current as int].kind is Minus
                    || self.toks()[self.current as int].kind is Plus)),
    {
        if self.current < self.tokens.len() {
            match &self.tokens[self.current].kind {
                TokenKind::Minus => true,
                TokenKind::Plus => true,
                _ => false,
            }
        } else {
            false
        }
    }

    fn next_is_factor_op(&self) -> (r: bool)
        requires
            self.wf(),
        ensures
            r == (self.current < self.toks().len()
                && (self.toks()[self.current as int].kind is Slash
                    || self.toks()[self.current as int].kind is Star)),
    {
        if self.current < self.tokens.len() {
            match &self.tokens[self.current].kind {
                TokenKind::Slash => true,
                TokenKind::Star => true,
                _ => false,
            }
        } else {
            false
        }
    }

    fn next_is_unary_op(&self) -> (r: bool)
        requires
            self.wf(),
        ensures
            r == (self.current < self.toks().len()
                && (self.toks()[self.current as int].kind is Bang
                    || self.toks()[self.current as int].kind is Minus)),
    {
        if self.current < self.tokens.len() {
            match &self.tokens[self.current].kind {
                TokenKind::Bang => true,
                TokenKind::Minus => true,
                _ => false,
            }
        } else {
            false
        }
    }

    /// One full parse: the whole precedence hierarchy from the comma
    /// level down.
    #[verifier::loop_isolation(false)]
    #[verifier::rlimit(60)]
    pub fn parse(&mut self) -> (r: Result<Expr, ParserError>)
        requires
            old(self).wf(),
        ensures
            final(self).wf(),
            final(self).tokens@ == old(self).tokens@,
            (match spec_parse_from(old(self).toks(), old(self).current as int) {
                Ok(e) => r matches Ok(x) && x@ == e && x@.wf(),
                Err(pe) => r matches Err(q) && q@ == pe
                    && (pe matches ParserErrorView::UnexpectedToken(t) ==> t.wf()),
            }),
    {
        self.comma()
    }

    /// comma level: left-associative folding of `,`.
    #[verifier::loop_isolation(false)]
    #[verifier::rlimit(60)]
    pub fn comma(&mut self) -> (r: Result<Expr, ParserError>)
        requires
            old(self).wf(),
        ensures
            final(self).wf(),
            final(self).tokens@ == old(self).tokens@,
            step_matches(
                r,
                final(self).current as int,
                old(self).current as int,
                old(self).toks().len() as int,
                spec_comma(old(self).toks(), old(self).current as int),
            ),
        decreases old(self).tokens@.len() - old(self).current, 14int,
    {
        let ghost ts = self.toks();
        let ghost i0 = self.current as int;
        let ghost n = ts.len() as int;
        let ghost tvec = self.tokens@;
        let mut expr = match self.expression() {
            Ok(e) => e,
            Err(e) => {
                return Err(e);
            },
        };
        proof {
            assert(advanced(i0, self.current as int, n) == self.current as int);
        }
        loop
            invariant
                self.wf(),
                self.tokens@ == tvec,
                ts == self.toks(),
                n == ts.len() as int,
                i0 < self.current as int <= n,
                expr@.wf(),
                spec_comma(ts, i0) == spec_comma_rest(ts, expr@, self.current as int),
            decreases n - self.current,
        {
            if self.next_is_comma() {
                let ghost j = self.current as int;
                let op = self.advance();
                let right = match self.expression() {
                    Ok(e) => e,
                    Err(e) => {
                        return Err(e);
                    },
                };
                proof {
                    assert(advanced(j + 1, self.current as int, n) == self.current as int);
                }
                expr = Expr::Binary(Binary::new(expr, op, right));
            } else {
                return Ok(expr);
            }
        }
    }

    /// expression level: an equality, optionally a ternary
    /// `cond ? then : else` whose branches parse at the equality level.
    #[verifier::loop_isolation(false)]
    #[verifier::rlimit(60)]
    fn expression(&mut self) -> (r: Result<Expr, ParserError>)
        requires
            old(self).wf(),
        ensures
            final(self).wf(),
            final(self).tokens@ == old(self).tokens@,
            step_matches(
                r,
                final(self).current as int,
                old(self).current as int,
                old(self).toks().len() as int,
                spec_expression(old(self).toks(), old(self).current as int),
            ),
        decreases old(self).tokens@.len() - old(self).current, 12int,
    {
        let ghost ts = self.toks();
        let ghost i0 = self.current as int;
        let ghost n = ts.len() as int;
        let cond = match self.equality() {
            Ok(e) => e,
            Err(e) => {
                return Err(e);
            },
        };
        proof {
            assert(advanced(i0, self.current as int, n) == self.current as int);
        }
        self.ternary_tail(cond)
    }

    /// The ternary extension after a parsed condition.
    #[verifier::loop_isolation(false)]
    #[verifier::rlimit(100)]
    #[verifier::spinoff_prover]
    fn ternary_tail(&mut self, cond: Expr) -> (r: Result<Expr, ParserError>)
        requires
            old(self).wf(),
            cond@.wf(),
        ensures
            final(self).wf(),
            final(self).tokens@ == old(self).tokens@,
            ({
                let out = spec_ternary_tail(
                    old(self).toks(),
                    cond@,
                    old(self).current as int,
                );
                match out {
                    Ok((e, j)) => r matches Ok(x) && x@ == e && x@.wf()
                        && final(self).current as int == j
                        && old(self).current <= final(self).current
                        && final(self).current as int <= old(self).toks().len(),
                    Err(pe) => r matches Err(q) && q@ == pe
                        && (pe matches ParserErrorView::UnexpectedToken(t) ==> t.wf())
                        && old(self).current <= final(self).current
                        && final(self).current as int <= old(self).toks().len(),
                }
            }),
        decreases old(self).tokens@.len() - old(self).current, 11int,
    {
        let ghost ts = self.toks();
        let ghost n = ts.len() as int;
        if self.next_is_question() {
            let ghost j = self.current as int;
            let lop = self.advance();
            let middle = match self.equality() {
                Ok(e) => e,
                Err(e) => {
                    return Err(e);
                },
            };
            proof {
                assert(advanced(j + 1, self.current as int, n) == self.current as int);
            }
            if self.next_is_colon() {
                let rop = self.advance();
                let right = match self.equality() {
                    Ok(e) => e,
                    Err(e) => {
                        return Err(e);
                    },
                };
                Ok(Expr::Ternary(Ternary::new(cond, lop, middle, rop, right)))
            } else if self.current >= self.tokens.len() || self.next_is_eof_kind() {
                Err(ParserError::Eof)
            } else {
                proof {
                    assert(ts[self.current as int].wf());
                }
                Err(ParserError::UnexpectedToken(clone_token(&self.tokens[self.current])))
            }
        } else {
            Ok(cond)
        }
    }

    /// equality level: `!=` and `==`, left-associative.
    #[verifier::loop_isolation(false)]
    #[verifier::rlimit(60)]
    fn equality(&mut self) -> (r: Result<Expr, ParserError>)
        requires
            old(self).wf(),
        ensures
            final(self).wf(),
            final(self).tokens@ == old(self).tokens@,
            step_matches(
                r,
                final(self).current as int,
                old(self).current as int,
                old(self).toks().len() as int,
                spec_equality(old(self).toks(), old(self).current as int),
            ),
        decreases old(self).tokens@.len() - old(self).current, 10int,
    {
        let ghost ts = self.toks();
        let ghost i0 = self.current as int;
        let ghost n = ts.len() as int;
        let ghost tvec = self.tokens@;
        let mut expr = match self.comparison() {
            Ok(e) => e,
            Err(e) => {
                return Err(e);
            },
        };
        proof {
            assert(advanced(i0, self.current as int, n) == self.current as int);
        }
        loop
            invariant
                self.wf(),
                self.tokens@ == tvec,
                ts == self.toks(),
                n == ts.len() as int,
                i0 < self.current as int <= n,
                expr@.wf(),
                spec_equality(ts, i0) == spec_equality_rest(ts, expr@, self.current as int),
            decreases n - self.current,
        {
            if self.next_is_equality_op() {
                let ghost j = self.current as int;
                let op = self.advance();
                let right = match self.comparison() {
                    Ok(e) => e,
                    Err(e) => {
                        return Err(e);
                    },
                };
                proof {
                    assert(advanced(j + 1, self.current as int, n) == self.current as int);
                }
                expr = Expr::Binary(Binary::new(expr, op, right));
            } else {
                return Ok(expr);
            }
        }
    }

    /// comparison level: `>`, `>=`, `<`, `<=`, left-associative.
    #[verifier::loop_isolation(false)]
    #[verifier::rlimit(60)]
    fn comparison(&mut self) -> (r: Result<Expr, ParserError>)
        requires
            old(self).wf(),
        ensures
            final(self).wf(),
            final(self).tokens@ == old(self).tokens@,
            step_matches(
                r,
                final(self).current as int,
                old(self).current as int,
                old(self).toks().len() as int,
                spec_comparison(old(self).toks(), old(self).current as int),
            ),
        decreases old(self).tokens@.len() - old(self).current, 8int,
    {
        let ghost ts = self.toks();
        let ghost i0 = self.current as int;
        let ghost n = ts.len() as int;
        let ghost tvec = self.tokens@;
        let mut expr = match self.term() {
            Ok(e) => e,
            Err(e) => {
                return Err(e);
            },
        };
        proof {
            assert(advanced(i0, self.current as int, n) == self.current as int);
        }
        loop
            invariant
                self.wf(),
                self.tokens@ == tvec,
                ts == self.toks(),
                n == ts.len() as int,
                i0 < self.current as int <= n,
                expr@.wf(),
                spec_comparison(ts, i0) == spec_comparison_rest(ts, expr@, self.current as int),
            decreases n - self.current,
        {
            if self.next_is_comparison_op() {
                let ghost j = self.current as int;
                let op = self.advance();
                let right = match self.term() {
                    Ok(e) => e,
                    Err(e) => {
                        return Err(e);
                    },
                };
                proof {
                    assert(advanced(j + 1, self.current as int, n) == self.current as int);
                }
                expr = Expr::Binary(Binary::new(expr, op, right));
            } else {
                return Ok(expr);
            }
        }
    }

    /// term level: `+` and `-`, left-associative.
    #[verifier::loop_isolation(false)]
    #[verifier::rlimit(60)]
    fn term(&mut self) -> (r: Result<Expr, ParserError>)
        requires
            old(self).wf(),
        ensures
            final(self).wf(),
            final(self).tokens@ == old(self).tokens@,
            step_matches(
                r,
                final(self).current as int,
                old(self).current as int,
                old(self).toks().len() as int,
                spec_term(old(self).toks(), old(self).current as int),
            ),
        decreases old(self).tokens@.len() - old(self).current, 6int,
    {
        let ghost ts = self.toks();
        let ghost i0 = self.current as int;
        let ghost n = ts.len() as int;
        let ghost tvec = self.tokens@;
        let mut expr = match self.factor() {
            Ok(e) => e,
            Err(e) => {
                return Err(e);
            },
        };
        proof {
            assert(advanced(i0, self.current as int, n) == self.current as int);
        }
        loop
            invariant
                self.wf(),
                self.tokens@ == tvec,
                ts == self.toks(),
                n == ts.len() as int,
                i0 < self.current as int <= n,
                expr@.wf(),
                spec_term(ts, i0) == spec_term_rest(ts, expr@, self.current as int),
            decreases n - self.current,
        {
            if self.next_is_term_op() {
                let ghost j = self.current as int;
                let op = self.advance();
                let right = match self.factor() {
                    Ok(e) => e,
                    Err(e) => {
                        return Err(e);
                    },
                };
                proof {
                    assert(advanced(j + 1, self.current as int, n) == self.current as int);
                }
                expr = Expr::Binary(Binary::new(expr, op, right));
            } else {
                return Ok(expr);
            }
        }
    }

    /// factor level: `/` and `*`, left-associative.
    #[verifier::loop_isolation(false)]
    #[verifier::rlimit(60)]
    fn factor(&mut self) -> (r: Result<Expr, ParserError>)
        requires
            old(self).wf(),
        ensures
            final(self).wf(),
            final(self).tokens@ == old(self).tokens@,
            step_matches(
                r,
                final(self).current as int,
                old(self).current as int,
                old(self).toks().len() as int,
                spec_factor(old(self).toks(), old(self).current as int),
            ),
        decreases old(self).tokens@.len() - old(self).current, 4int,
    {
        let ghost ts = self.toks();
        let ghost i0 = self.current as int;
        let ghost n = ts.len() as int;
        let ghost tvec = self.tokens@;
        let mut expr = match self.unary() {
            Ok(e) => e,
            Err(e) => {
                return Err(e);
            },
        };
        proof {
            assert(advanced(i0, self.current as int, n) == self.current as int);
        }
        loop
            invariant
                self.wf(),
                self.tokens@ == tvec,
                ts == self.toks(),
                n == ts.len() as int,
                i0 < self.current as int <= n,
                expr@.wf(),
                spec_factor(ts, i0) == spec_factor_rest(ts, expr@, self.current as int),
            decreases n - self.current,
        {
            if self.next_is_factor_op() {
                let ghost j = self.current as int;
                let op = self.advance();
                let right = match self.unary() {
                    Ok(e) => e,
                    Err(e) => {
                        return Err(e);
                    },
                };
                proof {
                    assert(advanced(j + 1, self.current as int, n) == self.current as int);
                }
                expr = Expr::Binary(Binary::new(expr, op, right));
            } else {
                return Ok(expr);
            }
        }
    }

    /// unary level: prefix `!` and `-`, right-associative.
    #[verifier::loop_isolation(false)]
    #[verifier::rlimit(60)]
    fn unary(&mut self) -> (r: Result<Expr, ParserError>)
        requires
            old(self).wf(),
        ensures
            final(self).wf(),
            final(self).tokens@ == old(self).tokens@,
            step_matches(
                r,
                final(self).current as int,
                old(self).current as int,
                old(self).toks().len() as int,
                spec_unary(old(self).toks(), old(self).current as int),
            ),
        decreases old(self).tokens@.len() - old(self).current, 2int,
    {
        if self.next_is_unary_op() {
            let op = self.advance();
            match self.unary() {
                Ok(right) => Ok(Expr::Unary(Unary::new(op, right))),
                Err(e) => Err(e),
            }
        } else {
            self.primary()
        }
    }

    /// primary level: literals and parenthesized sub-expressions.
    #[verifier::loop_isolation(false)]
    #[verifier::rlimit(60)]
    fn primary(&mut self) -> (r: Result<Expr, ParserError>)
        requires
            old(self).wf(),
        ensures
            final(self).wf(),
            final(self).tokens@ == old(self).tokens@,
            step_matches(
                r,
                final(self).current as int,
                old(self).current as int,
                old(self).toks().len() as int,
                spec_primary(old(self).toks(), old(self).current as int),
            ),
        decreases old(self).tokens@.len() - old(self).current, 1int,
    {
        let ghost ts = self.toks();
        let ghost i0 = self.current as int;
        let ghost n = ts.len() as int;
        if self.current >= self.tokens.len() {
            return Err(ParserError::Eof);
        }
        proof {
            assert(ts[i0].wf());
        }
        if self.next_is_literal() {
            let tok = self.advance();
            return Ok(Expr::Literal(Literal::new(tok)));
        }
        if self.next_is_left_paren() {
            proof {
                assert(self.tokens@.len() == self.tokens.len());
            }
            self.current = self.current + 1;
            let inner = match self.expression() {
                Ok(e) => e,
                Err(e) => {
                    return Err(e);
                },
            };
            proof {
                assert(advanced(i0 + 1, self.current as int, n) == self.current as int);
            }
            if self.next_is_right_paren() {
                proof {
                    assert(self.tokens@.len() == self.tokens.len());
                }
                self.current = self.current + 1;
                return Ok(Expr::Grouping(Grouping::new(inner)));
            }
            if self.current >= self.tokens.len() || self.next_is_eof_kind() {
                return Err(ParserError::Eof);
            }
            proof {
                assert(ts[self.current as int].wf());
            }
            return Err(ParserError::UnexpectedToken(clone_token(&self.tokens[self.current])));
        }
        let bad = self.advance();
        Err(ParserError::UnexpectedToken(bad))
    }

    /// Discards tokens up to and including the next statement boundary:
    /// a statement-starting keyword or a semicolon. A recovery hook for
    /// future multi-statement support; parsing itself does not call it.
    pub fn synchronize(&mut self)
        requires
            old(self).wf(),
        ensures
            final(self).wf(),
            final(self).tokens@ == old(self).tokens@,
            final(self).current as int == sync_end(old(self).toks(), old(self).current as int),
    {
        let ghost ts = self.toks();
        let ghost i0 = self.current as int;
        let ghost tvec = self.tokens@;
        loop
            invariant_except_break
                sync_end(ts, i0) == sync_end(ts, self.current as int),
            invariant
                self.wf(),
                self.tokens@ == tvec,
                ts == self.toks(),
                i0 <= self.current as int <= ts.len(),
            ensures
                self.wf(),
                self.tokens@ == tvec,
                self.current as int == sync_end(ts, i0),
            decreases ts.len() - self.current,
        {
            if self.current >= self.tokens.len() {
                break;
            }
            let is_sync = match &self.tokens[self.current].kind {
                TokenKind::Class => true,
                TokenKind::Fun => true,
                TokenKind::Var => true,
                TokenKind::For => true,
                TokenKind::If => true,
                TokenKind::While => true,
                TokenKind::Print => true,
                TokenKind::Return => true,
                TokenKind::SemiColon => true,
                _ => false,
            };
            proof {
                assert(self.tokens@.len() == self.tokens.len());
            }
            self.current = self.current + 1;
            if is_sync {
                break;
            }
        }
    }
}

} // verus!
