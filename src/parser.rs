use vstd::prelude::*;

use crate::ast::{
    expr_model, exprs_model, stmts_model, Expr, ExprModel, Literal, Stmt, StmtModel, UntypedProgram,
};
use crate::lexer::{
    is_char, is_white_space, kind_at, lemma_run_end_at_stop, pair_at, run_end, single_kind, skip_ws,
    token_at, token_end, tokens_from, TokenStream,
};
use crate::token::{KindView, Token, TokenKind, TokenView};

verus! {

// ---------------------------------------------------------------------------
// The grammar as mathematics. Each rule takes the tokens that are left and
// gives what it parsed (if anything) with the tokens that are then left.
// ---------------------------------------------------------------------------

/// Whether the next token is of kind `k`.
pub open spec fn next_is(ts: Seq<TokenView>, k: KindView) -> bool {
    ts.len() > 0 && ts[0].kind == k
}

/// `primary`: takes one token; a string literal or an identifier is an
/// expression, anything else is none.
pub open spec fn parse_primary(ts: Seq<TokenView>) -> (Option<ExprModel>, Seq<TokenView>) {
    if ts.len() == 0 {
        (None, ts)
    } else {
        let rest = ts.drop_first();
        match ts[0].kind {
            KindView::Str(text) => (Some(ExprModel::Literal(text)), rest),
            KindView::Identifier => (Some(ExprModel::Identifier(ts[0])), rest),
            _ => (None, rest),
        }
    }
}

/// `expression`: a primary, applied to an argument list when `(` follows it.
pub open spec fn parse_expression(ts: Seq<TokenView>) -> (Option<ExprModel>, Seq<TokenView>)
    decreases ts.len(), 0int,
{
    let (p, rest) = parse_primary(ts);
    match p {
        Some(e) => if next_is(rest, KindView::LeftParen) {
            parse_application(e, rest.drop_first())
        } else {
            (Some(e), rest)
        },
        None => (None, rest),
    }
}

/// The argument list of a call of `callee`, after its `(`: arguments
/// separated by `,`, then `)`.
pub open spec fn parse_application(callee: ExprModel, ts: Seq<TokenView>) -> (
    Option<ExprModel>,
    Seq<TokenView>,
)
    decreases ts.len(), 2int,
{
    if next_is(ts, KindView::RightParen) {
        (Some(ExprModel::Application(Box::new(callee), Seq::empty())), ts.drop_first())
    } else {
        let (args, rest) = parse_arguments(ts, Seq::empty());
        match args {
            Some(a) => if next_is(rest, KindView::RightParen) {
                (Some(ExprModel::Application(Box::new(callee), a)), rest.drop_first())
            } else {
                (None, rest)
            },
            None => (None, rest),
        }
    }
}

/// One or more expressions separated by `,`, appended to `done`.
pub open spec fn parse_arguments(ts: Seq<TokenView>, done: Seq<ExprModel>) -> (
    Option<Seq<ExprModel>>,
    Seq<TokenView>,
)
    decreases ts.len(), 1int,
{
    let (a, rest) = parse_expression(ts);
    match a {
        // Every expression takes at least one token, so the length test
        // always holds here; it makes the recursion visibly finite.
        Some(e) => if rest.len() <= ts.len() {
            more_arguments(rest, done.push(e))
        } else {
            (Some(done.push(e)), rest)
        },
        None => (None, rest),
    }
}

/// After an argument: a `,` and further arguments, or the end of the list.
pub open spec fn more_arguments(ts: Seq<TokenView>, done: Seq<ExprModel>) -> (
    Option<Seq<ExprModel>>,
    Seq<TokenView>,
)
    decreases ts.len(), 0int,
{
    if next_is(ts, KindView::Comma) {
        parse_arguments(ts.drop_first(), done)
    } else {
        (Some(done), ts)
    }
}

/// `statement`: an expression, kept only when `;` follows it.
pub open spec fn parse_statement(ts: Seq<TokenView>) -> (Option<StmtModel>, Seq<TokenView>) {
    let (e, rest) = parse_expression(ts);
    if next_is(rest, KindView::SemiColon) {
        match e {
            Some(x) => (Some(StmtModel::Expr(x)), rest.drop_first()),
            None => (None, rest.drop_first()),
        }
    } else {
        (None, rest)
    }
}

/// Why a statement was left out of a program.
#[derive(Clone, Copy, Debug, PartialEq, Eq, Structural)]
pub enum SkipReason {
    /// No expression could be read where the statement begins.
    NoExpression,
    /// An expression was read, but no `;` follows it.
    MissingTerminator,
}

/// Why `statement` leaves out what it reads, or `None` when it keeps it.
pub open spec fn statement_skip(ts: Seq<TokenView>) -> Option<SkipReason> {
    let (e, rest) = parse_expression(ts);
    if e is Some {
        if next_is(rest, KindView::SemiColon) {
            None
        } else {
            Some(SkipReason::MissingTerminator)
        }
    } else {
        Some(SkipReason::NoExpression)
    }
}

/// The reasons for the statements that `program` leaves out, in order.
pub open spec fn parse_skips(ts: Seq<TokenView>) -> Seq<SkipReason>
    decreases ts.len(),
{
    if ts.len() == 0 {
        Seq::empty()
    } else {
        let rest = parse_statement(ts).1;
        if rest.len() < ts.len() {
            match statement_skip(ts) {
                Some(r) => seq![r] + parse_skips(rest),
                None => parse_skips(rest),
            }
        } else {
            Seq::empty()
        }
    }
}

/// `program`: statements until the tokens run out; one that does not parse is
/// left out.
pub open spec fn parse_statements(ts: Seq<TokenView>) -> Seq<StmtModel>
    decreases ts.len(),
{
    if ts.len() == 0 {
        Seq::empty()
    } else {
        let (s, rest) = parse_statement(ts);
        // As above, the test always holds.
        if rest.len() < ts.len() {
            match s {
                Some(st) => seq![st] + parse_statements(rest),
                None => parse_statements(rest),
            }
        } else {
            Seq::empty()
        }
    }
}

// ---------------------------------------------------------------------------
// Laws of the grammar
// ---------------------------------------------------------------------------

/// Tokens that end whatever comes before them: no `(`, `,` or `)` first.
pub open spec fn ends_expression(u: Seq<TokenView>) -> bool {
    u.len() > 0 && u[0].kind != KindView::LeftParen && u[0].kind != KindView::Comma && u[0].kind
        != KindView::RightParen
}

proof fn lemma_append_first(ts: Seq<TokenView>, u: Seq<TokenView>)
    requires
        ts.len() > 0,
    ensures
        (ts + u)[0] == ts[0],
        (ts + u).drop_first() == ts.drop_first() + u,
{
    assert((ts + u).drop_first() =~= ts.drop_first() + u);
}

proof fn lemma_expression_extends(ts: Seq<TokenView>, u: Seq<TokenView>)
    requires
        ends_expression(u),
        parse_expression(ts).0 is Some,
    ensures
        parse_expression(ts + u) == (parse_expression(ts).0, parse_expression(ts).1 + u),
    decreases ts.len(), 0int,
{
    lemma_append_first(ts, u);
    let rest = parse_primary(ts).1;
    if rest.len() > 0 {
        lemma_append_first(rest, u);
    }
    if next_is(rest, KindView::LeftParen) {
        lemma_application_extends(parse_primary(ts).0->0, rest.drop_first(), u);
    }
}

proof fn lemma_application_extends(callee: ExprModel, ts: Seq<TokenView>, u: Seq<TokenView>)
    requires
        ends_expression(u),
        parse_application(callee, ts).0 is Some,
    ensures
        parse_application(callee, ts + u) == (
            parse_application(callee, ts).0,
            parse_application(callee, ts).1 + u,
        ),
    decreases ts.len(), 2int,
{
    if ts.len() > 0 {
        lemma_append_first(ts, u);
    } else {
        assert(ts + u =~= u);
    }
    if !next_is(ts, KindView::RightParen) {
        lemma_arguments_extends(ts, Seq::empty(), u);
        let rest = parse_arguments(ts, Seq::empty()).1;
        lemma_append_first(rest, u);
    }
}

proof fn lemma_arguments_extends(ts: Seq<TokenView>, done: Seq<ExprModel>, u: Seq<TokenView>)
    requires
        ends_expression(u),
        parse_arguments(ts, done).0 is Some,
    ensures
        parse_arguments(ts + u, done) == (
            parse_arguments(ts, done).0,
            parse_arguments(ts, done).1 + u,
        ),
    decreases ts.len(), 1int,
{
    lemma_expression_extends(ts, u);
    let (a, rest) = parse_expression(ts);
    if rest.len() <= ts.len() {
        lemma_more_extends(rest, done.push(a->0), u);
    }
}

proof fn lemma_more_extends(ts: Seq<TokenView>, done: Seq<ExprModel>, u: Seq<TokenView>)
    requires
        ends_expression(u),
        more_arguments(ts, done).0 is Some,
    ensures
        more_arguments(ts + u, done) == (more_arguments(ts, done).0, more_arguments(ts, done).1 + u),
    decreases ts.len(), 0int,
{
    if ts.len() > 0 {
        lemma_append_first(ts, u);
    } else {
        assert(ts + u =~= u);
    }
    if next_is(ts, KindView::Comma) {
        lemma_arguments_extends(ts.drop_first(), done, u);
    }
}

/// A statement needs its `;`: when the tokens `ts` make up one whole
/// expression, `ts` followed by a `;` is the program of that one statement,
/// while `ts` alone is the empty program.
pub proof fn lemma_statement_needs_terminator(ts: Seq<TokenView>, semi: TokenView)
    requires
        parse_expression(ts).0 is Some,
        parse_expression(ts).1.len() == 0,
        semi.kind == KindView::SemiColon,
    ensures
        parse_statements(ts) == Seq::<StmtModel>::empty(),
        parse_statements(ts.push(semi)) == seq![StmtModel::Expr(parse_expression(ts).0->0)],
        parse_statements(ts).len() < parse_statements(ts.push(semi)).len(),
{
    let u = seq![semi];
    assert(ts.len() > 0);
    assert(parse_statements(Seq::<TokenView>::empty()) == Seq::<StmtModel>::empty());
    assert(parse_statement(ts) == (None::<StmtModel>, Seq::<TokenView>::empty()));
    assert(ts.push(semi) =~= ts + u);
    lemma_expression_extends(ts, u);
    assert(parse_expression(ts).1 + u =~= u);
    assert(u.drop_first() =~= Seq::<TokenView>::empty());
    assert(parse_statements(ts.push(semi)) =~= seq![StmtModel::Expr(parse_expression(ts).0->0)]
        + parse_statements(Seq::<TokenView>::empty()));
}

/// An unterminated statement leaves no trace: when the tokens `ts` make up
/// one whole expression and `rest` goes on with neither `(`, `,`, `)` nor
/// `;`, the program of `ts` followed by `rest` is the program of `rest`.
pub proof fn lemma_unterminated_statement_vanishes(ts: Seq<TokenView>, rest: Seq<TokenView>)
    requires
        parse_expression(ts).0 is Some,
        parse_expression(ts).1.len() == 0,
        ends_expression(rest),
        rest[0].kind != KindView::SemiColon,
    ensures
        parse_statements(ts + rest) == parse_statements(rest),
{
    lemma_expression_extends(ts, rest);
    assert(parse_expression(ts).1 + rest =~= rest);
    assert(ts.len() > 0);
    assert(parse_statement(ts + rest) == (None::<StmtModel>, rest));
}

/// A string literal statement reads back: scanning and parsing `"text";`
/// gives the one statement that is the literal `text`, for every text without
/// a `"`.
pub proof fn lemma_string_statement_round_trip(text: Seq<char>)
    requires
        forall|k: int| 0 <= k < text.len() ==> #[trigger] text[k] != '"',
    ensures
        parse_statements(tokens_from(seq!['"'] + text + seq!['"', ';'], 0)) == seq![
            StmtModel::Expr(ExprModel::Literal(text)),
        ],
{
    let s = seq!['"'] + text + seq!['"', ';'];
    let n = text.len() as int;
    assert(s.len() == n + 3);
    assert(s[0] == '"');
    assert(s[n + 1] == '"');
    assert(s[n + 2] == ';');
    assert forall|k: int| 1 <= k < n + 1 implies !is_char('"')(#[trigger] s[k]) by {
        assert(s[k] == text[k - 1]);
    }
    lemma_run_end_at_stop(s, 1, n + 1, is_char('"'));
    assert(skip_ws(s, 0) == 0);
    assert(token_end(s, 0) == n + 2);
    assert(s.subrange(1, n + 1) =~= text);
    let lit = token_at(s, 0);
    assert(lit.kind == KindView::Str(text));
    assert(skip_ws(s, n + 2) == n + 2);
    assert(!pair_at(s, n + 2));
    assert(single_kind(s[n + 2]) == Some(KindView::SemiColon));
    assert(token_end(s, n + 2) == n + 3);
    let semi = token_at(s, n + 2);
    assert(tokens_from(s, n + 3) == Seq::<TokenView>::empty());
    assert(tokens_from(s, n + 2) =~= seq![semi]);
    assert(tokens_from(s, 0) =~= seq![lit, semi]);
    let ts = seq![lit, semi];
    assert(ts.drop_first() =~= seq![semi]);
    assert(seq![semi].drop_first() =~= Seq::<TokenView>::empty());
    assert(parse_statements(ts) =~= seq![StmtModel::Expr(ExprModel::Literal(text))]
        + parse_statements(Seq::<TokenView>::empty()));
}

proof fn lemma_exprs_model_push(es: Seq<Expr>, e: Expr)
    ensures
        exprs_model(es.push(e)) == exprs_model(es).push(expr_model(e)),
{
    assert(es.push(e).subrange(0, es.len() as int) =~= es);
}

// ---------------------------------------------------------------------------
// The parser
// ---------------------------------------------------------------------------

/// Parses the tokens of `stream` into a program.
pub fn parse(stream: TokenStream) -> (p: UntypedProgram)
    requires
        stream.wf(),
    ensures
        p@ == parse_statements(stream.rest()),
{
    let mut parser = Parser::new(stream);
    parser.parse_program()
}

/// Parses the tokens of `stream` into a program, and also reports, in order,
/// why each statement that the program leaves out was left out.
pub fn parse_reporting(stream: TokenStream) -> (r: (UntypedProgram, Vec<SkipReason>))
    requires
        stream.wf(),
    ensures
        r.0@ == parse_statements(stream.rest()),
        r.1@ == parse_skips(stream.rest()),
{
    let mut parser = Parser::new(stream);
    parser.parse_program_reporting()
}

/// Whether two token kinds are the same, payload included.
pub fn same_kind(a: &TokenKind, b: &TokenKind) -> (r: bool)
    ensures
        r == (a@ == b@),
{
    match b {
        TokenKind::LeftBrace => matches!(a, TokenKind::LeftBrace),
        TokenKind::RightBrace => matches!(a, TokenKind::RightBrace),
        TokenKind::LeftParen => matches!(a, TokenKind::LeftParen),
        TokenKind::RightParen => matches!(a, TokenKind::RightParen),
        TokenKind::Dot => matches!(a, TokenKind::Dot),
        TokenKind::Comma => matches!(a, TokenKind::Comma),
        TokenKind::Colon => matches!(a, TokenKind::Colon),
        TokenKind::SemiColon => matches!(a, TokenKind::SemiColon),
        TokenKind::Bang => matches!(a, TokenKind::Bang),
        TokenKind::BangEqual => matches!(a, TokenKind::BangEqual),
        TokenKind::Plus => matches!(a, TokenKind::Plus),
        TokenKind::Minus => matches!(a, TokenKind::Minus),
        TokenKind::Star => matches!(a, TokenKind::Star),
        TokenKind::Slash => matches!(a, TokenKind::Slash),
        TokenKind::Equal => matches!(a, TokenKind::Equal),
        TokenKind::EqualEqual => matches!(a, TokenKind::EqualEqual),
        TokenKind::Greater => matches!(a, TokenKind::Greater),
        TokenKind::Less => matches!(a, TokenKind::Less),
        TokenKind::LessEqual => matches!(a, TokenKind::LessEqual),
        TokenKind::GreaterEqual => matches!(a, TokenKind::GreaterEqual),
        TokenKind::RightArrow => matches!(a, TokenKind::RightArrow),
        TokenKind::And => matches!(a, TokenKind::And),
        TokenKind::Or => matches!(a, TokenKind::Or),
        TokenKind::Let => matches!(a, TokenKind::Let),
        TokenKind::Mut => matches!(a, TokenKind::Mut),
        TokenKind::Fn => matches!(a, TokenKind::Fn),
        TokenKind::Enum => matches!(a, TokenKind::Enum),
        TokenKind::Record => matches!(a, TokenKind::Record),
        TokenKind::Interface => matches!(a, TokenKind::Interface),
        TokenKind::Impl => matches!(a, TokenKind::Impl),
        TokenKind::Check => matches!(a, TokenKind::Check),
        TokenKind::Match => matches!(a, TokenKind::Match),
        TokenKind::Identifier => matches!(a, TokenKind::Identifier),
        TokenKind::String(y) => match a {
            TokenKind::String(x) => *x == *y,
            _ => false,
        },
        TokenKind::Unknown => matches!(a, TokenKind::Unknown),
    }
}

/// A recursive-descent parser with one token of lookahead.
struct Parser {
    tokens: TokenStream,
    peeked: Option<Token>,
}

impl Parser {
    /// The tokens not yet consumed, the looked-ahead one first.
    spec fn remaining(&self) -> Seq<TokenView> {
        match self.peeked {
            Some(t) => seq![t@] + self.tokens.rest(),
            None => self.tokens.rest(),
        }
    }

    spec fn wf(&self) -> bool {
        self.tokens.wf()
    }

    fn new(tokens: TokenStream) -> (p: Parser)
        requires
            tokens.wf(),
        ensures
            p.wf(),
            p.remaining() == tokens.rest(),
    {
        Parser { tokens, peeked: None }
    }

    fn parse_program(&mut self) -> (p: UntypedProgram)
        requires
            old(self).wf(),
        ensures
            final(self).wf(),
            final(self).remaining().len() == 0,
            p@ == parse_statements(old(self).remaining()),
    {
        let mut stmts: Vec<Stmt> = Vec::new();
        while self.has_next()
            invariant
                self.wf(),
                stmts_model(stmts@) + parse_statements(self.remaining()) == parse_statements(
                    old(self).remaining(),
                ),
            decreases self.remaining().len(),
        {
            let ps = self.parse_stmt();
            if let Some(s) = ps {
                stmts.push(s);
                assert(stmts_model(stmts@) =~= stmts_model(stmts@.drop_last()).push(s@));
            }
            assert(stmts_model(stmts@) + parse_statements(self.remaining()) =~= parse_statements(
                old(self).remaining(),
            ));
        }
        UntypedProgram { stmts }
    }

    fn parse_program_reporting(&mut self) -> (r: (UntypedProgram, Vec<SkipReason>))
        requires
            old(self).wf(),
        ensures
            final(self).wf(),
            final(self).remaining().len() == 0,
            r.0@ == parse_statements(old(self).remaining()),
            r.1@ == parse_skips(old(self).remaining()),
    {
        let mut stmts: Vec<Stmt> = Vec::new();
        let mut skips: Vec<SkipReason> = Vec::new();
        while self.has_next()
            invariant
                self.wf(),
                stmts_model(stmts@) + parse_statements(self.remaining()) == parse_statements(
                    old(self).remaining(),
                ),
                skips@ + parse_skips(self.remaining()) == parse_skips(old(self).remaining()),
            decreases self.remaining().len(),
        {
            match self.expression_statement() {
                Ok(s) => {
                    stmts.push(s);
                    assert(stmts_model(stmts@) =~= stmts_model(stmts@.drop_last()).push(s@));
                },
                Err(why) => {
                    skips.push(why);
                },
            }
            assert(stmts_model(stmts@) + parse_statements(self.remaining()) =~= parse_statements(
                old(self).remaining(),
            ));
            assert(skips@ + parse_skips(self.remaining()) =~= parse_skips(old(self).remaining()));
        }
        (UntypedProgram { stmts }, skips)
    }

    fn parse_stmt(&mut self) -> (s: Option<Stmt>)
        requires
            old(self).wf(),
        ensures
            final(self).wf(),
            old(self).remaining().len() == 0 ==> s is None && final(self).remaining() == old(
                self,
            ).remaining(),
            old(self).remaining().len() > 0 ==> final(self).remaining().len() < old(
                self,
            ).remaining().len(),
            old(self).remaining().len() > 0 ==> match s {
                Some(x) => parse_statement(old(self).remaining()) == (
                    Some(x@),
                    final(self).remaining(),
                ),
                None => parse_statement(old(self).remaining()) == (
                    None::<StmtModel>,
                    final(self).remaining(),
                ),
            },
    {
        if !self.has_next() {
            return None;
        }
        match self.expression_statement() {
            Ok(x) => Some(x),
            Err(_) => None,
        }
    }

    fn expression_statement(&mut self) -> (s: Result<Stmt, SkipReason>)
        requires
            old(self).wf(),
            old(self).remaining().len() > 0,
        ensures
            final(self).wf(),
            final(self).remaining().len() < old(self).remaining().len(),
            match s {
                Ok(x) => parse_statement(old(self).remaining()) == (
                    Some(x@),
                    final(self).remaining(),
                ) && statement_skip(old(self).remaining()) is None,
                Err(why) => parse_statement(old(self).remaining()) == (
                    None::<StmtModel>,
                    final(self).remaining(),
                ) && statement_skip(old(self).remaining()) == Some(why),
            },
    {
        let expression = self.expression();
        match self.match_single(TokenKind::SemiColon) {
            Some(_) => match expression {
                Some(e) => Ok(Stmt::Expr { e }),
                None => Err(SkipReason::NoExpression),
            },
            None => match expression {
                Some(_) => Err(SkipReason::MissingTerminator),
                None => Err(SkipReason::NoExpression),
            },
        }
    }

    fn expression(&mut self) -> (e: Option<Expr>)
        requires
            old(self).wf(),
        ensures
            final(self).wf(),
            final(self).remaining().len() <= old(self).remaining().len(),
            old(self).remaining().len() > 0 ==> final(self).remaining().len() < old(
                self,
            ).remaining().len(),
            match e {
                Some(x) => parse_expression(old(self).remaining()) == (
                    Some(x@),
                    final(self).remaining(),
                ),
                None => parse_expression(old(self).remaining()) == (
                    None::<ExprModel>,
                    final(self).remaining(),
                ),
            },
        decreases old(self).remaining().len(), 0int,
    {
        match self.primary() {
            Some(e) => {
                if self.match_single(TokenKind::LeftParen).is_some() {
                    self.function_application_args(e)
                } else {
                    Some(e)
                }
            },
            None => None,
        }
    }

    // Called after the `(` that follows `callee`: parses the argument list and
    // its closing `)`.
    fn function_application_args(&mut self, callee: Expr) -> (e: Option<Expr>)
        requires
            old(self).wf(),
        ensures
            final(self).wf(),
            final(self).remaining().len() <= old(self).remaining().len(),
            match e {
                Some(x) => parse_application(callee@, old(self).remaining()) == (
                    Some(x@),
                    final(self).remaining(),
                ),
                None => parse_application(callee@, old(self).remaining()) == (
                    None::<ExprModel>,
                    final(self).remaining(),
                ),
            },
        decreases old(self).remaining().len(), 1int,
    {
        let ghost start = self.remaining();
        let mut args: Vec<Expr> = Vec::new();
        if !self.check_next(&TokenKind::RightParen) {
            let first = match self.expression() {
                Some(a) => a,
                None => {
                    return None;
                },
            };
            args.push(first);
            proof {
                lemma_exprs_model_push(Seq::empty(), first);
                assert(Seq::<Expr>::empty().push(first) =~= args@);
            }
            while self.match_single(TokenKind::Comma).is_some()
                invariant
                    self.wf(),
                    start == old(self).remaining(),
                    self.remaining().len() < start.len(),
                    parse_arguments(start, Seq::empty()) == more_arguments(
                        self.remaining(),
                        exprs_model(args@),
                    ),
                decreases self.remaining().len(),
            {
                match self.expression() {
                    Some(a) => {
                        proof {
                            lemma_exprs_model_push(args@, a);
                        }
                        args.push(a);
                    },
                    None => {
                        return None;
                    },
                }
            }
        }
        self.match_single(TokenKind::RightParen)?;
        Some(Expr::FunctionApplication { callee: Box::new(callee), args })
    }

    fn primary(&mut self) -> (e: Option<Expr>)
        requires
            old(self).wf(),
        ensures
            final(self).wf(),
            match e {
                Some(x) => parse_primary(old(self).remaining()) == (Some(x@), final(self).remaining()),
                None => parse_primary(old(self).remaining()) == (
                    None::<ExprModel>,
                    final(self).remaining(),
                ),
            },
    {
        match self.advance() {
            Some(t) => match t.kind {
                TokenKind::String(s) => Some(Expr::Literal { l: Literal::String(s) }),
                TokenKind::Identifier => Some(Expr::Identifier { name: t }),
                _ => None,
            },
            None => None,
        }
    }

    /// Takes the next token if it is of kind `t`.
    fn match_single(&mut self, t: TokenKind) -> (r: Option<Token>)
        requires
            old(self).wf(),
        ensures
            final(self).wf(),
            next_is(old(self).remaining(), t@) ==> r is Some && r->0@ == old(self).remaining()[0]
                && final(self).remaining() == old(self).remaining().drop_first(),
            !next_is(old(self).remaining(), t@) ==> r is None && final(self).remaining() == old(
                self,
            ).remaining(),
    {
        if self.check_next(&t) {
            self.advance()
        } else {
            None
        }
    }

    /// Whether the next token is of kind `t`; consumes nothing.
    fn check_next(&mut self, t: &TokenKind) -> (r: bool)
        requires
            old(self).wf(),
        ensures
            final(self).wf(),
            final(self).remaining() == old(self).remaining(),
            r == next_is(old(self).remaining(), t@),
    {
        self.look_ahead();
        match &self.peeked {
            Some(nxt) => same_kind(&nxt.kind, t),
            None => false,
        }
    }

    /// Whether any token is left.
    fn has_next(&mut self) -> (r: bool)
        requires
            old(self).wf(),
        ensures
            final(self).wf(),
            final(self).remaining() == old(self).remaining(),
            r == (old(self).remaining().len() > 0),
    {
        self.look_ahead();
        self.peeked.is_some()
    }

    /// Reads the next token into the lookahead slot, if it is empty.
    fn look_ahead(&mut self)
        requires
            old(self).wf(),
        ensures
            final(self).wf(),
            final(self).remaining() == old(self).remaining(),
            final(self).peeked is Some <==> old(self).remaining().len() > 0,
    {
        if self.peeked.is_none() {
            self.peeked = self.tokens.next();
            proof {
                if self.peeked is Some {
                    assert(self.remaining() =~= old(self).remaining());
                }
            }
        }
    }

    /// Takes the next token.
    fn advance(&mut self) -> (r: Option<Token>)
        requires
            old(self).wf(),
        ensures
            final(self).wf(),
            old(self).remaining().len() == 0 ==> r is None && final(self).remaining().len() == 0,
            old(self).remaining().len() > 0 ==> r is Some && r->0@ == old(self).remaining()[0]
                && final(self).remaining() == old(self).remaining().drop_first(),
    {
        match self.peeked.take() {
            Some(t) => {
                assert(old(self).remaining().drop_first() =~= self.remaining());
                Some(t)
            },
            None => self.tokens.next(),
        }
    }
}

} // verus!
