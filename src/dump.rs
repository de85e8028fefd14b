use vstd::prelude::*;

use crate::ast::{lemma_exprs_model_index, exprs_model, Expr, ExprModel, Literal, Stmt, StmtModel, UntypedProgram};
use crate::lexer::{chars_of, string_from};
use crate::token::{KindView, TokenKind};

verus! {

// ---------------------------------------------------------------------------
// The dump format. Text from the program is quoted, with `"`, `\`, line feed,
// carriage return and tab escaped by a backslash, so that no text can pass
// for the structure around it.
// ---------------------------------------------------------------------------

/// How one character of quoted text is written.
pub open spec fn escape_char(c: char) -> Seq<char> {
    if c == '"' {
        seq!['\\', '"']
    } else if c == '\\' {
        seq!['\\', '\\']
    } else if c == '\n' {
        seq!['\\', 'n']
    } else if c == '\r' {
        seq!['\\', 'r']
    } else if c == '\t' {
        seq!['\\', 't']
    } else {
        seq![c]
    }
}

/// `s` with each character written by `escape_char`.
pub open spec fn escaped(s: Seq<char>) -> Seq<char>
    decreases s.len(),
{
    if s.len() == 0 {
        Seq::empty()
    } else {
        escape_char(s[0]) + escaped(s.subrange(1, s.len() as int))
    }
}

/// `s` escaped, between double quotes.
pub open spec fn quoted(s: Seq<char>) -> Seq<char> {
    seq!['"'] + escaped(s) + seq!['"']
}

/// The name of a token kind.
pub open spec fn kind_name(k: KindView) -> Seq<char> {
    match k {
        KindView::LeftBrace => seq!['L', 'e', 'f', 't', 'B', 'r', 'a', 'c', 'e'],
        KindView::RightBrace => seq!['R', 'i', 'g', 'h', 't', 'B', 'r', 'a', 'c', 'e'],
        KindView::LeftParen => seq!['L', 'e', 'f', 't', 'P', 'a', 'r', 'e', 'n'],
        KindView::RightParen => seq!['R', 'i', 'g', 'h', 't', 'P', 'a', 'r', 'e', 'n'],
        KindView::Dot => seq!['D', 'o', 't'],
        KindView::Comma => seq!['C', 'o', 'm', 'm', 'a'],
        KindView::Colon => seq!['C', 'o', 'l', 'o', 'n'],
        KindView::SemiColon => seq!['S', 'e', 'm', 'i', 'C', 'o', 'l', 'o', 'n'],
        KindView::Bang => seq!['B', 'a', 'n', 'g'],
        KindView::BangEqual => seq!['B', 'a', 'n', 'g', 'E', 'q', 'u', 'a', 'l'],
        KindView::Plus => seq!['P', 'l', 'u', 's'],
        KindView::Minus => seq!['M', 'i', 'n', 'u', 's'],
        KindView::Star => seq!['S', 't', 'a', 'r'],
        KindView::Slash => seq!['S', 'l', 'a', 's', 'h'],
        KindView::Equal => seq!['E', 'q', 'u', 'a', 'l'],
        KindView::EqualEqual => seq!['E', 'q', 'u', 'a', 'l', 'E', 'q', 'u', 'a', 'l'],
        KindView::Greater => seq!['G', 'r', 'e', 'a', 't', 'e', 'r'],
        KindView::Less => seq!['L', 'e', 's', 's'],
        KindView::LessEqual => seq!['L', 'e', 's', 's', 'E', 'q', 'u', 'a', 'l'],
        KindView::GreaterEqual => seq!['G', 'r', 'e', 'a', 't', 'e', 'r', 'E', 'q', 'u', 'a', 'l'],
        KindView::RightArrow => seq!['R', 'i', 'g', 'h', 't', 'A', 'r', 'r', 'o', 'w'],
        KindView::And => seq!['A', 'n', 'd'],
        KindView::Or => seq!['O', 'r'],
        KindView::Let => seq!['L', 'e', 't'],
        KindView::Mut => seq!['M', 'u', 't'],
        KindView::Fn => seq!['F', 'n'],
        KindView::Enum => seq!['E', 'n', 'u', 'm'],
        KindView::Record => seq!['R', 'e', 'c', 'o', 'r', 'd'],
        KindView::Interface => seq!['I', 'n', 't', 'e', 'r', 'f', 'a', 'c', 'e'],
        KindView::Impl => seq!['I', 'm', 'p', 'l'],
        KindView::Check => seq!['C', 'h', 'e', 'c', 'k'],
        KindView::Match => seq!['M', 'a', 't', 'c', 'h'],
        KindView::Identifier => seq!['I', 'd', 'e', 'n', 't', 'i', 'f', 'i', 'e', 'r'],
        KindView::Str(_) => seq!['S', 't', 'r', 'i', 'n', 'g'],
        KindView::Unknown => seq!['U', 'n', 'k', 'n', 'o', 'w', 'n'],
    }
}

/// A token kind: its quoted name, and for a string literal its quoted text in
/// parentheses.
pub open spec fn show_kind(k: KindView) -> Seq<char> {
    match k {
        KindView::Str(p) => quoted(kind_name(k)) + seq!['('] + quoted(p) + seq![')'],
        _ => quoted(kind_name(k)),
    }
}

/// An expression: `Identifier(kind, "lexeme")`, `String("text")`, or
/// `Apply(callee, [arguments])`.
pub open spec fn show_expr(e: ExprModel) -> Seq<char>
    decreases e,
{
    match e {
        ExprModel::Identifier(t) => seq!['I', 'd', 'e', 'n', 't', 'i', 'f', 'i', 'e', 'r', '(']
            + show_kind(t.kind) + seq![',', ' '] + quoted(t.lexeme) + seq![')'],
        ExprModel::Literal(s) => seq!['S', 't', 'r', 'i', 'n', 'g', '('] + quoted(s) + seq![')'],
        ExprModel::Application(callee, args) => seq!['A', 'p', 'p', 'l', 'y', '('] + show_expr(
            *callee,
        ) + seq![',', ' ', '['] + show_exprs(args) + seq![']', ')'],
    }
}

/// Expressions separated by `, `.
pub open spec fn show_exprs(es: Seq<ExprModel>) -> Seq<char>
    decreases es,
{
    if es.len() == 0 {
        Seq::empty()
    } else if es.len() == 1 {
        show_expr(es[0])
    } else {
        show_expr(es[0]) + seq![',', ' '] + show_exprs(es.subrange(1, es.len() as int))
    }
}

/// A statement: `Expr(expression)`.
pub open spec fn show_stmt(s: StmtModel) -> Seq<char> {
    match s {
        StmtModel::Expr(e) => seq!['E', 'x', 'p', 'r', '('] + show_expr(e) + seq![')'],
    }
}

/// Statements separated by `, `.
pub open spec fn show_list(ss: Seq<StmtModel>) -> Seq<char>
    decreases ss.len(),
{
    if ss.len() == 0 {
        Seq::empty()
    } else if ss.len() == 1 {
        show_stmt(ss[0])
    } else {
        show_stmt(ss[0]) + seq![',', ' '] + show_list(ss.subrange(1, ss.len() as int))
    }
}

/// Statements, each on a line of its own, indented by two spaces.
pub open spec fn show_lines(ss: Seq<StmtModel>) -> Seq<char>
    decreases ss.len(),
{
    if ss.len() == 0 {
        Seq::empty()
    } else {
        seq![' ', ' '] + show_stmt(ss[0]) + seq!['\n'] + show_lines(ss.subrange(1, ss.len() as int))
    }
}

/// The text of `pretty_printed`.
pub open spec fn pretty_text(ss: Seq<StmtModel>) -> Seq<char> {
    seq!['P', 'r', 'o', 'g', 'r', 'a', 'm', '\n'] + show_lines(ss)
}

/// The text of `ast_debug_string`.
pub open spec fn debug_text(ss: Seq<StmtModel>) -> Seq<char> {
    seq!['['] + show_list(ss) + seq![']']
}

// ---------------------------------------------------------------------------
// Each dump can be read back: what follows a dump does not change where it
// ends, so equal texts come from equal trees.
// ---------------------------------------------------------------------------

proof fn lemma_cancel(p: Seq<char>, x: Seq<char>, y: Seq<char>)
    requires
        p + x == p + y,
    ensures
        x == y,
{
    assert(x =~= (p + x).subrange(p.len() as int, (p + x).len() as int));
    assert(y =~= (p + y).subrange(p.len() as int, (p + y).len() as int));
}

proof fn lemma_escape_char_prefix(a: char, b: char, x: Seq<char>, y: Seq<char>)
    requires
        escape_char(a) + x == escape_char(b) + y,
    ensures
        a == b,
        x == y,
{
    let ea = escape_char(a);
    let eb = escape_char(b);
    assert((ea + x)[0] == ea[0]);
    assert((eb + y)[0] == eb[0]);
    if ea.len() == 2 {
        assert((ea + x)[1] == ea[1]);
    }
    if eb.len() == 2 {
        assert((eb + y)[1] == eb[1]);
    }
    assert(a == b);
    lemma_cancel(ea, x, y);
}

proof fn lemma_escaped_prefix(s: Seq<char>, t: Seq<char>, r1: Seq<char>, r2: Seq<char>)
    requires
        escaped(s) + (seq!['"'] + r1) == escaped(t) + (seq!['"'] + r2),
    ensures
        s == t,
        r1 == r2,
    decreases s.len(),
{
    let q = seq!['"'];
    if s.len() == 0 {
        assert(escaped(s) + (q + r1) =~= q + r1);
        if t.len() > 0 {
            let e = escape_char(t[0]);
            assert(escaped(t) + (q + r2) =~= e + (escaped(t.subrange(1, t.len() as int)) + (q + r2)));
            assert((e + (escaped(t.subrange(1, t.len() as int)) + (q + r2)))[0] == e[0]);
            assert(false);
        }
        assert(escaped(t) + (q + r2) =~= q + r2);
        lemma_cancel(q, r1, r2);
    } else {
        let e1 = escape_char(s[0]);
        let s1 = s.subrange(1, s.len() as int);
        assert(escaped(s) + (q + r1) =~= e1 + (escaped(s1) + (q + r1)));
        if t.len() == 0 {
            assert(escaped(t) + (q + r2) =~= q + r2);
            assert((e1 + (escaped(s1) + (q + r1)))[0] == e1[0]);
            assert(false);
        } else {
            let e2 = escape_char(t[0]);
            let t1 = t.subrange(1, t.len() as int);
            assert(escaped(t) + (q + r2) =~= e2 + (escaped(t1) + (q + r2)));
            lemma_escape_char_prefix(s[0], t[0], escaped(s1) + (q + r1), escaped(t1) + (q + r2));
            lemma_escaped_prefix(s1, t1, r1, r2);
            assert(s =~= seq![s[0]] + s1);
            assert(t =~= seq![t[0]] + t1);
        }
    }
}

proof fn lemma_quoted_prefix(s: Seq<char>, t: Seq<char>, r1: Seq<char>, r2: Seq<char>)
    requires
        quoted(s) + r1 == quoted(t) + r2,
    ensures
        s == t,
        r1 == r2,
{
    let q = seq!['"'];
    assert(quoted(s) + r1 =~= q + (escaped(s) + (q + r1)));
    assert(quoted(t) + r2 =~= q + (escaped(t) + (q + r2)));
    lemma_cancel(q, escaped(s) + (q + r1), escaped(t) + (q + r2));
    lemma_escaped_prefix(s, t, r1, r2);
}

#[verifier::rlimit(50)]
proof fn lemma_kind_name_injective(a: KindView, b: KindView)
    requires
        kind_name(a) == kind_name(b),
    ensures
        (a is Str) == (b is Str),
        !(a is Str) ==> a == b,
{
    let n = kind_name(a);
    let m = kind_name(b);
    assert(n.len() == m.len());
    assert(n[0] == m[0]);
    assert(n[1] == m[1]);
    assert(n[2] == m[2]);
    assert(n[3] == m[3]);
    assert(n[4] == m[4]);
    assert(n[5] == m[5]);
}

proof fn lemma_kind_prefix(a: KindView, b: KindView, r1: Seq<char>, r2: Seq<char>)
    requires
        show_kind(a) + r1 == show_kind(b) + r2,
    ensures
        a == b,
        r1 == r2,
{
    let ta = match a {
        KindView::Str(p) => seq!['('] + quoted(p) + seq![')'],
        _ => Seq::empty(),
    };
    let tb = match b {
        KindView::Str(p) => seq!['('] + quoted(p) + seq![')'],
        _ => Seq::empty(),
    };
    assert(show_kind(a) + r1 =~= quoted(kind_name(a)) + (ta + r1));
    assert(show_kind(b) + r2 =~= quoted(kind_name(b)) + (tb + r2));
    lemma_quoted_prefix(kind_name(a), kind_name(b), ta + r1, tb + r2);
    lemma_kind_name_injective(a, b);
    match (a, b) {
        (KindView::Str(p1), KindView::Str(p2)) => {
            let o = seq!['('];
            let c = seq![')'];
            assert(ta + r1 =~= o + (quoted(p1) + (c + r1)));
            assert(tb + r2 =~= o + (quoted(p2) + (c + r2)));
            lemma_cancel(o, quoted(p1) + (c + r1), quoted(p2) + (c + r2));
            lemma_quoted_prefix(p1, p2, c + r1, c + r2);
            lemma_cancel(c, r1, r2);
        },
        _ => {
            assert(ta + r1 =~= r1);
            assert(tb + r2 =~= r2);
        },
    }
}

proof fn lemma_expr_first(e: ExprModel)
    ensures
        show_expr(e).len() > 0,
        show_expr(e)[0] == 'I' || show_expr(e)[0] == 'S' || show_expr(e)[0] == 'A',
{
}

proof fn lemma_expr_prefix(a: ExprModel, b: ExprModel, r1: Seq<char>, r2: Seq<char>)
    requires
        show_expr(a) + r1 == show_expr(b) + r2,
    ensures
        a == b,
        r1 == r2,
    decreases a,
{
    lemma_expr_first(a);
    lemma_expr_first(b);
    assert((show_expr(a) + r1)[0] == show_expr(a)[0]);
    assert((show_expr(b) + r2)[0] == show_expr(b)[0]);
    match a {
        ExprModel::Identifier(ta) => {
            let tb = b->Identifier_0;
            let p = seq!['I', 'd', 'e', 'n', 't', 'i', 'f', 'i', 'e', 'r', '('];
            let sep = seq![',', ' '];
            let c = seq![')'];
            assert(show_expr(a) + r1 =~= p + (show_kind(ta.kind) + (sep + (quoted(ta.lexeme) + (c
                + r1)))));
            assert(show_expr(b) + r2 =~= p + (show_kind(tb.kind) + (sep + (quoted(tb.lexeme) + (c
                + r2)))));
            lemma_cancel(
                p,
                show_kind(ta.kind) + (sep + (quoted(ta.lexeme) + (c + r1))),
                show_kind(tb.kind) + (sep + (quoted(tb.lexeme) + (c + r2))),
            );
            lemma_kind_prefix(
                ta.kind,
                tb.kind,
                sep + (quoted(ta.lexeme) + (c + r1)),
                sep + (quoted(tb.lexeme) + (c + r2)),
            );
            lemma_cancel(sep, quoted(ta.lexeme) + (c + r1), quoted(tb.lexeme) + (c + r2));
            lemma_quoted_prefix(ta.lexeme, tb.lexeme, c + r1, c + r2);
            lemma_cancel(c, r1, r2);
        },
        ExprModel::Literal(sa) => {
            let sb = b->Literal_0;
            let p = seq!['S', 't', 'r', 'i', 'n', 'g', '('];
            let c = seq![')'];
            assert(show_expr(a) + r1 =~= p + (quoted(sa) + (c + r1)));
            assert(show_expr(b) + r2 =~= p + (quoted(sb) + (c + r2)));
            lemma_cancel(p, quoted(sa) + (c + r1), quoted(sb) + (c + r2));
            lemma_quoted_prefix(sa, sb, c + r1, c + r2);
            lemma_cancel(c, r1, r2);
        },
        ExprModel::Application(ca, aa) => {
            let cb = b->Application_0;
            let ab = b->Application_1;
            let p = seq!['A', 'p', 'p', 'l', 'y', '('];
            let o = seq![',', ' ', '['];
            let c = seq![']', ')'];
            assert(show_expr(a) + r1 =~= p + (show_expr(*ca) + (o + (show_exprs(aa) + (c + r1)))));
            assert(show_expr(b) + r2 =~= p + (show_expr(*cb) + (o + (show_exprs(ab) + (c + r2)))));
            lemma_cancel(
                p,
                show_expr(*ca) + (o + (show_exprs(aa) + (c + r1))),
                show_expr(*cb) + (o + (show_exprs(ab) + (c + r2))),
            );
            lemma_expr_prefix(
                *ca,
                *cb,
                o + (show_exprs(aa) + (c + r1)),
                o + (show_exprs(ab) + (c + r2)),
            );
            lemma_cancel(o, show_exprs(aa) + (c + r1), show_exprs(ab) + (c + r2));
            lemma_exprs_prefix(aa, ab, r1, r2);
        },
    }
}

proof fn lemma_exprs_prefix(xs: Seq<ExprModel>, ys: Seq<ExprModel>, r1: Seq<char>, r2: Seq<char>)
    requires
        show_exprs(xs) + (seq![']', ')'] + r1) == show_exprs(ys) + (seq![']', ')'] + r2),
    ensures
        xs == ys,
        r1 == r2,
    decreases xs,
{
    let c = seq![']', ')'];
    let sep = seq![',', ' '];
    if xs.len() == 0 {
        assert(show_exprs(xs) + (c + r1) =~= c + r1);
        if ys.len() > 0 {
            lemma_expr_first(ys[0]);
            let tail = if ys.len() == 1 {
                c + r2
            } else {
                sep + (show_exprs(ys.subrange(1, ys.len() as int)) + (c + r2))
            };
            assert(show_exprs(ys) + (c + r2) =~= show_expr(ys[0]) + tail);
            assert((show_expr(ys[0]) + tail)[0] == show_expr(ys[0])[0]);
            assert(false);
        }
        assert(show_exprs(ys) + (c + r2) =~= c + r2);
        lemma_cancel(c, r1, r2);
        assert(xs =~= ys);
    } else {
        lemma_expr_first(xs[0]);
        let xt = if xs.len() == 1 {
            c + r1
        } else {
            sep + (show_exprs(xs.subrange(1, xs.len() as int)) + (c + r1))
        };
        assert(show_exprs(xs) + (c + r1) =~= show_expr(xs[0]) + xt);
        if ys.len() == 0 {
            assert(show_exprs(ys) + (c + r2) =~= c + r2);
            assert((show_expr(xs[0]) + xt)[0] == show_expr(xs[0])[0]);
            assert(false);
        } else {
            let yt = if ys.len() == 1 {
                c + r2
            } else {
                sep + (show_exprs(ys.subrange(1, ys.len() as int)) + (c + r2))
            };
            assert(show_exprs(ys) + (c + r2) =~= show_expr(ys[0]) + yt);
            lemma_expr_prefix(xs[0], ys[0], xt, yt);
            assert(xt[0] == yt[0]);
            if xs.len() == 1 && ys.len() == 1 {
                lemma_cancel(c, r1, r2);
                assert(xs =~= ys);
            } else if xs.len() > 1 && ys.len() > 1 {
                let xs1 = xs.subrange(1, xs.len() as int);
                let ys1 = ys.subrange(1, ys.len() as int);
                lemma_cancel(sep, show_exprs(xs1) + (c + r1), show_exprs(ys1) + (c + r2));
                lemma_exprs_prefix(xs1, ys1, r1, r2);
                assert(xs =~= seq![xs[0]] + xs1);
                assert(ys =~= seq![ys[0]] + ys1);
            } else {
                assert(false);
            }
        }
    }
}

proof fn lemma_stmt_prefix(a: StmtModel, b: StmtModel, r1: Seq<char>, r2: Seq<char>)
    requires
        show_stmt(a) + r1 == show_stmt(b) + r2,
    ensures
        a == b,
        r1 == r2,
{
    let p = seq!['E', 'x', 'p', 'r', '('];
    let c = seq![')'];
    let ea = a->Expr_0;
    let eb = b->Expr_0;
    assert(show_stmt(a) + r1 =~= p + (show_expr(ea) + (c + r1)));
    assert(show_stmt(b) + r2 =~= p + (show_expr(eb) + (c + r2)));
    lemma_cancel(p, show_expr(ea) + (c + r1), show_expr(eb) + (c + r2));
    lemma_expr_prefix(ea, eb, c + r1, c + r2);
    lemma_cancel(c, r1, r2);
}

proof fn lemma_list_prefix(xs: Seq<StmtModel>, ys: Seq<StmtModel>, r1: Seq<char>, r2: Seq<char>)
    requires
        show_list(xs) + (seq![']'] + r1) == show_list(ys) + (seq![']'] + r2),
    ensures
        xs == ys,
        r1 == r2,
    decreases xs.len(),
{
    let c = seq![']'];
    let sep = seq![',', ' '];
    if xs.len() == 0 {
        assert(show_list(xs) + (c + r1) =~= c + r1);
        if ys.len() > 0 {
            let tail = if ys.len() == 1 {
                c + r2
            } else {
                sep + (show_list(ys.subrange(1, ys.len() as int)) + (c + r2))
            };
            assert(show_list(ys) + (c + r2) =~= show_stmt(ys[0]) + tail);
            assert((show_stmt(ys[0]) + tail)[0] == show_stmt(ys[0])[0]);
            assert(false);
        }
        assert(show_list(ys) + (c + r2) =~= c + r2);
        lemma_cancel(c, r1, r2);
        assert(xs =~= ys);
    } else {
        let xt = if xs.len() == 1 {
            c + r1
        } else {
            sep + (show_list(xs.subrange(1, xs.len() as int)) + (c + r1))
        };
        assert(show_list(xs) + (c + r1) =~= show_stmt(xs[0]) + xt);
        if ys.len() == 0 {
            assert(show_list(ys) + (c + r2) =~= c + r2);
            assert((show_stmt(xs[0]) + xt)[0] == show_stmt(xs[0])[0]);
            assert(false);
        } else {
            let yt = if ys.len() == 1 {
                c + r2
            } else {
                sep + (show_list(ys.subrange(1, ys.len() as int)) + (c + r2))
            };
            assert(show_list(ys) + (c + r2) =~= show_stmt(ys[0]) + yt);
            lemma_stmt_prefix(xs[0], ys[0], xt, yt);
            assert(xt[0] == yt[0]);
            if xs.len() == 1 && ys.len() == 1 {
                lemma_cancel(c, r1, r2);
                assert(xs =~= ys);
            } else if xs.len() > 1 && ys.len() > 1 {
                let xs1 = xs.subrange(1, xs.len() as int);
                let ys1 = ys.subrange(1, ys.len() as int);
                lemma_cancel(sep, show_list(xs1) + (c + r1), show_list(ys1) + (c + r2));
                lemma_list_prefix(xs1, ys1, r1, r2);
                assert(xs =~= seq![xs[0]] + xs1);
                assert(ys =~= seq![ys[0]] + ys1);
            } else {
                assert(false);
            }
        }
    }
}

proof fn lemma_lines_injective(xs: Seq<StmtModel>, ys: Seq<StmtModel>)
    requires
        show_lines(xs) == show_lines(ys),
    ensures
        xs == ys,
    decreases xs.len(),
{
    if xs.len() == 0 || ys.len() == 0 {
        assert(show_lines(xs).len() == 0 <==> xs.len() == 0);
        assert(show_lines(ys).len() == 0 <==> ys.len() == 0);
        assert(xs =~= ys);
    } else {
        let ind = seq![' ', ' '];
        let nl = seq!['\n'];
        let xs1 = xs.subrange(1, xs.len() as int);
        let ys1 = ys.subrange(1, ys.len() as int);
        assert(show_lines(xs) =~= ind + (show_stmt(xs[0]) + (nl + show_lines(xs1))));
        assert(show_lines(ys) =~= ind + (show_stmt(ys[0]) + (nl + show_lines(ys1))));
        lemma_cancel(ind, show_stmt(xs[0]) + (nl + show_lines(xs1)), show_stmt(ys[0]) + (nl
            + show_lines(ys1)));
        lemma_stmt_prefix(xs[0], ys[0], nl + show_lines(xs1), nl + show_lines(ys1));
        lemma_cancel(nl, show_lines(xs1), show_lines(ys1));
        lemma_lines_injective(xs1, ys1);
        assert(xs =~= seq![xs[0]] + xs1);
        assert(ys =~= seq![ys[0]] + ys1);
    }
}

/// The dump of `pretty_printed` is faithful: two programs have the same dump
/// exactly when they are the same program.
pub proof fn lemma_pretty_text_faithful(p: Seq<StmtModel>, q: Seq<StmtModel>)
    ensures
        (pretty_text(p) == pretty_text(q)) == (p == q),
{
    if pretty_text(p) == pretty_text(q) {
        lemma_cancel(seq!['P', 'r', 'o', 'g', 'r', 'a', 'm', '\n'], show_lines(p), show_lines(q));
        lemma_lines_injective(p, q);
    }
}

/// The dump of `ast_debug_string` is faithful: two programs have the same
/// dump exactly when they are the same program.
pub proof fn lemma_debug_text_faithful(p: Seq<StmtModel>, q: Seq<StmtModel>)
    ensures
        (debug_text(p) == debug_text(q)) == (p == q),
{
    if debug_text(p) == debug_text(q) {
        let o = seq!['['];
        let c = seq![']'];
        let e = Seq::<char>::empty();
        assert(debug_text(p) =~= o + (show_list(p) + (c + e)));
        assert(debug_text(q) =~= o + (show_list(q) + (c + e)));
        lemma_cancel(o, show_list(p) + (c + e), show_list(q) + (c + e));
        lemma_list_prefix(p, q, e, e);
    }
}

// ---------------------------------------------------------------------------
// Growing a dump one item at a time
// ---------------------------------------------------------------------------

proof fn lemma_escaped_push(s: Seq<char>, c: char)
    ensures
        escaped(s.push(c)) == escaped(s) + escape_char(c),
    decreases s.len(),
{
    if s.len() == 0 {
        assert(s.push(c).subrange(1, 1) =~= Seq::<char>::empty());
        assert(s.push(c)[0] == c);
        assert(escaped(Seq::<char>::empty()) == Seq::<char>::empty());
        assert(s =~= Seq::<char>::empty());
        assert(escaped(s.push(c)) =~= escape_char(c));
    } else {
        let s1 = s.subrange(1, s.len() as int);
        assert(s.push(c).subrange(1, s.len() as int + 1) =~= s1.push(c));
        lemma_escaped_push(s1, c);
        assert(escaped(s.push(c)) =~= escaped(s) + escape_char(c));
    }
}

proof fn lemma_exprs_push(s: Seq<ExprModel>, x: ExprModel)
    ensures
        show_exprs(s.push(x)) == if s.len() == 0 {
            show_expr(x)
        } else {
            show_exprs(s) + seq![',', ' '] + show_expr(x)
        },
    decreases s.len(),
{
    if s.len() > 0 {
        let s1 = s.subrange(1, s.len() as int);
        assert(s.push(x).subrange(1, s.len() as int + 1) =~= s1.push(x));
        lemma_exprs_push(s1, x);
        assert(show_exprs(s.push(x)) =~= show_exprs(s) + seq![',', ' '] + show_expr(x));
    }
}

proof fn lemma_list_push(s: Seq<StmtModel>, x: StmtModel)
    ensures
        show_list(s.push(x)) == if s.len() == 0 {
            show_stmt(x)
        } else {
            show_list(s) + seq![',', ' '] + show_stmt(x)
        },
    decreases s.len(),
{
    if s.len() > 0 {
        let s1 = s.subrange(1, s.len() as int);
        assert(s.push(x).subrange(1, s.len() as int + 1) =~= s1.push(x));
        lemma_list_push(s1, x);
        assert(show_list(s.push(x)) =~= show_list(s) + seq![',', ' '] + show_stmt(x));
    }
}

proof fn lemma_lines_push(s: Seq<StmtModel>, x: StmtModel)
    ensures
        show_lines(s.push(x)) == show_lines(s) + (seq![' ', ' '] + show_stmt(x) + seq!['\n']),
    decreases s.len(),
{
    if s.len() == 0 {
        assert(s.push(x).subrange(1, 1) =~= Seq::<StmtModel>::empty());
        assert(s.push(x)[0] == x);
        assert(show_lines(Seq::<StmtModel>::empty()) == Seq::<char>::empty());
        assert(s =~= Seq::<StmtModel>::empty());
        assert(show_lines(s.push(x)) =~= seq![' ', ' '] + show_stmt(x) + seq!['\n']);
    } else {
        let s1 = s.subrange(1, s.len() as int);
        assert(s.push(x).subrange(1, s.len() as int + 1) =~= s1.push(x));
        lemma_lines_push(s1, x);
        assert(show_lines(s.push(x)) =~= show_lines(s) + (seq![' ', ' '] + show_stmt(x) + seq!['\n']));
    }
}

// ---------------------------------------------------------------------------
// Writing dumps
// ---------------------------------------------------------------------------

fn put(out: &mut Vec<char>, w: &[char])
    ensures
        final(out)@ == old(out)@ + w@,
{
    let mut i: usize = 0;
    while i < w.len()
        invariant
            i <= w@.len(),
            out@ == old(out)@ + w@.subrange(0, i as int),
        decreases w.len() - i,
    {
        out.push(w[i]);
        i = i + 1;
        assert(out@ =~= old(out)@ + w@.subrange(0, i as int));
    }
    assert(w@.subrange(0, i as int) =~= w@);
}

fn put_escaped(out: &mut Vec<char>, c: char)
    ensures
        final(out)@ == old(out)@ + escape_char(c),
{
    if c == '"' {
        out.push('\\');
        out.push('"');
    } else if c == '\\' {
        out.push('\\');
        out.push('\\');
    } else if c == '\n' {
        out.push('\\');
        out.push('n');
    } else if c == '\r' {
        out.push('\\');
        out.push('r');
    } else if c == '\t' {
        out.push('\\');
        out.push('t');
    } else {
        out.push(c);
    }
    assert(out@ =~= old(out)@ + escape_char(c));
}

fn put_quoted(out: &mut Vec<char>, s: &[char])
    ensures
        final(out)@ == old(out)@ + quoted(s@),
{
    out.push('"');
    let mut i: usize = 0;
    assert(s@.subrange(0, 0) =~= Seq::<char>::empty());
    assert(out@ =~= old(out)@ + seq!['"'] + escaped(s@.subrange(0, 0)));
    while i < s.len()
        invariant
            i <= s@.len(),
            out@ == old(out)@ + seq!['"'] + escaped(s@.subrange(0, i as int)),
        decreases s.len() - i,
    {
        put_escaped(out, s[i]);
        proof {
            assert(s@.subrange(0, i + 1) =~= s@.subrange(0, i as int).push(s@[i as int]));
            lemma_escaped_push(s@.subrange(0, i as int), s@[i as int]);
        }
        i = i + 1;
        assert(out@ =~= old(out)@ + seq!['"'] + escaped(s@.subrange(0, i as int)));
    }
    assert(s@.subrange(0, i as int) =~= s@);
    out.push('"');
    assert(out@ =~= old(out)@ + quoted(s@));
}

fn write_kind(out: &mut Vec<char>, k: &TokenKind)
    ensures
        final(out)@ == old(out)@ + show_kind(k@),
{
    match k {
        TokenKind::LeftBrace => put_quoted(out, &['L', 'e', 'f', 't', 'B', 'r', 'a', 'c', 'e']),
        TokenKind::RightBrace => put_quoted(out, &['R', 'i', 'g', 'h', 't', 'B', 'r', 'a', 'c', 'e']),
        TokenKind::LeftParen => put_quoted(out, &['L', 'e', 'f', 't', 'P', 'a', 'r', 'e', 'n']),
        TokenKind::RightParen => put_quoted(out, &['R', 'i', 'g', 'h', 't', 'P', 'a', 'r', 'e', 'n']),
        TokenKind::Dot => put_quoted(out, &['D', 'o', 't']),
        TokenKind::Comma => put_quoted(out, &['C', 'o', 'm', 'm', 'a']),
        TokenKind::Colon => put_quoted(out, &['C', 'o', 'l', 'o', 'n']),
        TokenKind::SemiColon => put_quoted(out, &['S', 'e', 'm', 'i', 'C', 'o', 'l', 'o', 'n']),
        TokenKind::Bang => put_quoted(out, &['B', 'a', 'n', 'g']),
        TokenKind::BangEqual => put_quoted(out, &['B', 'a', 'n', 'g', 'E', 'q', 'u', 'a', 'l']),
        TokenKind::Plus => put_quoted(out, &['P', 'l', 'u', 's']),
        TokenKind::Minus => put_quoted(out, &['M', 'i', 'n', 'u', 's']),
        TokenKind::Star => put_quoted(out, &['S', 't', 'a', 'r']),
        TokenKind::Slash => put_quoted(out, &['S', 'l', 'a', 's', 'h']),
        TokenKind::Equal => put_quoted(out, &['E', 'q', 'u', 'a', 'l']),
        TokenKind::EqualEqual => put_quoted(out, &['E', 'q', 'u', 'a', 'l', 'E', 'q', 'u', 'a', 'l']),
        TokenKind::Greater => put_quoted(out, &['G', 'r', 'e', 'a', 't', 'e', 'r']),
        TokenKind::Less => put_quoted(out, &['L', 'e', 's', 's']),
        TokenKind::LessEqual => put_quoted(out, &['L', 'e', 's', 's', 'E', 'q', 'u', 'a', 'l']),
        TokenKind::GreaterEqual => put_quoted(out, &['G', 'r', 'e', 'a', 't', 'e', 'r', 'E', 'q', 'u', 'a', 'l']),
        TokenKind::RightArrow => put_quoted(out, &['R', 'i', 'g', 'h', 't', 'A', 'r', 'r', 'o', 'w']),
        TokenKind::And => put_quoted(out, &['A', 'n', 'd']),
        TokenKind::Or => put_quoted(out, &['O', 'r']),
        TokenKind::Let => put_quoted(out, &['L', 'e', 't']),
        TokenKind::Mut => put_quoted(out, &['M', 'u', 't']),
        TokenKind::Fn => put_quoted(out, &['F', 'n']),
        TokenKind::Enum => put_quoted(out, &['E', 'n', 'u', 'm']),
        TokenKind::Record => put_quoted(out, &['R', 'e', 'c', 'o', 'r', 'd']),
        TokenKind::Interface => put_quoted(out, &['I', 'n', 't', 'e', 'r', 'f', 'a', 'c', 'e']),
        TokenKind::Impl => put_quoted(out, &['I', 'm', 'p', 'l']),
        TokenKind::Check => put_quoted(out, &['C', 'h', 'e', 'c', 'k']),
        TokenKind::Match => put_quoted(out, &['M', 'a', 't', 'c', 'h']),
        TokenKind::Identifier => put_quoted(out, &['I', 'd', 'e', 'n', 't', 'i', 'f', 'i', 'e', 'r']),
        TokenKind::String(p) => {
            put_quoted(out, &['S', 't', 'r', 'i', 'n', 'g']);
            out.push('(');
            let cs = chars_of(p.as_str());
            put_quoted(out, cs.as_slice());
            out.push(')');
        },
        TokenKind::Unknown => put_quoted(out, &['U', 'n', 'k', 'n', 'o', 'w', 'n']),
    }
    assert(out@ =~= old(out)@ + show_kind(k@));
}

fn write_expr(out: &mut Vec<char>, e: &Expr)
    ensures
        final(out)@ == old(out)@ + show_expr(e@),
    decreases e@,
{
    match e {
        Expr::Identifier { name } => {
            put(out, &['I', 'd', 'e', 'n', 't', 'i', 'f', 'i', 'e', 'r', '(']);
            write_kind(out, &name.kind);
            put(out, &[',', ' ']);
            let cs = chars_of(name.lexeme.as_str());
            put_quoted(out, cs.as_slice());
            out.push(')');
            assert(out@ =~= old(out)@ + show_expr(e@));
        },
        Expr::Literal { l } => {
            put(out, &['S', 't', 'r', 'i', 'n', 'g', '(']);
            match l {
                Literal::String(s) => {
                    let cs = chars_of(s.as_str());
                    put_quoted(out, cs.as_slice());
                },
            }
            out.push(')');
            assert(out@ =~= old(out)@ + show_expr(e@));
        },
        Expr::FunctionApplication { callee, args } => {
            put(out, &['A', 'p', 'p', 'l', 'y', '(']);
            write_expr(out, callee);
            put(out, &[',', ' ', '[']);
            let ghost head = out@;
            proof {
                lemma_exprs_model_index(args@);
            }
            let ghost m = exprs_model(args@);
            let mut i: usize = 0;
            assert(m.subrange(0, 0) =~= Seq::<ExprModel>::empty());
            assert(out@ =~= head + show_exprs(m.subrange(0, 0)));
            while i < args.len()
                invariant
                    i <= args@.len(),
                    m == exprs_model(args@),
                    m.len() == args@.len(),
                    forall|k: int| 0 <= k < args@.len() ==> #[trigger] m[k] == args@[k]@,
                    e@ == ExprModel::Application(Box::new(callee@), m),
                    out@ == head + show_exprs(m.subrange(0, i as int)),
                decreases args.len() - i,
            {
                let ghost before = out@;
                if i > 0 {
                    put(out, &[',', ' ']);
                }
                proof {
                    assert(decreases_to!(e@ => e@->Application_1));
                    assert(decreases_to!(m => m[i as int]));
                }
                write_expr(out, &args[i]);
                proof {
                    assert(m.subrange(0, i + 1) =~= m.subrange(0, i as int).push(m[i as int]));
                    lemma_exprs_push(m.subrange(0, i as int), m[i as int]);
                }
                i = i + 1;
                assert(out@ =~= head + show_exprs(m.subrange(0, i as int)));
            }
            assert(m.subrange(0, i as int) =~= m);
            put(out, &[']', ')']);
            assert(out@ =~= old(out)@ + show_expr(e@));
        },
    }
}

fn write_stmt(out: &mut Vec<char>, s: &Stmt)
    ensures
        final(out)@ == old(out)@ + show_stmt(s@),
{
    match s {
        Stmt::Expr { e } => {
            put(out, &['E', 'x', 'p', 'r', '(']);
            write_expr(out, e);
            out.push(')');
            assert(out@ =~= old(out)@ + show_stmt(s@));
        },
    }
}

impl UntypedProgram {
    /// A dump of the tree, one statement per line under a `Program` heading.
    /// Different programs give different dumps (`lemma_pretty_text_faithful`).
    pub fn pretty_printed(&self) -> (r: String)
        ensures
            r@ == pretty_text(self@),
    {
        let mut out: Vec<char> = Vec::new();
        put(&mut out, &['P', 'r', 'o', 'g', 'r', 'a', 'm', '\n']);
        let mut i: usize = 0;
        assert(self@.subrange(0, 0) =~= Seq::<StmtModel>::empty());
        assert(out@ =~= seq!['P', 'r', 'o', 'g', 'r', 'a', 'm', '\n'] + show_lines(self@.subrange(0, 0)));
        while i < self.stmts.len()
            invariant
                i <= self.stmts@.len(),
                out@ == seq!['P', 'r', 'o', 'g', 'r', 'a', 'm', '\n'] + show_lines(
                    self@.subrange(0, i as int),
                ),
            decreases self.stmts.len() - i,
        {
            put(&mut out, &[' ', ' ']);
            write_stmt(&mut out, &self.stmts[i]);
            out.push('\n');
            proof {
                assert(self@.subrange(0, i + 1) =~= self@.subrange(0, i as int).push(self@[i as int]));
                lemma_lines_push(self@.subrange(0, i as int), self@[i as int]);
            }
            i = i + 1;
            assert(out@ =~= seq!['P', 'r', 'o', 'g', 'r', 'a', 'm', '\n'] + show_lines(
                self@.subrange(0, i as int),
            ));
        }
        assert(self@.subrange(0, i as int) =~= self@);
        string_from(out)
    }

    /// A one-line dump of the statements: `[` and `]` around them, separated
    /// by `, `. Different programs give different dumps
    /// (`lemma_debug_text_faithful`).
    pub fn ast_debug_string(&self) -> (r: String)
        ensures
            r@ == debug_text(self@),
    {
        let mut out: Vec<char> = Vec::new();
        out.push('[');
        let ghost head = out@;
        let mut i: usize = 0;
        assert(self@.subrange(0, 0) =~= Seq::<StmtModel>::empty());
        assert(out@ =~= head + show_list(self@.subrange(0, 0)));
        while i < self.stmts.len()
            invariant
                i <= self.stmts@.len(),
                head == seq!['['],
                out@ == head + show_list(self@.subrange(0, i as int)),
            decreases self.stmts.len() - i,
        {
            if i > 0 {
                put(&mut out, &[',', ' ']);
            }
            write_stmt(&mut out, &self.stmts[i]);
            proof {
                assert(self@.subrange(0, i + 1) =~= self@.subrange(0, i as int).push(self@[i as int]));
                lemma_list_push(self@.subrange(0, i as int), self@[i as int]);
            }
            i = i + 1;
            assert(out@ =~= head + show_list(self@.subrange(0, i as int)));
        }
        assert(self@.subrange(0, i as int) =~= self@);
        out.push(']');
        assert(out@ =~= debug_text(self@));
        string_from(out)
    }
}

} // verus!
