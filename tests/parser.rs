use ei::ast::{Expr, Literal, Stmt, UntypedProgram};
use ei::lexer::token_stream;
use ei::parser::{parse, parse_reporting, SkipReason};
use ei::token::{Token, TokenKind};

fn lit(s: &str) -> Expr {
    Expr::Literal { l: Literal::new(s) }
}

fn call(name: &str, args: Vec<Expr>) -> Expr {
    Expr::FunctionApplication {
        callee: Box::new(Expr::identifier(name)),
        args,
    }
}

fn one(e: Expr) -> UntypedProgram {
    UntypedProgram::with_stmts(vec![Stmt::Expr { e }])
}

#[test]
fn empty_token_stream_returns_empty_ast() {
    let ast = parse(token_stream(""));
    let expected = UntypedProgram { stmts: vec![] };
    assert_eq!(expected, ast)
}

#[test]
fn raw_identifier() {
    let ast = parse(token_stream("some_ident;"));
    let expected = UntypedProgram {
        stmts: vec![Stmt::Expr {
            e: Expr::Identifier {
                name: Token::identifier("some_ident"),
            },
        }],
    };
    assert_eq!(expected, ast)
}

#[test]
fn single_string_literal_returns_string_expr_stmt() {
    for (raw, literal) in [("\"Hallo, Welt!\";", "Hallo, Welt!"), ("\"Goodbye\";", "Goodbye")] {
        assert_eq!(one(lit(literal)), parse(token_stream(raw)));
    }
}

#[test]
fn function_application() {
    assert_eq!(one(call("do_something", vec![])), parse(token_stream("do_something();")));
    assert_eq!(one(call("calculate", vec![lit("a")])), parse(token_stream("calculate(\"a\");")));
    assert_eq!(one(call("a", vec![lit("b"), lit("c")])), parse(token_stream("a(\"b\", \"c\");")));
}

#[test]
fn call_without_arguments_and_call_with_two() {
    assert_eq!(one(call("f", vec![])), parse(token_stream("f();")));
    assert_eq!(one(call("f", vec![lit("a"), lit("b")])), parse(token_stream("f(\"a\", \"b\");")));
}

#[test]
fn nested_application() {
    let expected = one(call("a", vec![call("b", vec![]), Expr::identifier("c")]));
    assert_eq!(expected, parse(token_stream("a(b(), c);")));
}

#[test]
fn missing_terminator_drops_the_statement() {
    assert_eq!(UntypedProgram::empty(), parse(token_stream("f()")));
    assert_eq!(one(call("f", vec![])), parse(token_stream("f();")));
    assert_eq!(one(call("g", vec![])), parse(token_stream("f() g();")));
}

#[test]
fn statements_are_parsed_until_the_tokens_run_out() {
    let expected = UntypedProgram::with_stmts(vec![
        Stmt::Expr { e: call("f", vec![]) },
        Stmt::Expr { e: lit("x") },
    ]);
    assert_eq!(expected, parse(token_stream("f(); \"x\";")));
}

#[test]
fn malformed_statements_are_left_out() {
    assert_eq!(UntypedProgram::empty(), parse(token_stream("f(;")));
    assert_eq!(UntypedProgram::empty(), parse(token_stream("f(\"a\" \"b\");")));
    assert_eq!(one(lit("ok")), parse(token_stream("let; \"ok\";")));
    assert_eq!(UntypedProgram::empty(), parse(token_stream("f()();")));
}

#[test]
fn debug_dumps_show_the_tree() {
    let p = parse(token_stream("f(\"a\");"));
    assert_eq!(
        p.pretty_printed(),
        "Program\n  Expr(Apply(Identifier(\"Identifier\", \"f\"), [String(\"a\")]))\n"
    );
    assert_eq!(
        p.ast_debug_string(),
        "[Expr(Apply(Identifier(\"Identifier\", \"f\"), [String(\"a\")]))]"
    );
    assert_eq!(UntypedProgram::empty().pretty_printed(), "Program\n");
    assert_eq!(UntypedProgram::empty().ast_debug_string(), "[]");
}

#[test]
fn dumps_escape_text_and_show_token_kinds() {
    let tricky = one(lit("x\")), Expr(String(\"y"));
    let two = UntypedProgram::with_stmts(vec![Stmt::Expr { e: lit("x") }, Stmt::Expr { e: lit("y") }]);
    assert_ne!(tricky.ast_debug_string(), two.ast_debug_string());
    assert_eq!(tricky.ast_debug_string(), "[Expr(String(\"x\\\")), Expr(String(\\\"y\"))]");
    let newline = one(lit("a\n  b\\"));
    assert_eq!(newline.pretty_printed(), "Program\n  Expr(String(\"a\\n  b\\\\\"))\n");
    let odd = one(Expr::Identifier {
        name: Token {
            kind: TokenKind::String("s".to_string()),
            lexeme: "f".to_string(),
        },
    });
    let plain = one(Expr::identifier("f"));
    assert_ne!(odd.pretty_printed(), plain.pretty_printed());
    assert_eq!(
        odd.ast_debug_string(),
        "[Expr(Identifier(\"String\"(\"s\"), \"f\"))]"
    );
}

#[test]
fn dropped_statements_are_reported() {
    let (p, skips) = parse_reporting(token_stream("f() g(); ; \"x\";"));
    assert_eq!(
        p,
        UntypedProgram::with_stmts(vec![Stmt::Expr { e: call("g", vec![]) }, Stmt::Expr { e: lit("x") }])
    );
    assert_eq!(skips, vec![SkipReason::MissingTerminator, SkipReason::NoExpression]);
    let (p, skips) = parse_reporting(token_stream("f();"));
    assert_eq!(p, one(call("f", vec![])));
    assert!(skips.is_empty());
}
