use ei::ast::{Expr, Literal, Stmt, UntypedProgram};
use ei::interpreter::{Interpreter, Native, RunError};
use ei::lexer::token_stream;
use ei::parser::parse;

fn run(src: &str) -> (Result<(), RunError>, Vec<String>) {
    let mut interpreter = Interpreter::new(Vec::new());
    let r = interpreter.interpret(parse(token_stream(src)));
    (r, interpreter.output().clone())
}

#[test]
fn empty_program_performs_no_io() {
    let mut interpreter = Interpreter::new(Vec::new());
    let empty_program = UntypedProgram::empty();
    let r = interpreter.interpret(empty_program);
    assert_eq!(r, Ok(()));
    assert!(interpreter.output().is_empty())
}

#[test]
fn println_outputs_arg() {
    for (input, expected) in [("", "\n"), ("hi wrld", "hi wrld\n")] {
        let program = UntypedProgram::with_stmts(vec![Stmt::Expr {
            e: Expr::FunctionApplication {
                callee: Box::new(Expr::identifier("print_ln")),
                args: vec![Expr::Literal { l: Literal::new(input) }],
            },
        }]);
        let mut interpreter = Interpreter::new(Vec::new());
        assert_eq!(interpreter.interpret(program), Ok(()));
        assert_eq!(interpreter.output(), &vec![expected.to_string()]);
    }
}

#[test]
fn print_ln_writes_its_argument_and_a_line_break() {
    let (r, out) = run("print_ln(\"hi\");");
    assert_eq!(r, Ok(()));
    assert_eq!(out, vec!["hi\n".to_string()]);
}

#[test]
fn print_ln_with_wrong_arity_is_fatal_and_writes_nothing() {
    for src in ["print_ln();", "print_ln(\"a\", \"b\");", "print_ln(print_ln);"] {
        let (r, out) = run(src);
        assert_eq!(r, Err(RunError::IncorrectArguments(Native::PrintLn)));
        assert!(out.is_empty());
    }
}

#[test]
fn unknown_callee_is_fatal() {
    let (r, out) = run("unknown_name();");
    assert_eq!(r, Err(RunError::UnknownFunction("unknown_name".to_string())));
    assert!(out.is_empty());
}

#[test]
fn a_fatal_condition_stops_the_run() {
    let (r, out) = run("print_ln(\"a\"); nope(); print_ln(\"b\");");
    assert_eq!(r, Err(RunError::UnknownFunction("nope".to_string())));
    assert_eq!(out, vec!["a\n".to_string()]);
}

#[test]
fn calling_a_string_is_fatal() {
    let program = UntypedProgram::with_stmts(vec![Stmt::Expr {
        e: Expr::FunctionApplication {
            callee: Box::new(Expr::Literal { l: Literal::new("x") }),
            args: vec![],
        },
    }]);
    let mut interpreter = Interpreter::new(Vec::new());
    assert_eq!(interpreter.interpret(program), Err(RunError::NotCallable));
    assert!(interpreter.output().is_empty());
}

#[test]
fn arguments_are_evaluated_left_to_right_before_the_call() {
    let (r, out) = run("nope(print_ln(\"1\"), print_ln(\"2\"));");
    assert_eq!(r, Err(RunError::UnknownFunction("nope".to_string())));
    assert_eq!(out, vec!["1\n".to_string(), "2\n".to_string()]);
}

#[test]
fn sink_keeps_what_it_held() {
    let mut interpreter = Interpreter::new(vec!["before\n".to_string()]);
    assert_eq!(interpreter.interpret(parse(token_stream("print_ln(\"x\");"))), Ok(()));
    assert_eq!(interpreter.output(), &vec!["before\n".to_string(), "x\n".to_string()]);
}
