use vstd::prelude::*;

use crate::ast::{expr_model, exprs_model, lemma_exprs_model_index, Expr, ExprModel, Literal, Stmt, StmtModel, UntypedProgram};
use crate::token::Token;

verus! {

/// A function provided by the interpreter itself.
#[derive(Clone, Copy, Debug, PartialEq, Eq, Structural)]
pub enum Native {
    /// Writes its one string argument and a line break to the output.
    PrintLn,
}

/// A value produced by evaluating an expression.
#[derive(Clone, Debug, PartialEq, Eq)]
pub enum Value {
    /// A reference to the global function of this name.
    GlobalFn(String),
    String(String),
    Void,
}

/// The mathematical value of a `Value`.
pub enum ValueModel {
    GlobalFn(Seq<char>),
    Str(Seq<char>),
    Void,
}

impl View for Value {
    type V = ValueModel;

    open spec fn view(&self) -> ValueModel {
        match self {
            Value::GlobalFn(n) => ValueModel::GlobalFn(n@),
            Value::String(s) => ValueModel::Str(s@),
            Value::Void => ValueModel::Void,
        }
    }
}

/// A fatal condition that stops a run.
#[derive(Clone, Debug, PartialEq, Eq)]
pub enum RunError {
    /// A call of a name that no global function has.
    UnknownFunction(String),
    /// A call of a value that is not a function.
    NotCallable,
    /// A native function called with arguments it does not take.
    IncorrectArguments(Native),
}

/// The mathematical value of a `RunError`.
pub enum RunErrorModel {
    UnknownFunction(Seq<char>),
    NotCallable,
    IncorrectArguments(Native),
}

impl View for RunError {
    type V = RunErrorModel;

    open spec fn view(&self) -> RunErrorModel {
        match self {
            RunError::UnknownFunction(n) => RunErrorModel::UnknownFunction(n@),
            RunError::NotCallable => RunErrorModel::NotCallable,
            RunError::IncorrectArguments(f) => RunErrorModel::IncorrectArguments(*f),
        }
    }
}

/// The model of a result: the value's or the error's model.
pub open spec fn result_model<T: View>(r: Result<T, RunError>) -> Result<T::V, RunErrorModel> {
    match r {
        Ok(v) => Ok(v@),
        Err(e) => Err(e@),
    }
}

// ---------------------------------------------------------------------------
// Evaluation as mathematics. `out` is what has been written so far, one
// entry per write; each rule gives its outcome and the output after it.
// ---------------------------------------------------------------------------

/// `print_ln` and any other native function, applied to `args`.
pub open spec fn call_native(f: Native, args: Seq<ValueModel>, out: Seq<Seq<char>>) -> (
    Result<ValueModel, RunErrorModel>,
    Seq<Seq<char>>,
) {
    match f {
        Native::PrintLn => if args.len() == 1 && args[0] is Str {
            (Ok(ValueModel::Void), out.push(args[0]->Str_0 + seq!['\n']))
        } else {
            (Err(RunErrorModel::IncorrectArguments(Native::PrintLn)), out)
        },
    }
}

/// The call of the global function `name` on `args`.
pub open spec fn call_global(
    env: Map<Seq<char>, Native>,
    name: Seq<char>,
    args: Seq<ValueModel>,
    out: Seq<Seq<char>>,
) -> (Result<ValueModel, RunErrorModel>, Seq<Seq<char>>) {
    if env.contains_key(name) {
        call_native(env[name], args, out)
    } else {
        (Err(RunErrorModel::UnknownFunction(name)), out)
    }
}

/// The value of `e`: an identifier names a global function, a literal is its
/// string, and an application evaluates its callee, then its arguments from
/// left to right, then makes the call.
pub open spec fn eval_expr(env: Map<Seq<char>, Native>, e: ExprModel, out: Seq<Seq<char>>) -> (
    Result<ValueModel, RunErrorModel>,
    Seq<Seq<char>>,
)
    decreases e,
{
    match e {
        ExprModel::Identifier(name) => (Ok(ValueModel::GlobalFn(name.lexeme)), out),
        ExprModel::Literal(s) => (Ok(ValueModel::Str(s)), out),
        ExprModel::Application(callee, args) => {
            let (c, out1) = eval_expr(env, *callee, out);
            match c {
                Ok(ValueModel::GlobalFn(name)) => {
                    let (vs, out2) = eval_args(env, args, out1);
                    match vs {
                        Ok(vals) => call_global(env, name, vals, out2),
                        Err(x) => (Err(x), out2),
                    }
                },
                Ok(_) => (Err(RunErrorModel::NotCallable), out1),
                Err(x) => (Err(x), out1),
            }
        },
    }
}

/// The values of `args`, evaluated from left to right; the first error stops.
pub open spec fn eval_args(env: Map<Seq<char>, Native>, args: Seq<ExprModel>, out: Seq<Seq<char>>) -> (
    Result<Seq<ValueModel>, RunErrorModel>,
    Seq<Seq<char>>,
)
    decreases args,
{
    if args.len() == 0 {
        (Ok(Seq::empty()), out)
    } else {
        let (pre, out1) = eval_args(env, args.subrange(0, args.len() - 1), out);
        match pre {
            Ok(vs) => {
                let (v, out2) = eval_expr(env, args[args.len() - 1], out1);
                match v {
                    Ok(x) => (Ok(vs.push(x)), out2),
                    Err(x) => (Err(x), out2),
                }
            },
            Err(x) => (Err(x), out1),
        }
    }
}

/// Runs `stmts` in order; the first error stops the run.
pub open spec fn run_stmts(env: Map<Seq<char>, Native>, stmts: Seq<StmtModel>, out: Seq<Seq<char>>) -> (
    Result<(), RunErrorModel>,
    Seq<Seq<char>>,
)
    decreases stmts.len(),
{
    if stmts.len() == 0 {
        (Ok(()), out)
    } else {
        match stmts[0] {
            StmtModel::Expr(e) => {
                let (v, out1) = eval_expr(env, e, out);
                match v {
                    Ok(_) => run_stmts(env, stmts.drop_first(), out1),
                    Err(x) => (Err(x), out1),
                }
            },
        }
    }
}

/// The global functions that every interpreter starts with.
pub open spec fn default_env() -> Map<Seq<char>, Native> {
    map![seq!['p', 'r', 'i', 'n', 't', '_', 'l', 'n'] => Native::PrintLn]
}

/// The map made by adding `entries` in order; a later entry replaces an
/// earlier one of the same name.
pub open spec fn entries_map(entries: Seq<(Seq<char>, Native)>) -> Map<Seq<char>, Native>
    decreases entries.len(),
{
    if entries.len() == 0 {
        Map::empty()
    } else {
        let last = entries[entries.len() - 1];
        entries_map(entries.subrange(0, entries.len() - 1)).insert(last.0, last.1)
    }
}

// ---------------------------------------------------------------------------
// The global function table
// ---------------------------------------------------------------------------

/// The table of global functions, by name.
pub struct Globals {
    ns: Vec<(String, Native)>,
}

impl Globals {
    pub closed spec fn entries(&self) -> Seq<(Seq<char>, Native)> {
        self.ns@.map_values(|e: (String, Native)| (e.0@, e.1))
    }

    /// The functions in the table, by name.
    pub open spec fn env(&self) -> Map<Seq<char>, Native> {
        entries_map(self.entries())
    }

    /// The empty table.
    pub fn new() -> (g: Globals)
        ensures
            g.env() == Map::<Seq<char>, Native>::empty(),
    {
        let g = Globals { ns: Vec::new() };
        assert(g.entries() =~= Seq::empty());
        g
    }

    /// Adds `v` under the name `k`, replacing any function of that name.
    pub fn add(&mut self, k: &str, v: Native)
        ensures
            final(self).env() == old(self).env().insert(k@, v),
    {
        self.ns.push((k.to_owned(), v));
        assert(self.entries().subrange(0, self.entries().len() - 1) =~= old(self).entries());
    }

    /// The function named `name`, if any.
    pub fn get(&self, name: &String) -> (r: Option<Native>)
        ensures
            r is Some <==> self.env().contains_key(name@),
            r is Some ==> r->0 == self.env()[name@],
    {
        let mut i: usize = self.ns.len();
        assert(self.entries().subrange(0, i as int) =~= self.entries());
        while i > 0
            invariant
                i <= self.ns.len(),
                entries_map(self.entries()).contains_key(name@) == entries_map(
                    self.entries().subrange(0, i as int),
                ).contains_key(name@),
                entries_map(self.entries()).contains_key(name@) ==> entries_map(self.entries())[name@]
                    == entries_map(self.entries().subrange(0, i as int))[name@],
            decreases i,
        {
            let entry = &self.ns[i - 1];
            let ghost pre = self.entries().subrange(0, i as int);
            assert(pre.subrange(0, i - 1) =~= self.entries().subrange(0, i - 1));
            assert(pre[i - 1] == (entry.0@, entry.1));
            if entry.0 == *name {
                return Some(entry.1);
            }
            i = i - 1;
        }
        assert(self.entries().subrange(0, 0) =~= Seq::empty());
        None
    }

    /// Calls the function named `name` on `args`, writing to `out`.
    pub fn call(&self, name: &String, args: &Vec<Value>, out: &mut Vec<String>) -> (r: Result<
        Value,
        RunError,
    >)
        ensures
            (result_model(r), strings_model(final(out)@)) == call_global(
                self.env(),
                name@,
                values_model(args@),
                strings_model(old(out)@),
            ),
    {
        match self.get(name) {
            Some(f) => run_native(f, args, out),
            None => Err(RunError::UnknownFunction(name.clone())),
        }
    }
}

pub open spec fn values_model(vs: Seq<Value>) -> Seq<ValueModel> {
    vs.map_values(|v: Value| v@)
}

pub open spec fn strings_model(ss: Seq<String>) -> Seq<Seq<char>> {
    ss.map_values(|s: String| s@)
}

/// Runs the native function `f` on `args`, writing to `out`.
fn run_native(f: Native, args: &Vec<Value>, out: &mut Vec<String>) -> (r: Result<Value, RunError>)
    ensures
        (result_model(r), strings_model(final(out)@)) == call_native(
            f,
            values_model(args@),
            strings_model(old(out)@),
        ),
{
    match f {
        Native::PrintLn => {
            if args.len() == 1 {
                if let Value::String(s) = &args[0] {
                    let mut line = s.clone();
                    line.append("\n");
                    proof {
                        reveal_strlit("\n");
                        assert("\n"@ =~= seq!['\n']);
                        assert(values_model(args@)[0] == ValueModel::Str(s@));
                    }
                    out.push(line);
                    assert(strings_model(out@) =~= strings_model(old(out)@).push(line@));
                    return Ok(Value::Void);
                }
            }
            Err(RunError::IncorrectArguments(Native::PrintLn))
        },
    }
}

// ---------------------------------------------------------------------------
// The interpreter
// ---------------------------------------------------------------------------

/// A tree-walking interpreter: it runs programs against its global functions
/// and writes what they print to its output.
pub struct Interpreter {
    globals: Globals,
    output: Vec<String>,
}

impl Interpreter {
    /// The global functions this interpreter calls.
    pub closed spec fn env(&self) -> Map<Seq<char>, Native> {
        self.globals.env()
    }

    /// What has been written so far, one entry per write.
    pub closed spec fn written(&self) -> Seq<Seq<char>> {
        strings_model(self.output@)
    }

    /// An interpreter with `print_ln` as its one global function, writing
    /// after what `sink` already holds.
    pub fn new(sink: Vec<String>) -> (r: Interpreter)
        ensures
            r.env() == default_env(),
            r.written() == strings_model(sink@),
    {
        let mut globals = Globals::new();
        globals.add("print_ln", Native::PrintLn);
        proof {
            reveal_strlit("print_ln");
            assert("print_ln"@ =~= seq!['p', 'r', 'i', 'n', 't', '_', 'l', 'n']);
            assert(Map::<Seq<char>, Native>::empty().insert("print_ln"@, Native::PrintLn) =~= default_env());
        }
        Interpreter { globals, output: sink }
    }

    /// What has been written so far, one entry per write.
    pub fn output(&self) -> (r: &Vec<String>)
        ensures
            strings_model(r@) == self.written(),
    {
        &self.output
    }

    /// Runs the statements of `p` in order, stopping at the first fatal
    /// condition.
    pub fn interpret(&mut self, p: UntypedProgram) -> (r: Result<(), RunError>)
        ensures
            final(self).env() == old(self).env(),
            (result_model(r), final(self).written()) == run_stmts(
                old(self).env(),
                p@,
                old(self).written(),
            ),
    {
        let ghost pm = p@;
        let stmts = p.stmts;
        assert(pm.subrange(0, pm.len() as int) =~= pm);
        let mut i: usize = 0;
        while i < stmts.len()
            invariant
                i <= stmts@.len(),
                self.env() == old(self).env(),
                pm == crate::ast::stmts_model(stmts@),
                pm == p@,
                run_stmts(self.env(), pm, old(self).written()) == run_stmts(
                    self.env(),
                    pm.subrange(i as int, pm.len() as int),
                    self.written(),
                ),
            decreases stmts.len() - i,
        {
            let ghost rest = pm.subrange(i as int, pm.len() as int);
            assert(rest[0] == stmts@[i as int]@);
            match &stmts[i] {
                Stmt::Expr { e } => {
                    assert(rest[0] == StmtModel::Expr(e@));
                    let ghost w0 = self.written();
                    let v = self.evaluate(e);
                    assert(v is Err ==> run_stmts(self.env(), rest, w0) == (Err::<(), RunErrorModel>(v->Err_0@), self.written()));
                    assert(rest.drop_first() =~= pm.subrange(i + 1, pm.len() as int));
                    if let Err(x) = v {
                        return Err(x);
                    }
                },
            }
            i = i + 1;
        }
        assert(pm.subrange(i as int, pm.len() as int) =~= Seq::empty());
        Ok(())
    }

    /// The value of `e`.
    fn evaluate(&mut self, e: &Expr) -> (r: Result<Value, RunError>)
        ensures
            final(self).env() == old(self).env(),
            (result_model(r), final(self).written()) == eval_expr(
                old(self).env(),
                e@,
                old(self).written(),
            ),
        decreases e@, 1int,
    {
        match e {
            Expr::Identifier { name } => Ok(self.visit_identifier(name)),
            Expr::Literal { l } => Ok(self.visit_literal(l)),
            Expr::FunctionApplication { .. } => self.visit_function_application(e),
        }
    }

    fn visit_identifier(&self, name: &Token) -> (r: Value)
        ensures
            r@ == ValueModel::GlobalFn(name.lexeme@),
    {
        Value::GlobalFn(name.lexeme.clone())
    }

    fn visit_literal(&self, l: &Literal) -> (r: Value)
        ensures
            r@ == ValueModel::Str(l@),
    {
        match l {
            Literal::String(s) => Value::String(s.clone()),
        }
    }

    fn visit_function_application(&mut self, e: &Expr) -> (r: Result<Value, RunError>)
        requires
            e is FunctionApplication,
        ensures
            final(self).env() == old(self).env(),
            (result_model(r), final(self).written()) == eval_expr(
                old(self).env(),
                e@,
                old(self).written(),
            ),
        decreases e@, 0int,
    {
        let (callee, args) = match e {
            Expr::FunctionApplication { callee, args } => (callee, args),
            _ => {
                return Err(RunError::NotCallable);
            },
        };
        let func = self.evaluate(callee);
        match func {
            Ok(Value::GlobalFn(name)) => {
                let ghost env = self.env();
                let ghost out1 = self.written();
                proof {
                    lemma_exprs_model_index(args@);
                }
                let mut arg_vals: Vec<Value> = Vec::new();
                let mut i: usize = 0;
                assert(exprs_model(args@).subrange(0, 0) =~= Seq::empty());
                assert(values_model(arg_vals@) =~= Seq::empty());
                while i < args.len()
                    invariant
                        i <= args@.len(),
                        e@ == ExprModel::Application(Box::new(callee@), exprs_model(args@)),
                        eval_expr(env, callee@, old(self).written()) == (
                            Ok::<ValueModel, RunErrorModel>(ValueModel::GlobalFn(name@)),
                            out1,
                        ),
                        env == old(self).env(),
                        self.env() == env,
                        exprs_model(args@).len() == args@.len(),
                        forall|k: int| 0 <= k < args@.len() ==> #[trigger] exprs_model(args@)[k] == expr_model(args@[k]),
                        eval_args(env, exprs_model(args@).subrange(0, i as int), out1) == (
                            Ok::<Seq<ValueModel>, RunErrorModel>(values_model(arg_vals@)),
                            self.written(),
                        ),
                    decreases args.len() - i,
                {
                    let ghost old_vals = arg_vals@;
                    proof {
                        let m = exprs_model(args@);
                        assert(m[i as int] == args@[i as int]@);
                        assert(decreases_to!(e@ => e@->Application_1));
                        assert(decreases_to!(m => m[i as int]));
                    }
                    let v = self.evaluate(&args[i]);
                    let ghost pre = exprs_model(args@).subrange(0, i + 1);
                    assert(pre.subrange(0, i as int) =~= exprs_model(args@).subrange(0, i as int));
                    assert(pre[i as int] == args@[i as int]@);
                    match v {
                        Ok(x) => {
                            arg_vals.push(x);
                            assert(values_model(arg_vals@) =~= values_model(old_vals).push(x@));
                        },
                        Err(x) => {
                            assert(eval_args(env, pre, out1) == (Err::<Seq<ValueModel>, RunErrorModel>(x@), self.written()));
                            proof {
                                lemma_eval_args_error_propagates(env, exprs_model(args@), i as int + 1, out1);
                            }
                            return Err(x);
                        },
                    }
                    i = i + 1;
                }
                assert(exprs_model(args@).subrange(0, i as int) =~= exprs_model(args@));
                self.globals.call(&name, &arg_vals, &mut self.output)
            },
            Ok(_) => Err(RunError::NotCallable),
            Err(x) => Err(x),
        }
    }
}

proof fn lemma_eval_args_error_propagates(
    env: Map<Seq<char>, Native>,
    args: Seq<ExprModel>,
    n: int,
    out: Seq<Seq<char>>,
)
    requires
        0 <= n <= args.len(),
        eval_args(env, args.subrange(0, n), out).0 is Err,
    ensures
        eval_args(env, args, out) == eval_args(env, args.subrange(0, n), out),
    decreases args.len() - n,
{
    if n < args.len() {
        let next = args.subrange(0, n + 1);
        assert(next.subrange(0, n) =~= args.subrange(0, n));
        lemma_eval_args_error_propagates(env, args, n + 1, out);
    } else {
        assert(args.subrange(0, n) =~= args);
    }
}

} // verus!
