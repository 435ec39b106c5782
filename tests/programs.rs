use ukiyo::ast::{Expr, Span};
use ukiyo::bytecode::OpCode;
use ukiyo::compiler::{compiler, CompileError};
use ukiyo::program::{run, Error, Outcome};
use ukiyo::value::Types;
use ukiyo::vm::RuntimeError;

/// Source text under construction: each piece gets a span of its own.
struct Source {
    text: String,
}

impl Source {
    fn new() -> Source {
        Source { text: String::new() }
    }

    fn span(&mut self, piece: &str) -> Span {
        let start = self.text.chars().count();
        self.text.push_str(piece);
        let end = self.text.chars().count();
        self.text.push(' ');
        Span { start, end }
    }
}

fn none() -> Span {
    Span { start: 0, end: 0 }
}

fn int_lit(src: &mut Source, n: i64) -> Expr {
    let digits = n.unsigned_abs().to_string();
    Expr::Int { span: none(), is_negative: n < 0, val: src.span(&digits) }
}

fn string(src: &mut Source, quoted: &str) -> Expr {
    Expr::String(src.span(quoted))
}

fn var(src: &mut Source, name: &str) -> Expr {
    Expr::VarLookup(src.span(name))
}

fn assign(src: &mut Source, name: &str, e: Expr) -> Expr {
    Expr::Assign { span: none(), id: src.span(name), expr: Box::new(e) }
}

fn bin(src: &mut Source, op: &str, lhs: Expr, rhs: Expr) -> Expr {
    Expr::BinaryOp { span: none(), op: src.span(op), lhs: Box::new(lhs), rhs: Box::new(rhs) }
}

fn print(e: Expr) -> Expr {
    Expr::Print { span: none(), args: Box::new(e) }
}

fn block(stmts: Vec<Expr>) -> Expr {
    Expr::Prog { span: none(), stmts }
}

fn while_loop(condition: Expr, body: Vec<Expr>) -> Expr {
    Expr::WhileLoop { span: none(), condition: Box::new(condition), body: Box::new(block(body)) }
}

fn if_statement(condition: Expr, body: Vec<Expr>) -> Expr {
    Expr::IfStatement { span: none(), condition: Box::new(condition), body: Box::new(block(body)) }
}

fn def(src: &mut Source, name: &str, args: &[&str], body: Vec<Expr>) -> Expr {
    let name = src.span(name);
    let args_list = args.iter().map(|a| src.span(a)).collect();
    Expr::FuncDef { span: none(), name, args_list, body: Box::new(block(body)) }
}

fn call(src: &mut Source, name: &str, params: Vec<Expr>) -> Expr {
    Expr::Call { span: none(), name: src.span(name), params }
}

fn ret(e: Expr) -> Expr {
    Expr::Return { span: none(), expr: Box::new(e) }
}

fn strings(lines: &[&str]) -> Vec<String> {
    lines.iter().map(|l| l.to_string()).collect()
}

fn ok(outcome: &Outcome) -> &Vec<Types> {
    match &outcome.result {
        Ok(v) => v,
        Err(e) => panic!("program failed: {:?}", e),
    }
}

#[test]
fn integer_literals_evaluate_to_themselves() {
    for n in [0i64, 7, 42, -1, -7, 1000, 2147483647, -2147483647] {
        let mut src = Source::new();
        let ast = vec![int_lit(&mut src, n)];
        let out = run(ast, &src.text);
        assert_eq!(ok(&out), &vec![Types::Int(n as i32)], "literal {}", n);
    }
}

#[test]
fn smallest_integer_literal_is_malformed() {
    let mut src = Source::new();
    let ast = vec![int_lit(&mut src, -2147483648)];
    let out = run(ast, &src.text);
    assert_eq!(out.result, Err(Error::Compile(CompileError::MalformedLiteral)));
}

#[test]
fn literal_too_large_is_malformed() {
    let mut src = Source::new();
    let ast = vec![int_lit(&mut src, 99999999999)];
    let out = run(ast, &src.text);
    assert_eq!(out.result, Err(Error::Compile(CompileError::MalformedLiteral)));
}

#[test]
fn addition_of_two() {
    let mut src = Source::new();
    let (a, b) = (int_lit(&mut src, 2), int_lit(&mut src, 3));
    let ast = vec![bin(&mut src, "+", a, b)];
    assert_eq!(ok(&run(ast, &src.text)), &vec![Types::Int(5)]);
}

#[test]
fn addition_of_three() {
    let mut src = Source::new();
    let (a, b) = (int_lit(&mut src, 2), int_lit(&mut src, 3));
    let ab = bin(&mut src, "+", a, b);
    let c = int_lit(&mut src, 4);
    let ast = vec![bin(&mut src, "+", ab, c)];
    assert_eq!(ok(&run(ast, &src.text)), &vec![Types::Int(9)]);
}

#[test]
fn addition_of_negative() {
    let mut src = Source::new();
    let (a, b) = (int_lit(&mut src, 2), int_lit(&mut src, -3));
    let ast = vec![bin(&mut src, "+", a, b)];
    assert_eq!(ok(&run(ast, &src.text)), &vec![Types::Int(-1)]);
}

#[test]
fn subtraction() {
    let mut src = Source::new();
    let (a, b) = (int_lit(&mut src, 2), int_lit(&mut src, 3));
    let ast = vec![bin(&mut src, "-", a, b)];
    assert_eq!(ok(&run(ast, &src.text)), &vec![Types::Int(-1)]);
}

#[test]
fn comparisons() {
    let cases = [("<=", 2, 3, true), ("<=", 3, 3, true), ("<=", 4, 3, false), ("<", 3, 3, false), ("<", 2, 3, true), ("==", 3, 3, true), ("==", 2, 3, false)];
    for (op, l, r, expected) in cases {
        let mut src = Source::new();
        let (a, b) = (int_lit(&mut src, l), int_lit(&mut src, r));
        let ast = vec![bin(&mut src, op, a, b)];
        assert_eq!(ok(&run(ast, &src.text)), &vec![Types::Bool(expected)], "{} {} {}", l, op, r);
    }
}

#[test]
fn rebinding_overwrites_the_slot() {
    // a = 1; a = 2; b = a + 3; print(b);
    let mut src = Source::new();
    let s1 = { let one = int_lit(&mut src, 1); assign(&mut src, "a", one) };
    let s2 = { let two = int_lit(&mut src, 2); assign(&mut src, "a", two) };
    let s3 = {
        let a = var(&mut src, "a");
        let three = int_lit(&mut src, 3);
        let sum = bin(&mut src, "+", a, three);
        assign(&mut src, "b", sum)
    };
    let s4 = print(var(&mut src, "b"));
    let out = run(vec![s1, s2, s3, s4], &src.text);
    assert_eq!(out.output, strings(&["5"]));
    assert_eq!(ok(&out), &vec![Types::Int(5)]);
}

#[test]
fn rebinding_from_another_variable() {
    // a = 1; b = 2; a = b + 3; print(a); print(b);
    let mut src = Source::new();
    let s1 = { let one = int_lit(&mut src, 1); assign(&mut src, "a", one) };
    let s2 = { let two = int_lit(&mut src, 2); assign(&mut src, "b", two) };
    let s3 = {
        let b = var(&mut src, "b");
        let three = int_lit(&mut src, 3);
        let sum = bin(&mut src, "+", b, three);
        assign(&mut src, "a", sum)
    };
    let s4 = print(var(&mut src, "a"));
    let s5 = print(var(&mut src, "b"));
    let out = run(vec![s1, s2, s3, s4, s5], &src.text);
    assert_eq!(out.output, strings(&["5", "2"]));
}

#[test]
fn rebinding_compiles_to_one_slot() {
    let mut src = Source::new();
    let s1 = { let one = int_lit(&mut src, 1); assign(&mut src, "a", one) };
    let s2 = { let two = int_lit(&mut src, 2); assign(&mut src, "a", two) };
    let code = compiler(vec![s1, s2], &src.text).unwrap();
    assert_eq!(code, vec![OpCode::PushInt(1), OpCode::StoreVar(0), OpCode::PushInt(2), OpCode::StoreVar(0)]);
}

#[test]
fn print_leaves_its_argument() {
    // x = 4; print(x) + 1;
    let mut src = Source::new();
    let s1 = { let four = int_lit(&mut src, 4); assign(&mut src, "x", four) };
    let s2 = {
        let p = print(var(&mut src, "x"));
        let one = int_lit(&mut src, 1);
        bin(&mut src, "+", p, one)
    };
    let out = run(vec![s1, s2], &src.text);
    assert_eq!(out.output, strings(&["4"]));
    assert_eq!(ok(&out), &vec![Types::Int(5)]);
}

#[test]
fn while_loop_counts_to_two() {
    // i = 0; while (i <= 2) { print(i); i = i + 1; }
    let mut src = Source::new();
    let s1 = { let zero = int_lit(&mut src, 0); assign(&mut src, "i", zero) };
    let cond = { let i = var(&mut src, "i"); let two = int_lit(&mut src, 2); bin(&mut src, "<=", i, two) };
    let p = print(var(&mut src, "i"));
    let inc = {
        let i = var(&mut src, "i");
        let one = int_lit(&mut src, 1);
        let sum = bin(&mut src, "+", i, one);
        assign(&mut src, "i", sum)
    };
    let s2 = while_loop(cond, vec![p, inc]);
    let out = run(vec![s1, s2], &src.text);
    assert_eq!(out.output, strings(&["0", "1", "2"]));
    assert!(out.result.is_ok());
}

#[test]
fn if_statement_runs_body_only_when_true() {
    // if (1 < 2) { print("yes"); } if (2 < 1) { print("no"); }
    let mut src = Source::new();
    let c1 = { let a = int_lit(&mut src, 1); let b = int_lit(&mut src, 2); bin(&mut src, "<", a, b) };
    let yes = print(string(&mut src, "\"yes\""));
    let c2 = { let a = int_lit(&mut src, 2); let b = int_lit(&mut src, 1); bin(&mut src, "<", a, b) };
    let no = print(string(&mut src, "\"no\""));
    let out = run(vec![if_statement(c1, vec![yes]), if_statement(c2, vec![no])], &src.text);
    assert_eq!(out.output, strings(&["yes"]));
}

#[test]
fn call_with_wrong_arity_fails() {
    // def f() { return 1; } f(1);
    let mut src = Source::new();
    let body = vec![ret(int_lit(&mut src, 1))];
    let d = def(&mut src, "f", &[], body);
    let arg = int_lit(&mut src, 1);
    let c = call(&mut src, "f", vec![arg]);
    let out = run(vec![d, c], &src.text);
    assert_eq!(out.result, Err(Error::Runtime(RuntimeError::ArityMismatch)));
}

#[test]
fn call_of_undefined_function_fails() {
    let mut src = Source::new();
    let c = call(&mut src, "g", vec![]);
    let out = run(vec![c], &src.text);
    assert_eq!(out.result, Err(Error::Runtime(RuntimeError::UndefinedFunction("g".to_string()))));
}

#[test]
fn arguments_take_parameter_positions() {
    // def sub(a, b) { return a - b; } sub(10, 3);
    let mut src = Source::new();
    let body = { let a = var(&mut src, "a"); let b = var(&mut src, "b"); vec![ret(bin(&mut src, "-", a, b))] };
    let d = def(&mut src, "sub", &["a", "b"], body);
    let (x, y) = (int_lit(&mut src, 10), int_lit(&mut src, 3));
    let c = call(&mut src, "sub", vec![x, y]);
    let out = run(vec![d, c], &src.text);
    assert_eq!(ok(&out), &vec![Types::Int(7)]);
}

#[test]
fn last_definition_wins() {
    let mut src = Source::new();
    let b1 = vec![ret(int_lit(&mut src, 1))];
    let d1 = def(&mut src, "f", &[], b1);
    let b2 = vec![ret(int_lit(&mut src, 2))];
    let d2 = def(&mut src, "f", &[], b2);
    let c = call(&mut src, "f", vec![]);
    assert_eq!(ok(&run(vec![d1, d2, c], &src.text)), &vec![Types::Int(2)]);
}

#[test]
fn unbounded_recursion_is_reported() {
    // def f() { f(); } f();
    let mut src = Source::new();
    let inner = call(&mut src, "f", vec![]);
    let d = def(&mut src, "f", &[], vec![inner]);
    let c = call(&mut src, "f", vec![]);
    let out = run(vec![d, c], &src.text);
    assert_eq!(out.result, Err(Error::Runtime(RuntimeError::CallDepthExceeded)));
}

#[test]
fn compiling_twice_gives_the_same_code() {
    let build = || {
        let mut src = Source::new();
        let s1 = { let zero = int_lit(&mut src, 0); assign(&mut src, "i", zero) };
        let cond = { let i = var(&mut src, "i"); let two = int_lit(&mut src, 2); bin(&mut src, "<", i, two) };
        let inc = {
            let i = var(&mut src, "i");
            let one = int_lit(&mut src, 1);
            let sum = bin(&mut src, "+", i, one);
            assign(&mut src, "i", sum)
        };
        let s2 = while_loop(cond, vec![inc]);
        (vec![s1, s2], src.text)
    };
    let (ast1, text1) = build();
    let (ast2, text2) = build();
    let first = compiler(ast1, &text1);
    let second = compiler(ast2, &text2);
    assert_eq!(first, second);
    assert_eq!(
        first.unwrap(),
        vec![
            OpCode::PushInt(0),
            OpCode::StoreVar(0),
            OpCode::LoadVar(0),
            OpCode::PushInt(2),
            OpCode::Lt,
            OpCode::JumpIfFalse(14),
            OpCode::LoadVar(0),
            OpCode::PushInt(1),
            OpCode::Plus,
            OpCode::StoreVar(0),
            OpCode::LoadVar(0),
            OpCode::PushInt(2),
            OpCode::Lt,
            OpCode::Jump(2),
        ]
    );
}

#[test]
fn empty_program_compiles_to_nothing() {
    assert_eq!(compiler(vec![], ""), Ok(vec![]));
    let out = run(vec![], "");
    assert_eq!(out.result, Err(Error::Runtime(RuntimeError::EmptyProgram)));
}

#[test]
fn undefined_variable_is_reported() {
    let mut src = Source::new();
    let y = var(&mut src, "y");
    assert_eq!(compiler(vec![y], &src.text), Err(CompileError::UndefinedVariable("y".to_string())));
}

#[test]
fn unsupported_operator_is_reported() {
    let mut src = Source::new();
    let (a, b) = (int_lit(&mut src, 2), int_lit(&mut src, 3));
    let e = bin(&mut src, "*", a, b);
    assert_eq!(compiler(vec![e], &src.text), Err(CompileError::UnsupportedOperator("*".to_string())));
}

#[test]
fn string_literals_are_decoded() {
    let mut src = Source::new();
    let s = string(&mut src, "\"a\\tb\\\\c\\qd\"");
    let code = compiler(vec![print(s)], &src.text).unwrap();
    assert_eq!(code[0], OpCode::PushStr("a\tb\\cqd".to_string()));
    let mut src = Source::new();
    let s = string(&mut src, "\"hi\"");
    let out = run(vec![print(s)], &src.text);
    assert_eq!(out.output, strings(&["hi"]));
}

#[test]
fn overflow_is_reported() {
    let mut src = Source::new();
    let (a, b) = (int_lit(&mut src, 2147483647), int_lit(&mut src, 1));
    let e = bin(&mut src, "+", a, b);
    let out = run(vec![e], &src.text);
    assert_eq!(out.result, Err(Error::Runtime(RuntimeError::IntegerOverflow)));
}

#[test]
fn type_mismatch_is_reported() {
    let mut src = Source::new();
    let (a, b) = (string(&mut src, "\"x\""), int_lit(&mut src, 1));
    let e = bin(&mut src, "+", a, b);
    let out = run(vec![e], &src.text);
    assert_eq!(out.result, Err(Error::Runtime(RuntimeError::TypeMismatch)));
}

#[test]
fn output_before_a_fault_is_kept() {
    let mut src = Source::new();
    let p = print(int_lit(&mut src, 1));
    let c = call(&mut src, "missing", vec![]);
    let out = run(vec![p, c], &src.text);
    assert_eq!(out.output, strings(&["1"]));
    assert_eq!(out.result, Err(Error::Runtime(RuntimeError::UndefinedFunction("missing".to_string()))));
}

#[test]
fn node_span_is_reported() {
    let e = Expr::String(Span { start: 3, end: 8 });
    assert_eq!(e.span(), Span { start: 3, end: 8 });
    let e = Expr::Int { span: Span { start: 1, end: 4 }, is_negative: true, val: Span { start: 2, end: 4 } };
    assert_eq!(e.span(), Span { start: 1, end: 4 });
}
