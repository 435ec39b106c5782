use vstd::prelude::*;
use crate::ast::{all_spans_within, span_within, text, Expr};
use crate::bytecode::{names_view, Instr};
use crate::compiler::{
    compile_expr, compile_program, compile_seq, compiler, CompileError, CompileFault, Emitted,
};
use crate::text::{digits_of, integer_text_value, is_digit, lemma_digits_of, literal_value};
use crate::value::{values_view, Types, Value};
use crate::vm::{execution, run as run_from, Bytecode, Machine, RuntimeError, VM};

verus! {

/// Why a program failed.
#[derive(Debug, PartialEq)]
pub enum Error {
    Compile(CompileError),
    Runtime(RuntimeError),
}

/// What running a program gave: its final operand stack or its error, and the lines that
/// `print` wrote before it ended.
#[derive(Debug, PartialEq)]
pub struct Outcome {
    pub result: Result<Vec<Types>, Error>,
    pub output: Vec<String>,
}

/// The machine a program starts on: no function, no output.
pub open spec fn fresh_machine() -> Machine {
    Machine { funcs: Seq::empty(), out: Seq::empty() }
}

/// Whether `r` is what compiling the program `ast` of source `src` and executing it on a fresh
/// machine with `fuel` steps give.
pub open spec fn outcome_as(r: Outcome, ast: Seq<Expr>, src: Seq<char>, fuel: nat) -> bool {
    match compile_program(ast, src) {
        Err(f) => r.result matches Err(Error::Compile(e)) && e@ == f && r.output@.len() == 0,
        Ok(code) => {
            let exit = execution(code, fresh_machine(), fuel);
            &&& names_view(r.output@) == exit.machine.out
            &&& match exit.result {
                Ok(vals) => r.result matches Ok(v) && values_view(v@) == vals,
                Err(f) => r.result matches Err(Error::Runtime(e)) && e@ == f,
            }
        },
    }
}

/// Compiles the program `ast` of source `src` and runs it on a fresh machine.
pub fn run(ast: Vec<Expr>, src: &str) -> (r: Outcome)
    requires
        all_spans_within(ast@, src@.len()),
    ensures
        outcome_as(r, ast@, src@, u64::MAX as nat),
{
    match compiler(ast, src) {
        Err(e) => Outcome { result: Err(Error::Compile(e)), output: Vec::new() },
        Ok(code) => {
            let mut vm = VM::new(Bytecode { bytecode: code });
            let result = match vm.run() {
                Ok(vals) => Ok(vals),
                Err(e) => Err(Error::Runtime(e)),
            };
            Outcome { result, output: vm.output }
        },
    }
}

/// The absolute value of `n`.
pub open spec fn abs(n: int) -> nat {
    if n < 0 {
        (-n) as nat
    } else {
        n as nat
    }
}

/// A program that is one integer literal `n` (its digits, with a minus sign when negative)
/// compiles to the push of `n`, and running it yields `n` alone.
pub proof fn lemma_integer_literal_program(ast: Seq<Expr>, src: Seq<char>, n: i32)
    requires
        n != i32::MIN,
        ast.len() == 1,
        ast[0] matches Expr::Int { is_negative, val, .. } && is_negative == (n < 0) && span_within(
            val,
            src.len(),
        ) && text(src, val) == digits_of(abs(n as int)),
    ensures
        compile_program(ast, src) == Ok::<Seq<Instr>, CompileFault>(seq![Instr::PushInt(n)]),
        forall|r: Outcome|
            outcome_as(r, ast, src, u64::MAX as nat) ==> (r.result matches Ok(v) && values_view(v@)
                == seq![Value::Int(n)]),
{
    let k = abs(n as int);
    lemma_digits_of(k);
    let d = digits_of(k);
    assert(d[0] != '-' && d[0] != '+') by {
        assert(is_digit(d[0]));
    }
    assert(integer_text_value(d) == Some(k as int));
    assert(literal_value(d, n < 0) == Some(n));
    assert(ast.drop_last() =~= Seq::<Expr>::empty());
    assert(compile_seq(ast.drop_last(), src, Seq::empty(), 0) == Ok::<
        Emitted,
        CompileFault,
    >((Seq::empty(), Seq::empty())));
    assert(ast.last() == ast[0]);
    assert(compile_expr(ast[0], src, Seq::empty(), 0) == Ok::<
        Emitted,
        CompileFault,
    >((seq![Instr::PushInt(n)], Seq::empty())));
    assert(Seq::<Instr>::empty() + seq![Instr::PushInt(n)] =~= seq![Instr::PushInt(n)]);
    assert(seq![Value::Int(n)] =~= Seq::<Value>::empty().push(Value::Int(n)));
    reveal_with_fuel(run_from, 2);
}

} // verus!
