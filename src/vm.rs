use vstd::prelude::*;
use crate::bytecode::{
    copy_names, copy_ops, lemma_names_view_push, lemma_ops_view, lemma_ops_view_len, names_view, ops_view, CallTarget,
    Instr, OpCode, Target,
};
use crate::value::{fns_view, render, values_view, FnVal, Function, Types, Value};

verus! {

broadcast use lemma_ops_view_len;

/// How deep calls may nest before a call fails with `CallDepthExceeded`.
pub const MAX_CALL_DEPTH: usize = 128;

/// Why the execution of a program stopped.
#[derive(Debug, PartialEq)]
pub enum RuntimeError {
    /// The program has no instruction.
    EmptyProgram,
    /// An instruction needed more values than the operand stack held.
    StackUnderflow,
    /// A slot past the end of the frame was read.
    UndefinedSlot,
    /// An operand had the wrong kind of value.
    TypeMismatch,
    /// No function of this name was defined.
    UndefinedFunction(String),
    /// A call supplied another number of arguments than the function declares.
    ArityMismatch,
    /// A slot called as a function holds no function.
    NotCallable,
    /// A jump placeholder was left in the program.
    UnpatchedJump,
    /// An addition or subtraction left the range of 32-bit integers.
    IntegerOverflow,
    /// Calls nested deeper than `MAX_CALL_DEPTH`.
    CallDepthExceeded,
    /// The step budget of the machine ran out.
    OutOfFuel,
}

/// The mathematical model of a runtime error.
pub enum Fault {
    EmptyProgram,
    StackUnderflow,
    UndefinedSlot,
    TypeMismatch,
    UndefinedFunction(Seq<char>),
    ArityMismatch,
    NotCallable,
    UnpatchedJump,
    IntegerOverflow,
    CallDepthExceeded,
    OutOfFuel,
}

impl RuntimeError {
    pub open spec fn view(&self) -> Fault {
        match self {
            RuntimeError::EmptyProgram => Fault::EmptyProgram,
            RuntimeError::StackUnderflow => Fault::StackUnderflow,
            RuntimeError::UndefinedSlot => Fault::UndefinedSlot,
            RuntimeError::TypeMismatch => Fault::TypeMismatch,
            RuntimeError::UndefinedFunction(n) => Fault::UndefinedFunction(n@),
            RuntimeError::ArityMismatch => Fault::ArityMismatch,
            RuntimeError::NotCallable => Fault::NotCallable,
            RuntimeError::UnpatchedJump => Fault::UnpatchedJump,
            RuntimeError::IntegerOverflow => Fault::IntegerOverflow,
            RuntimeError::CallDepthExceeded => Fault::CallDepthExceeded,
            RuntimeError::OutOfFuel => Fault::OutOfFuel,
        }
    }
}

/// What the executions of one run share: the function table, where the last definition of a
/// name wins, and the lines that `print` wrote.
pub struct Machine {
    pub funcs: Seq<FnVal>,
    pub out: Seq<Seq<char>>,
}

/// How the execution of one instruction sequence ended: its result (the operand stack, or an
/// error), its frame, the shared state, and the steps left.
pub struct Exit {
    pub result: Result<Seq<Value>, Fault>,
    pub frame: Seq<Value>,
    pub machine: Machine,
    pub fuel: nat,
}

/// The effect of one instruction: the state to go on from, or the end of the execution.
pub enum Step {
    Next { pc: nat, stack: Seq<Value>, frame: Seq<Value>, machine: Machine, fuel: nat },
    Done(Exit),
}

/// The function that `name` stands for: its last definition.
pub open spec fn lookup(funcs: Seq<FnVal>, name: Seq<char>) -> Option<FnVal>
    decreases funcs.len(),
{
    if funcs.len() == 0 {
        None
    } else if funcs.last().name == Some(name) {
        Some(funcs.last())
    } else {
        lookup(funcs.drop_last(), name)
    }
}

pub open spec fn fail(f: Fault, frame: Seq<Value>, m: Machine, fuel: nat) -> Step {
    Step::Done(Exit { result: Err(f), frame, machine: m, fuel })
}

pub open spec fn is_binary(i: Instr) -> bool {
    i is Plus || i is Minus || i is Eqeq || i is Lteq || i is Lt
}

/// The value of the binary instruction `i` on the integers `l` and `r`.
pub open spec fn binary_value(i: Instr, l: i32, r: i32) -> Result<Value, Fault> {
    match i {
        Instr::Plus => if i32::MIN <= l + r <= i32::MAX {
            Ok(Value::Int((l + r) as i32))
        } else {
            Err(Fault::IntegerOverflow)
        },
        Instr::Minus => if i32::MIN <= l - r <= i32::MAX {
            Ok(Value::Int((l - r) as i32))
        } else {
            Err(Fault::IntegerOverflow)
        },
        Instr::Eqeq => Ok(Value::Bool(l == r)),
        Instr::Lteq => Ok(Value::Bool(l <= r)),
        _ => Ok(Value::Bool(l < r)),
    }
}

/// A call of `f` with `arity` arguments from position `pc`: the arguments, the top `arity`
/// values of the stack in the order they were pushed, become the callee's frame; what the
/// callee leaves on its stack replaces them.
pub open spec fn call_step(
    f: FnVal,
    arity: nat,
    pc: nat,
    stack: Seq<Value>,
    frame: Seq<Value>,
    m: Machine,
    fuel: nat,
    depth: nat,
) -> Step
    decreases fuel, 1nat,
{
    if f.params.len() != arity {
        fail(Fault::ArityMismatch, frame, m, fuel)
    } else if stack.len() < arity {
        fail(Fault::StackUnderflow, frame, m, fuel)
    } else if depth >= MAX_CALL_DEPTH {
        fail(Fault::CallDepthExceeded, frame, m, fuel)
    } else {
        let split = stack.len() - arity;
        let sub = run(f.body, 0, Seq::empty(), stack.subrange(split, stack.len() as int), m, fuel, depth + 1);
        match sub.result {
            Ok(vals) => Step::Next {
                pc: pc + 1,
                stack: stack.subrange(0, split) + vals,
                frame,
                machine: sub.machine,
                fuel: sub.fuel,
            },
            Err(e) => fail(e, frame, sub.machine, sub.fuel),
        }
    }
}

/// The effect of the instruction at `pc`, with `fuel` steps left after it.
pub open spec fn step(
    prog: Seq<Instr>,
    pc: nat,
    stack: Seq<Value>,
    frame: Seq<Value>,
    m: Machine,
    fuel: nat,
    depth: nat,
) -> Step
    decreases fuel, 2nat,
{
    let next = |st: Seq<Value>| Step::Next { pc: pc + 1, stack: st, frame, machine: m, fuel };
    let instr = prog[pc as int];
    if is_binary(instr) {
        if stack.len() < 2 {
            fail(Fault::StackUnderflow, frame, m, fuel)
        } else {
            let rest = stack.subrange(0, stack.len() - 2);
            match (stack[stack.len() - 2], stack.last()) {
                (Value::Int(l), Value::Int(r)) => match binary_value(instr, l, r) {
                    Ok(v) => next(rest.push(v)),
                    Err(e) => fail(e, frame, m, fuel),
                },
                _ => fail(Fault::TypeMismatch, frame, m, fuel),
            }
        }
    } else {
        match instr {
            Instr::PushInt(n) => next(stack.push(Value::Int(n))),
            Instr::PushStr(s) => next(stack.push(Value::Str(s))),
            Instr::StoreVar(i) => if stack.len() == 0 {
                fail(Fault::StackUnderflow, frame, m, fuel)
            } else {
                let v = stack.last();
                Step::Next {
                    pc: pc + 1,
                    stack: stack.drop_last(),
                    frame: if i < frame.len() {
                        frame.update(i as int, v)
                    } else {
                        frame.push(v)
                    },
                    machine: m,
                    fuel,
                }
            },
            Instr::LoadVar(i) => if i < frame.len() {
                next(stack.push(frame[i as int]))
            } else {
                fail(Fault::UndefinedSlot, frame, m, fuel)
            },
            Instr::Call(Target::Print) => if stack.len() == 0 {
                fail(Fault::StackUnderflow, frame, m, fuel)
            } else {
                match render(stack.last()) {
                    Some(t) => Step::Next {
                        pc: pc + 1,
                        stack,
                        frame,
                        machine: Machine { out: m.out.push(t), ..m },
                        fuel,
                    },
                    None => fail(Fault::TypeMismatch, frame, m, fuel),
                }
            },
            Instr::Call(Target::Func(name, arity)) => match lookup(m.funcs, name) {
                Some(f) => call_step(f, arity, pc, stack, frame, m, fuel, depth),
                None => fail(Fault::UndefinedFunction(name), frame, m, fuel),
            },
            Instr::Call(Target::Var(i, arity)) => if i < frame.len() {
                match frame[i as int] {
                    Value::Func(f) => call_step(f, arity, pc, stack, frame, m, fuel, depth),
                    _ => fail(Fault::NotCallable, frame, m, fuel),
                }
            } else {
                fail(Fault::UndefinedSlot, frame, m, fuel)
            },
            Instr::Jump(t) => Step::Next { pc: t, stack, frame, machine: m, fuel },
            Instr::JumpIfFalse(t) => if stack.len() == 0 {
                fail(Fault::StackUnderflow, frame, m, fuel)
            } else {
                match stack.last() {
                    Value::Bool(b) => Step::Next {
                        pc: if b {
                            pc + 1
                        } else {
                            t
                        },
                        stack: stack.drop_last(),
                        frame,
                        machine: m,
                        fuel,
                    },
                    _ => fail(Fault::TypeMismatch, frame, m, fuel),
                }
            },
            Instr::Return => Step::Done(Exit { result: Ok(stack), frame, machine: m, fuel }),
            Instr::DefineFunc(name, params, body) => Step::Next {
                pc: pc + 1,
                stack,
                frame,
                machine: Machine {
                    funcs: m.funcs.push(FnVal { name: Some(name), params, body }),
                    ..m
                },
                fuel,
            },
            Instr::InlineFunc(params, body) => next(
                stack.push(Value::Func(FnVal { name: None, params, body })),
            ),
            _ => fail(Fault::UnpatchedJump, frame, m, fuel),
        }
    }
}

/// Executes `prog` from position `pc` until it runs past its end or returns, each instruction
/// taking one step of `fuel`.
pub open spec fn run(
    prog: Seq<Instr>,
    pc: nat,
    stack: Seq<Value>,
    frame: Seq<Value>,
    m: Machine,
    fuel: nat,
    depth: nat,
) -> Exit
    decreases fuel, 0nat,
{
    if pc >= prog.len() {
        Exit { result: Ok(stack), frame, machine: m, fuel }
    } else if fuel == 0 {
        Exit { result: Err(Fault::OutOfFuel), frame, machine: m, fuel }
    } else {
        match step(prog, pc, stack, frame, m, (fuel - 1) as nat, depth) {
            Step::Done(exit) => exit,
            Step::Next { pc: p, stack: s, frame: f, machine: mm, fuel: u } => {
                // a step never gains fuel (`lemma_step_fuel`); the bound makes that evident
                let left = if u < fuel {
                    u
                } else {
                    (fuel - 1) as nat
                };
                run(prog, p, s, f, mm, left, depth)
            },
        }
    }
}

/// The execution of a whole program from an empty frame.
pub open spec fn execution(prog: Seq<Instr>, m: Machine, fuel: nat) -> Exit {
    if prog.len() == 0 {
        Exit { result: Err(Fault::EmptyProgram), frame: Seq::empty(), machine: m, fuel }
    } else {
        run(prog, 0, Seq::empty(), Seq::empty(), m, fuel, 0)
    }
}

/// The steps left after `s`.
pub open spec fn fuel_after(s: Step) -> nat {
    match s {
        Step::Next { fuel, .. } => fuel,
        Step::Done(exit) => exit.fuel,
    }
}

/// An execution never gains steps.
pub proof fn lemma_run_fuel(
    prog: Seq<Instr>,
    pc: nat,
    stack: Seq<Value>,
    frame: Seq<Value>,
    m: Machine,
    fuel: nat,
    depth: nat,
)
    ensures
        run(prog, pc, stack, frame, m, fuel, depth).fuel <= fuel,
    decreases fuel, 0nat,
{
    if pc < prog.len() && fuel > 0 {
        let f1 = (fuel - 1) as nat;
        lemma_step_fuel(prog, pc, stack, frame, m, f1, depth);
        match step(prog, pc, stack, frame, m, f1, depth) {
            Step::Done(_) => {},
            Step::Next { pc: p, stack: s, frame: f, machine: mm, fuel: u } => {
                lemma_run_fuel(prog, p, s, f, mm, u, depth);
            },
        }
    }
}

pub proof fn lemma_call_fuel(
    f: FnVal,
    arity: nat,
    pc: nat,
    stack: Seq<Value>,
    frame: Seq<Value>,
    m: Machine,
    fuel: nat,
    depth: nat,
)
    ensures
        fuel_after(call_step(f, arity, pc, stack, frame, m, fuel, depth)) <= fuel,
    decreases fuel, 1nat,
{
    if f.params.len() == arity && stack.len() >= arity && depth < MAX_CALL_DEPTH {
        let split = stack.len() - arity;
        lemma_run_fuel(f.body, 0, Seq::empty(), stack.subrange(split, stack.len() as int), m, fuel, depth + 1);
    }
}

/// One instruction never gains steps.
pub proof fn lemma_step_fuel(
    prog: Seq<Instr>,
    pc: nat,
    stack: Seq<Value>,
    frame: Seq<Value>,
    m: Machine,
    fuel: nat,
    depth: nat,
)
    ensures
        fuel_after(step(prog, pc, stack, frame, m, fuel, depth)) <= fuel,
    decreases fuel, 2nat,
{
    match prog[pc as int] {
        Instr::Call(Target::Func(name, arity)) => match lookup(m.funcs, name) {
            Some(f) => lemma_call_fuel(f, arity, pc, stack, frame, m, fuel, depth),
            None => {},
        },
        Instr::Call(Target::Var(i, arity)) => if i < frame.len() {
            match frame[i as int] {
                Value::Func(f) => lemma_call_fuel(f, arity, pc, stack, frame, m, fuel, depth),
                _ => {},
            }
        },
        _ => {},
    }
}

/// How many values the instruction `i` takes off the stack.
pub open spec fn pops(i: Instr) -> nat {
    match i {
        Instr::Plus | Instr::Minus | Instr::Eqeq | Instr::Lteq | Instr::Lt => 2,
        Instr::StoreVar(_) | Instr::JumpIfFalse(_) | Instr::Call(Target::Print) => 1,
        Instr::Call(Target::Func(_, n)) => n,
        Instr::Call(Target::Var(_, n)) => n,
        _ => 0,
    }
}

/// An instruction that takes more values off the stack than it holds fails with
/// `StackUnderflow` (a call, once its callee is found and takes that many arguments).
pub proof fn lemma_stack_underflow(
    prog: Seq<Instr>,
    pc: nat,
    stack: Seq<Value>,
    frame: Seq<Value>,
    m: Machine,
    fuel: nat,
    depth: nat,
)
    requires
        pc < prog.len(),
        stack.len() < pops(prog[pc as int]),
        prog[pc as int] matches Instr::Call(Target::Func(name, n)) ==> (lookup(m.funcs, name) matches Some(f)
            && f.params.len() == n),
        prog[pc as int] matches Instr::Call(Target::Var(i, n)) ==> (i < frame.len() && (frame[i as int] matches Value::Func(f)
            && f.params.len() == n)),
    ensures
        step(prog, pc, stack, frame, m, fuel, depth) == fail(Fault::StackUnderflow, frame, m, fuel),
{
}

/// `print` leaves its argument where it was, for the operations that follow, and writes the
/// argument's text.
pub proof fn lemma_print_keeps_value(
    prog: Seq<Instr>,
    pc: nat,
    stack: Seq<Value>,
    frame: Seq<Value>,
    m: Machine,
    fuel: nat,
    depth: nat,
)
    requires
        pc < prog.len(),
        prog[pc as int] == Instr::Call(Target::Print),
        stack.len() > 0,
        render(stack.last()) is Some,
    ensures
        step(prog, pc, stack, frame, m, fuel, depth) == (Step::Next {
            pc: pc + 1,
            stack,
            frame,
            machine: Machine { out: m.out.push(render(stack.last())->Some_0), ..m },
            fuel,
        }),
{
}

/// A call by name fails with `UndefinedFunction` where no function has that name, and with
/// `ArityMismatch` where the function declares another number of parameters.
pub proof fn lemma_call_checks(
    prog: Seq<Instr>,
    pc: nat,
    stack: Seq<Value>,
    frame: Seq<Value>,
    m: Machine,
    fuel: nat,
    depth: nat,
    name: Seq<char>,
    arity: nat,
)
    requires
        pc < prog.len(),
        prog[pc as int] == Instr::Call(Target::Func(name, arity)),
    ensures
        lookup(m.funcs, name) is None ==> step(prog, pc, stack, frame, m, fuel, depth) == fail(
            Fault::UndefinedFunction(name),
            frame,
            m,
            fuel,
        ),
        lookup(m.funcs, name) matches Some(f) && f.params.len() != arity ==> step(
            prog,
            pc,
            stack,
            frame,
            m,
            fuel,
            depth,
        ) == fail(Fault::ArityMismatch, frame, m, fuel),
{
}

/// Whether `r` is the result that `spec` says.
pub open spec fn result_as(r: Result<Vec<Types>, RuntimeError>, spec: Result<Seq<Value>, Fault>) -> bool {
    match spec {
        Ok(vals) => r is Ok && values_view(r->Ok_0@) == vals,
        Err(f) => r is Err && r->Err_0@ == f,
    }
}

/// A compiled program.
pub struct Bytecode {
    pub bytecode: Vec<OpCode>,
}

/// The virtual machine: a program, the function table, the lines that `print` wrote, and the
/// number of steps it may still take.
pub struct VM {
    pub bytecode: Bytecode,
    pub functions: Vec<Function>,
    pub output: Vec<String>,
    pub fuel: u64,
}

/// How the execution goes on after one instruction.
pub enum Flow {
    /// On at this position.
    Next(usize),
    /// The execution returns its operand stack.
    Halt,
    /// The execution fails.
    Fail(RuntimeError),
}

/// Whether the outcome of one instruction, which left `stack`, `frame`, the shared state `m`
/// and `fuel` steps, is the one `spec` says.
pub open spec fn stepped_as(
    spec: Step,
    r: Flow,
    stack: Seq<Value>,
    frame: Seq<Value>,
    m: Machine,
    fuel: nat,
) -> bool {
    match spec {
        Step::Next { pc: p, stack: s, frame: f, machine: mm, fuel: u } => r matches Flow::Next(q)
            && q == p && stack == s && frame == f && m == mm && fuel == u,
        Step::Done(exit) => {
            &&& frame == exit.frame
            &&& m == exit.machine
            &&& fuel == exit.fuel
            &&& match exit.result {
                Ok(vals) => r is Halt && stack == vals,
                Err(e) => r matches Flow::Fail(x) && x@ == e,
            }
        },
    }
}

/// The integer or boolean that the binary instruction `op` gives on `l` and `r`.
fn apply_binary(op: &OpCode, l: i32, r: i32) -> (res: Result<Types, RuntimeError>)
    requires
        is_binary(op@),
    ensures
        match binary_value(op@, l, r) {
            Ok(v) => res is Ok && res->Ok_0@ == v,
            Err(f) => res is Err && res->Err_0@ == f,
        },
{
    match op {
        OpCode::Plus => match l.checked_add(r) {
            Some(v) => Ok(Types::Int(v)),
            None => Err(RuntimeError::IntegerOverflow),
        },
        OpCode::Minus => match l.checked_sub(r) {
            Some(v) => Ok(Types::Int(v)),
            None => Err(RuntimeError::IntegerOverflow),
        },
        OpCode::Eqeq => Ok(Types::Bool(l == r)),
        OpCode::Lteq => Ok(Types::Bool(l <= r)),
        _ => Ok(Types::Bool(l < r)),
    }
}

impl VM {
    /// The state that the executions of one run share.
    pub open spec fn machine(&self) -> Machine {
        Machine { funcs: fns_view(self.functions@), out: names_view(self.output@) }
    }

    /// A machine for `bytecode`, with an empty function table, no output, and no bound on its
    /// steps but the largest `u64`.
    pub fn new(bytecode: Bytecode) -> (r: VM)
        ensures
            r.bytecode == bytecode,
            r.machine() == (Machine { funcs: Seq::empty(), out: Seq::empty() }),
            r.fuel == u64::MAX,
    {
        let r = VM { bytecode, functions: Vec::new(), output: Vec::new(), fuel: u64::MAX };
        assert(r.machine().funcs =~= Seq::<FnVal>::empty());
        assert(r.machine().out =~= Seq::<Seq<char>>::empty());
        r
    }

    /// The position of the function that `name` stands for in the table.
    fn find_function(&self, name: &String) -> (r: Option<usize>)
        ensures
            match r {
                Some(i) => i < self.functions.len() && lookup(self.machine().funcs, name@) == Some(
                    self.functions@[i as int]@,
                ),
                None => lookup(self.machine().funcs, name@) is None,
            },
    {
        let ghost funcs = self.machine().funcs;
        let mut i: usize = self.functions.len();
        assert(funcs.subrange(0, i as int) =~= funcs);
        while i > 0
            invariant
                i <= self.functions.len(),
                funcs == self.machine().funcs,
                lookup(funcs, name@) == lookup(funcs.subrange(0, i as int), name@),
            decreases i,
        {
            let ghost pre = funcs.subrange(0, i as int);
            assert(pre.drop_last() =~= funcs.subrange(0, i - 1));
            let found = match &self.functions[i - 1].name {
                Some(n) => *n == *name,
                None => false,
            };
            if found {
                return Some(i - 1);
            }
            i = i - 1;
        }
        None
    }

    /// Calls `f` with the top `arity` values of `stack` as its arguments.
    fn invoke(
        &mut self,
        f: Function,
        arity: usize,
        pc: usize,
        stack: &mut Vec<Types>,
        frame: &Vec<Types>,
        depth: usize,
    ) -> (r: Flow)
        requires
            pc < usize::MAX,
            depth <= MAX_CALL_DEPTH,
        ensures
            stepped_as(
                call_step(
                    f@,
                    arity as nat,
                    pc as nat,
                    values_view(old(stack)@),
                    values_view(frame@),
                    old(self).machine(),
                    old(self).fuel as nat,
                    depth as nat,
                ),
                r,
                values_view(final(stack)@),
                values_view(frame@),
                final(self).machine(),
                final(self).fuel as nat,
            ),
            final(self).bytecode == old(self).bytecode,
        decreases self.fuel, 1nat,
    {
        if f.args.len() != arity {
            return Flow::Fail(RuntimeError::ArityMismatch);
        }
        if stack.len() < arity {
            return Flow::Fail(RuntimeError::StackUnderflow);
        }
        if depth >= MAX_CALL_DEPTH {
            return Flow::Fail(RuntimeError::CallDepthExceeded);
        }
        let ghost old_stack = values_view(stack@);
        let split = stack.len() - arity;
        let mut callee_frame = stack.split_off(split);
        assert(values_view(callee_frame@) =~= old_stack.subrange(split as int, old_stack.len() as int));
        assert(values_view(stack@) =~= old_stack.subrange(0, split as int));
        match self.execute(&f.prog, &mut callee_frame, depth + 1) {
            Ok(mut vals) => {
                let ghost before = stack@;
                let ghost added = vals@;
                stack.append(&mut vals);
                assert(values_view(stack@) =~= values_view(before) + values_view(added));
                Flow::Next(pc + 1)
            },
            Err(e) => Flow::Fail(e),
        }
    }

    /// Executes the instruction at `pc`.
    fn step(
        &mut self,
        prog: &Vec<OpCode>,
        pc: usize,
        stack: &mut Vec<Types>,
        frame: &mut Vec<Types>,
        depth: usize,
    ) -> (r: Flow)
        requires
            pc < prog.len(),
            depth <= MAX_CALL_DEPTH,
        ensures
            stepped_as(
                step(
                    ops_view(prog@),
                    pc as nat,
                    values_view(old(stack)@),
                    values_view(old(frame)@),
                    old(self).machine(),
                    old(self).fuel as nat,
                    depth as nat,
                ),
                r,
                values_view(final(stack)@),
                values_view(final(frame)@),
                final(self).machine(),
                final(self).fuel as nat,
            ),
            final(self).bytecode == old(self).bytecode,
        decreases self.fuel, 2nat,
    {
        proof {
            lemma_ops_view(prog@);
        }
        let ghost s0 = values_view(stack@);
        let ghost f0 = values_view(frame@);
        let op = &prog[pc];
        match op {
            OpCode::Plus | OpCode::Minus | OpCode::Eqeq | OpCode::Lteq | OpCode::Lt => {
                if stack.len() < 2 {
                    return Flow::Fail(RuntimeError::StackUnderflow);
                }
                let rhs = stack.pop().unwrap();
                let lhs = stack.pop().unwrap();
                assert(values_view(stack@) =~= s0.subrange(0, s0.len() - 2));
                match (lhs, rhs) {
                    (Types::Int(l), Types::Int(r)) => match apply_binary(op, l, r) {
                        Ok(v) => {
                            let ghost before = stack@;
                            stack.push(v);
                            assert(values_view(stack@) =~= values_view(before).push(v@));
                            Flow::Next(pc + 1)
                        },
                        Err(e) => Flow::Fail(e),
                    },
                    _ => Flow::Fail(RuntimeError::TypeMismatch),
                }
            },
            OpCode::PushInt(n) => {
                stack.push(Types::Int(*n));
                assert(values_view(stack@) =~= s0.push(Value::Int(*n)));
                Flow::Next(pc + 1)
            },
            OpCode::PushStr(t) => {
                let v = Types::String(t.clone());
                stack.push(v);
                assert(values_view(stack@) =~= s0.push(v@));
                Flow::Next(pc + 1)
            },
            OpCode::StoreVar(i) => {
                if stack.len() == 0 {
                    return Flow::Fail(RuntimeError::StackUnderflow);
                }
                let v = stack.pop().unwrap();
                assert(values_view(stack@) =~= s0.drop_last());
                if *i < frame.len() {
                    frame.set(*i, v);
                    assert(values_view(frame@) =~= f0.update(*i as int, v@));
                } else {
                    frame.push(v);
                    assert(values_view(frame@) =~= f0.push(v@));
                }
                Flow::Next(pc + 1)
            },
            OpCode::LoadVar(i) => {
                if *i < frame.len() {
                    let v = frame[*i].copy();
                    stack.push(v);
                    assert(values_view(stack@) =~= s0.push(v@));
                    Flow::Next(pc + 1)
                } else {
                    Flow::Fail(RuntimeError::UndefinedSlot)
                }
            },
            OpCode::Call(CallTarget::Print) => {
                if stack.len() == 0 {
                    return Flow::Fail(RuntimeError::StackUnderflow);
                }
                match stack[stack.len() - 1].pretty() {
                    Some(t) => {
                        proof {
                            lemma_names_view_push(self.output@, t);
                        }
                        self.output.push(t);
                        Flow::Next(pc + 1)
                    },
                    None => Flow::Fail(RuntimeError::TypeMismatch),
                }
            },
            OpCode::Call(CallTarget::Func(name, arity)) => {
                match self.find_function(name) {
                    Some(idx) => {
                        let f = self.functions[idx].copy();
                        self.invoke(f, *arity, pc, stack, frame, depth)
                    },
                    None => Flow::Fail(RuntimeError::UndefinedFunction(name.clone())),
                }
            },
            OpCode::Call(CallTarget::Var(i, arity)) => {
                if *i >= frame.len() {
                    return Flow::Fail(RuntimeError::UndefinedSlot);
                }
                let callee = match &frame[*i] {
                    Types::Function(f) => Some(f.copy()),
                    _ => None,
                };
                match callee {
                    Some(f) => self.invoke(f, *arity, pc, stack, frame, depth),
                    None => Flow::Fail(RuntimeError::NotCallable),
                }
            },
            OpCode::Jump(t) => Flow::Next(*t),
            OpCode::JumpIfFalse(t) => {
                if stack.len() == 0 {
                    return Flow::Fail(RuntimeError::StackUnderflow);
                }
                let v = stack.pop().unwrap();
                assert(values_view(stack@) =~= s0.drop_last());
                match v {
                    Types::Bool(b) => if b {
                        Flow::Next(pc + 1)
                    } else {
                        Flow::Next(*t)
                    },
                    _ => Flow::Fail(RuntimeError::TypeMismatch),
                }
            },
            OpCode::Return => Flow::Halt,
            OpCode::DefineFunc(name, params, body) => {
                let f = Function {
                    name: Some(name.clone()),
                    args: copy_names(params),
                    prog: copy_ops(body),
                };
                let ghost before = self.functions@;
                self.functions.push(f);
                assert(fns_view(self.functions@) =~= fns_view(before).push(f@));
                Flow::Next(pc + 1)
            },
            OpCode::InlineFunc(params, body) => {
                let v = Types::Function(
                    Function { name: None, args: copy_names(params), prog: copy_ops(body) },
                );
                stack.push(v);
                assert(values_view(stack@) =~= s0.push(v@));
                Flow::Next(pc + 1)
            },
            OpCode::Patch => Flow::Fail(RuntimeError::UnpatchedJump),
        }
    }

    /// Executes `prog` on `frame` until it runs past its end or returns; yields its operand
    /// stack.
    fn execute(&mut self, prog: &Vec<OpCode>, frame: &mut Vec<Types>, depth: usize) -> (r: Result<
        Vec<Types>,
        RuntimeError,
    >)
        requires
            depth <= MAX_CALL_DEPTH,
        ensures
            ({
                let exit = run(
                    ops_view(prog@),
                    0,
                    Seq::empty(),
                    values_view(old(frame)@),
                    old(self).machine(),
                    old(self).fuel as nat,
                    depth as nat,
                );
                &&& result_as(r, exit.result)
                &&& values_view(final(frame)@) == exit.frame
                &&& final(self).machine() == exit.machine
                &&& final(self).fuel as nat == exit.fuel
            }),
            final(self).bytecode == old(self).bytecode,
        decreases self.fuel, 0nat,
    {
        let ghost p = ops_view(prog@);
        let ghost goal = run(
            p,
            0,
            Seq::empty(),
            values_view(frame@),
            self.machine(),
            self.fuel as nat,
            depth as nat,
        );
        let mut stack: Vec<Types> = Vec::new();
        let mut pc: usize = 0;
        assert(values_view(stack@) =~= Seq::<Value>::empty());
        while pc < prog.len()
            invariant
                p == ops_view(prog@),
                depth <= MAX_CALL_DEPTH,
                self.fuel <= old(self).fuel,
                self.bytecode == old(self).bytecode,
                goal == run(
                    p,
                    0,
                    Seq::empty(),
                    values_view(old(frame)@),
                    old(self).machine(),
                    old(self).fuel as nat,
                    depth as nat,
                ),
                run(
                    p,
                    pc as nat,
                    values_view(stack@),
                    values_view(frame@),
                    self.machine(),
                    self.fuel as nat,
                    depth as nat,
                ) == goal,
            decreases self.fuel,
        {
            if self.fuel == 0 {
                return Err(RuntimeError::OutOfFuel);
            }
            self.fuel = self.fuel - 1;
            proof {
                lemma_step_fuel(
                    p,
                    pc as nat,
                    values_view(stack@),
                    values_view(frame@),
                    self.machine(),
                    self.fuel as nat,
                    depth as nat,
                );
            }
            match self.step(prog, pc, &mut stack, frame, depth) {
                Flow::Next(next) => {
                    pc = next;
                },
                Flow::Halt => {
                    return Ok(stack);
                },
                Flow::Fail(e) => {
                    return Err(e);
                },
            }
        }
        Ok(stack)
    }

    /// Runs the program from an empty frame, on this machine's function table, output and
    /// step budget; yields the final operand stack.
    pub fn run(&mut self) -> (r: Result<Vec<Types>, RuntimeError>)
        ensures
            ({
                let exit = execution(
                    ops_view(old(self).bytecode.bytecode@),
                    old(self).machine(),
                    old(self).fuel as nat,
                );
                &&& result_as(r, exit.result)
                &&& final(self).machine() == exit.machine
                &&& final(self).fuel as nat == exit.fuel
                &&& final(self).bytecode == old(self).bytecode
            }),
    {
        if self.bytecode.bytecode.len() == 0 {
            return Err(RuntimeError::EmptyProgram);
        }
        let prog = copy_ops(&self.bytecode.bytecode);
        let mut frame: Vec<Types> = Vec::new();
        assert(values_view(frame@) =~= Seq::<Value>::empty());
        self.execute(&prog, &mut frame, 0)
    }
}

} // verus!
