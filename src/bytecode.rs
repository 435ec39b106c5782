use vstd::prelude::*;

verus! {

/// What a `Call` instruction invokes.
#[derive(Debug, PartialEq)]
pub enum CallTarget {
    /// A function of the function table, by name, with the number of arguments supplied.
    Func(String, usize),
    /// The function value held in a local slot, with the number of arguments supplied.
    Var(usize, usize),
    /// The builtin `print`.
    Print,
}

/// One instruction of the virtual machine.
#[derive(Debug, PartialEq)]
pub enum OpCode {
    /// Pushes an integer.
    PushInt(i32),
    /// Pushes a string.
    PushStr(String),
    /// Pops two integers and pushes their sum.
    Plus,
    /// Pops two integers and pushes the first minus the second.
    Minus,
    /// Pops two integers and pushes whether they are equal.
    Eqeq,
    /// Pops two integers and pushes whether the first is at most the second.
    Lteq,
    /// Pops two integers and pushes whether the first is less than the second.
    Lt,
    /// Pops a value into a slot of the frame.
    StoreVar(usize),
    /// Pushes the value of a slot of the frame.
    LoadVar(usize),
    /// Calls a function or the builtin `print`.
    Call(CallTarget),
    /// Goes on at the given position.
    Jump(usize),
    /// Pops a boolean and goes on at the given position when it is false.
    JumpIfFalse(usize),
    /// Ends the current execution with the operand stack as its result.
    Return,
    /// Enters a function, with its name, parameters and body, in the function table.
    DefineFunc(String, Vec<String>, Vec<OpCode>),
    /// Pushes an anonymous function, with its parameters and body.
    InlineFunc(Vec<String>, Vec<OpCode>),
    /// Stands for a jump whose target is not yet known; never executed.
    Patch,
}

/// The mathematical model of a call target.
pub enum Target {
    Func(Seq<char>, nat),
    Var(nat, nat),
    Print,
}

/// The mathematical model of an instruction.
pub enum Instr {
    PushInt(i32),
    PushStr(Seq<char>),
    Plus,
    Minus,
    Eqeq,
    Lteq,
    Lt,
    StoreVar(nat),
    LoadVar(nat),
    Call(Target),
    Jump(nat),
    JumpIfFalse(nat),
    Return,
    DefineFunc(Seq<char>, Seq<Seq<char>>, Seq<Instr>),
    InlineFunc(Seq<Seq<char>>, Seq<Instr>),
    Patch,
}

/// The characters of each string, in order.
pub open spec fn names_view(names: Seq<String>) -> Seq<Seq<char>> {
    names.map_values(|s: String| s@)
}

impl CallTarget {
    pub open spec fn view(&self) -> Target {
        match self {
            CallTarget::Func(name, n) => Target::Func(name@, *n as nat),
            CallTarget::Var(i, n) => Target::Var(*i as nat, *n as nat),
            CallTarget::Print => Target::Print,
        }
    }
}

impl OpCode {
    pub open spec fn view(&self) -> Instr
        decreases self, 0nat,
    {
        match self {
            OpCode::PushInt(n) => Instr::PushInt(*n),
            OpCode::PushStr(s) => Instr::PushStr(s@),
            OpCode::Plus => Instr::Plus,
            OpCode::Minus => Instr::Minus,
            OpCode::Eqeq => Instr::Eqeq,
            OpCode::Lteq => Instr::Lteq,
            OpCode::Lt => Instr::Lt,
            OpCode::StoreVar(i) => Instr::StoreVar(*i as nat),
            OpCode::LoadVar(i) => Instr::LoadVar(*i as nat),
            OpCode::Call(t) => Instr::Call(t@),
            OpCode::Jump(t) => Instr::Jump(*t as nat),
            OpCode::JumpIfFalse(t) => Instr::JumpIfFalse(*t as nat),
            OpCode::Return => Instr::Return,
            OpCode::DefineFunc(name, params, body) => {
                proof { broadcast use vstd::std_specs::vec::axiom_vec_decreases_to_view; }
                Instr::DefineFunc(name@, names_view(params@), ops_view(body@))
            }
            OpCode::InlineFunc(params, body) => {
                proof { broadcast use vstd::std_specs::vec::axiom_vec_decreases_to_view; }
                Instr::InlineFunc(names_view(params@), ops_view(body@))
            }
            OpCode::Patch => Instr::Patch,
        }
    }
}

/// The model of each instruction, in order.
pub open spec fn ops_view(ops: Seq<OpCode>) -> Seq<Instr>
    decreases ops, 1nat,
{
    if ops.len() == 0 {
        Seq::empty()
    } else {
        ops_view(ops.subrange(0, ops.len() - 1)).push(ops[ops.len() - 1].view())
    }
}

pub broadcast proof fn lemma_ops_view_len(ops: Seq<OpCode>)
    ensures
        #[trigger] ops_view(ops).len() == ops.len(),
{
    lemma_ops_view(ops);
}

/// The model of a sequence of instructions has one entry per instruction.
pub proof fn lemma_ops_view(ops: Seq<OpCode>)
    ensures
        ops_view(ops).len() == ops.len(),
        forall|i: int| 0 <= i < ops.len() ==> #[trigger] ops_view(ops)[i] == ops[i]@,
    decreases ops.len(),
{
    if ops.len() > 0 {
        lemma_ops_view(ops.subrange(0, ops.len() - 1));
    }
}

pub proof fn lemma_ops_view_push(ops: Seq<OpCode>, op: OpCode)
    ensures
        ops_view(ops.push(op)) == ops_view(ops).push(op@),
{
    assert(ops.push(op).subrange(0, ops.len() as int) =~= ops);
}

pub proof fn lemma_ops_view_update(ops: Seq<OpCode>, i: int, op: OpCode)
    requires
        0 <= i < ops.len(),
    ensures
        ops_view(ops.update(i, op)) == ops_view(ops).update(i, op@),
{
    lemma_ops_view(ops);
    lemma_ops_view(ops.update(i, op));
    assert(ops_view(ops.update(i, op)) =~= ops_view(ops).update(i, op@));
}

pub proof fn lemma_names_view_push(names: Seq<String>, s: String)
    ensures
        names_view(names.push(s)) == names_view(names).push(s@),
{
    assert(names_view(names.push(s)) =~= names_view(names).push(s@));
}

/// A copy of `names`.
pub fn copy_names(names: &Vec<String>) -> (r: Vec<String>)
    ensures
        names_view(r@) == names_view(names@),
{
    let mut r: Vec<String> = Vec::new();
    let mut i: usize = 0;
    while i < names.len()
        invariant
            i <= names.len(),
            names_view(r@) == names_view(names@.subrange(0, i as int)),
        decreases names.len() - i,
    {
        let s = names[i].clone();
        proof {
            lemma_names_view_push(r@, s);
            assert(names@.subrange(0, i + 1) =~= names@.subrange(0, i as int).push(names@[i as int]));
            lemma_names_view_push(names@.subrange(0, i as int), names@[i as int]);
        }
        r.push(s);
        i = i + 1;
    }
    assert(names@.subrange(0, i as int) =~= names@);
    r
}

impl CallTarget {
    pub fn copy(&self) -> (r: CallTarget)
        ensures
            r@ == self@,
    {
        match self {
            CallTarget::Func(name, n) => CallTarget::Func(name.clone(), *n),
            CallTarget::Var(i, n) => CallTarget::Var(*i, *n),
            CallTarget::Print => CallTarget::Print,
        }
    }
}

impl OpCode {
    /// A copy of this instruction, bodies included.
    pub fn copy(&self) -> (r: OpCode)
        ensures
            r@ == self@,
        decreases self,
    {
        match self {
            OpCode::PushInt(n) => OpCode::PushInt(*n),
            OpCode::PushStr(s) => OpCode::PushStr(s.clone()),
            OpCode::Plus => OpCode::Plus,
            OpCode::Minus => OpCode::Minus,
            OpCode::Eqeq => OpCode::Eqeq,
            OpCode::Lteq => OpCode::Lteq,
            OpCode::Lt => OpCode::Lt,
            OpCode::StoreVar(i) => OpCode::StoreVar(*i),
            OpCode::LoadVar(i) => OpCode::LoadVar(*i),
            OpCode::Call(t) => OpCode::Call(t.copy()),
            OpCode::Jump(t) => OpCode::Jump(*t),
            OpCode::JumpIfFalse(t) => OpCode::JumpIfFalse(*t),
            OpCode::Return => OpCode::Return,
            OpCode::DefineFunc(name, params, body) => {
                OpCode::DefineFunc(name.clone(), copy_names(params), copy_ops(body))
            },
            OpCode::InlineFunc(params, body) => {
                OpCode::InlineFunc(copy_names(params), copy_ops(body))
            },
            OpCode::Patch => OpCode::Patch,
        }
    }
}

/// A copy of `ops`, bodies included.
pub fn copy_ops(ops: &Vec<OpCode>) -> (r: Vec<OpCode>)
    ensures
        ops_view(r@) == ops_view(ops@),
    decreases ops,
{
    let mut r: Vec<OpCode> = Vec::new();
    let mut i: usize = 0;
    while i < ops.len()
        invariant
            i <= ops.len(),
            ops_view(r@) == ops_view(ops@.subrange(0, i as int)),
        decreases ops.len() - i,
    {
        proof {
            broadcast use vstd::std_specs::vec::axiom_vec_index_decreases;
        }
        let op = ops[i].copy();
        proof {
            lemma_ops_view_push(r@, op);
            assert(ops@.subrange(0, i + 1) =~= ops@.subrange(0, i as int).push(ops@[i as int]));
            lemma_ops_view_push(ops@.subrange(0, i as int), ops@[i as int]);
        }
        r.push(op);
        i = i + 1;
    }
    assert(ops@.subrange(0, i as int) =~= ops@);
    r
}

} // verus!
