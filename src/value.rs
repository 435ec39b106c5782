use vstd::prelude::*;
use crate::bytecode::{copy_names, copy_ops, names_view, ops_view, Instr, OpCode};
use crate::text::{int_text, int_to_text};

verus! {

/// A function value: its name (none for an anonymous one), its parameters and its body.
#[derive(Debug, PartialEq)]
pub struct Function {
    pub name: Option<String>,
    pub args: Vec<String>,
    pub prog: Vec<OpCode>,
}

/// A value of the language at run time.
#[derive(Debug, PartialEq)]
pub enum Types {
    Int(i32),
    String(String),
    Bool(bool),
    Function(Function),
    NoneType,
}

/// The mathematical model of a function value.
pub struct FnVal {
    pub name: Option<Seq<char>>,
    pub params: Seq<Seq<char>>,
    pub body: Seq<Instr>,
}

/// The mathematical model of a value.
pub enum Value {
    Int(i32),
    Str(Seq<char>),
    Bool(bool),
    Func(FnVal),
    NoneVal,
}

impl Function {
    pub open spec fn view(&self) -> FnVal {
        FnVal {
            name: match self.name {
                Some(n) => Some(n@),
                None => None,
            },
            params: names_view(self.args@),
            body: ops_view(self.prog@),
        }
    }

    /// A named function. The frame values are not kept: a function starts from its arguments.
    pub fn new(name: String, _locals: Vec<Types>, args: Vec<String>, prog: Vec<OpCode>) -> (r: Self)
        ensures
            r@ == (FnVal { name: Some(name@), params: names_view(args@), body: ops_view(prog@) }),
    {
        Function { name: Some(name), args, prog }
    }

    /// A copy of this function, body included.
    pub fn copy(&self) -> (r: Function)
        ensures
            r@ == self@,
    {
        let name = match &self.name {
            Some(n) => Some(n.clone()),
            None => None,
        };
        Function { name, args: copy_names(&self.args), prog: copy_ops(&self.prog) }
    }
}

impl Types {
    pub open spec fn view(&self) -> Value {
        match self {
            Types::Int(n) => Value::Int(*n),
            Types::String(s) => Value::Str(s@),
            Types::Bool(b) => Value::Bool(*b),
            Types::Function(f) => Value::Func(f@),
            Types::NoneType => Value::NoneVal,
        }
    }

    /// A copy of this value.
    pub fn copy(&self) -> (r: Types)
        ensures
            r@ == self@,
    {
        match self {
            Types::Int(n) => Types::Int(*n),
            Types::String(s) => Types::String(s.clone()),
            Types::Bool(b) => Types::Bool(*b),
            Types::Function(f) => Types::Function(f.copy()),
            Types::NoneType => Types::NoneType,
        }
    }

    /// The text that `print` writes for this value; `None` for a function, which has none.
    pub fn pretty(&self) -> (r: Option<String>)
        ensures
            match r {
                Some(s) => render(self@) == Some(s@),
                None => render(self@) is None,
            },
    {
        proof {
            reveal_strlit("true");
            reveal_strlit("false");
            reveal_strlit("None");
        }
        match self {
            Types::Int(n) => Some(int_to_text(*n)),
            Types::Bool(b) => {
                if *b {
                    Some(String::from_str("true"))
                } else {
                    Some(String::from_str("false"))
                }
            },
            Types::String(s) => Some(s.clone()),
            Types::Function(_) => None,
            Types::NoneType => Some(String::from_str("None")),
        }
    }
}

/// The text that `print` writes for `v`: decimal for an integer, `true` or `false`, a string
/// itself, `None` for none; a function has no text.
pub open spec fn render(v: Value) -> Option<Seq<char>> {
    match v {
        Value::Int(n) => Some(int_text(n as int)),
        Value::Bool(b) => Some(
            if b {
                seq!['t', 'r', 'u', 'e']
            } else {
                seq!['f', 'a', 'l', 's', 'e']
            },
        ),
        Value::Str(s) => Some(s),
        Value::Func(_) => None,
        Value::NoneVal => Some(seq!['N', 'o', 'n', 'e']),
    }
}

/// The model of each value, in order.
pub open spec fn values_view(vs: Seq<Types>) -> Seq<Value> {
    vs.map_values(|v: Types| v@)
}

/// The model of each function, in order.
pub open spec fn fns_view(fs: Seq<Function>) -> Seq<FnVal> {
    fs.map_values(|f: Function| f@)
}

} // verus!
