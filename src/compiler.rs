use vstd::prelude::*;
use crate::ast::{all_spans_within, span_within, spans_within, text, Expr, Span};
use crate::bytecode::{
    copy_names, lemma_names_view_push, lemma_ops_view_len, lemma_ops_view_push,
    lemma_ops_view_update, names_view, ops_view, CallTarget, Instr, OpCode, Target,
};
use crate::text::{decode_string_literal, literal_value, parse_i32, string_literal_value};

verus! {

broadcast use lemma_ops_view_len;

/// Why a syntax tree could not be compiled.
#[derive(Debug, PartialEq)]
pub enum CompileError {
    /// An integer literal whose text is no 32-bit integer.
    MalformedLiteral,
    /// A variable read before any assignment to it in the current function.
    UndefinedVariable(String),
    /// A binary operator other than `+`, `-`, `<`, `<=` and `==`.
    UnsupportedOperator(String),
}

/// The mathematical model of a compile error.
pub enum CompileFault {
    MalformedLiteral,
    UndefinedVariable(Seq<char>),
    UnsupportedOperator(Seq<char>),
}

impl CompileError {
    pub open spec fn view(&self) -> CompileFault {
        match self {
            CompileError::MalformedLiteral => CompileFault::MalformedLiteral,
            CompileError::UndefinedVariable(n) => CompileFault::UndefinedVariable(n@),
            CompileError::UnsupportedOperator(o) => CompileFault::UnsupportedOperator(o@),
        }
    }
}

/// What compiling a node appends: its instructions, and the variable names of the current
/// function afterwards (a variable's slot is its position there).
pub type Emitted = (Seq<Instr>, Seq<Seq<char>>);

/// Whether `i` is the first position of `name` in `names`.
pub open spec fn is_first(names: Seq<Seq<char>>, name: Seq<char>, i: int) -> bool {
    &&& 0 <= i < names.len()
    &&& names[i] == name
    &&& forall|j: int| 0 <= j < i ==> names[j] != name
}

/// The slot of variable `name`: its first position in `names`.
pub open spec fn slot_of(names: Seq<Seq<char>>, name: Seq<char>) -> Option<nat> {
    if exists|i: int| is_first(names, name, i) {
        Some((choose|i: int| is_first(names, name, i)) as nat)
    } else {
        None
    }
}

/// The instruction of a binary operator.
pub open spec fn operator_instr(op: Seq<char>) -> Option<Instr> {
    if op == seq!['+'] {
        Some(Instr::Plus)
    } else if op == seq!['-'] {
        Some(Instr::Minus)
    } else if op == seq!['<'] {
        Some(Instr::Lt)
    } else if op == seq!['<', '='] {
        Some(Instr::Lteq)
    } else if op == seq!['=', '='] {
        Some(Instr::Eqeq)
    } else {
        None
    }
}

/// Compiles `e` in a function whose variables are `locals`, where its code will start at
/// position `base` of the instruction sequence (jump targets are positions in it).
pub open spec fn compile_expr(e: Expr, src: Seq<char>, locals: Seq<Seq<char>>, base: nat) -> Result<
    Emitted,
    CompileFault,
>
    decreases e, 0nat,
{
    match e {
        Expr::Prog { stmts, .. } => compile_seq(stmts@, src, locals, base),
        Expr::Assign { id, expr, .. } => match compile_expr(*expr, src, locals, base) {
            Ok((code, names)) => {
                let name = text(src, id);
                match slot_of(names, name) {
                    Some(slot) => Ok((code.push(Instr::StoreVar(slot)), names)),
                    None => Ok((code.push(Instr::StoreVar(names.len())), names.push(name))),
                }
            },
            Err(f) => Err(f),
        },
        Expr::Print { args, .. } => match compile_expr(*args, src, locals, base) {
            Ok((code, names)) => Ok((code.push(Instr::Call(Target::Print)), names)),
            Err(f) => Err(f),
        },
        Expr::BinaryOp { op, lhs, rhs, .. } => match compile_expr(*lhs, src, locals, base) {
            Ok((c1, l1)) => match compile_expr(*rhs, src, l1, base + c1.len()) {
                Ok((c2, l2)) => match operator_instr(text(src, op)) {
                    Some(i) => Ok(((c1 + c2).push(i), l2)),
                    None => Err(CompileFault::UnsupportedOperator(text(src, op))),
                },
                Err(f) => Err(f),
            },
            Err(f) => Err(f),
        },
        Expr::Int { is_negative, val, .. } => match literal_value(text(src, val), is_negative) {
            Some(n) => Ok((seq![Instr::PushInt(n)], locals)),
            None => Err(CompileFault::MalformedLiteral),
        },
        Expr::String(sp) => Ok((seq![Instr::PushStr(string_literal_value(text(src, sp)))], locals)),
        Expr::VarLookup(sp) => match slot_of(locals, text(src, sp)) {
            Some(slot) => Ok((seq![Instr::LoadVar(slot)], locals)),
            None => Err(CompileFault::UndefinedVariable(text(src, sp))),
        },
        Expr::WhileLoop { condition, body, .. } => match compile_expr(*condition, src, locals, base) {
            Ok((c1, l1)) => match compile_expr(*body, src, l1, base + c1.len() + 1) {
                Ok((c2, l2)) => match compile_expr(
                    *condition,
                    src,
                    l2,
                    base + c1.len() + 1 + c2.len(),
                ) {
                    Ok((c3, l3)) => {
                        let end = base + c1.len() + 1 + c2.len() + c3.len() + 1;
                        Ok(
                            (
                                c1.push(Instr::JumpIfFalse(end)) + c2 + c3.push(Instr::Jump(base)),
                                l3,
                            ),
                        )
                    },
                    Err(f) => Err(f),
                },
                Err(f) => Err(f),
            },
            Err(f) => Err(f),
        },
        Expr::IfStatement { condition, body, .. } => match compile_expr(
            *condition,
            src,
            locals,
            base,
        ) {
            Ok((c1, l1)) => match compile_expr(*body, src, l1, base + c1.len() + 1) {
                Ok((c2, l2)) => {
                    let end = base + c1.len() + 1 + c2.len();
                    Ok((c1.push(Instr::JumpIfFalse(end)) + c2, l2))
                },
                Err(f) => Err(f),
            },
            Err(f) => Err(f),
        },
        Expr::FuncDef { name, args_list, body, .. } => {
            let params = param_names(args_list@, src);
            match compile_expr(*body, src, params, 0) {
                Ok((code, _)) => Ok((seq![Instr::DefineFunc(text(src, name), params, code)], locals)),
                Err(f) => Err(f),
            }
        },
        Expr::Call { name, params, .. } => match compile_seq(params@, src, locals, base) {
            Ok((code, names)) => Ok(
                (code.push(Instr::Call(Target::Func(text(src, name), params@.len()))), names),
            ),
            Err(f) => Err(f),
        },
        Expr::Return { expr, .. } => match compile_expr(*expr, src, locals, base) {
            Ok((code, names)) => Ok((code.push(Instr::Return), names)),
            Err(f) => Err(f),
        },
    }
}

/// Compiles the nodes `es` one after the other.
pub open spec fn compile_seq(es: Seq<Expr>, src: Seq<char>, locals: Seq<Seq<char>>, base: nat) -> Result<
    Emitted,
    CompileFault,
>
    decreases es, 1nat,
{
    if es.len() == 0 {
        Ok((Seq::empty(), locals))
    } else {
        match compile_seq(es.drop_last(), src, locals, base) {
            Ok((c1, l1)) => match compile_expr(es.last(), src, l1, base + c1.len()) {
                Ok((c2, l2)) => Ok((c1 + c2, l2)),
                Err(f) => Err(f),
            },
            Err(f) => Err(f),
        }
    }
}

/// The parameter names of a function definition.
pub open spec fn param_names(args: Seq<Span>, src: Seq<char>) -> Seq<Seq<char>> {
    args.map_values(|sp: Span| text(src, sp))
}

/// The instructions of a program: its top-level nodes compiled in order, from an empty scope.
pub open spec fn compile_program(ast: Seq<Expr>, src: Seq<char>) -> Result<Seq<Instr>, CompileFault> {
    match compile_seq(ast, src, Seq::empty(), 0) {
        Ok((code, _)) => Ok(code),
        Err(f) => Err(f),
    }
}

/// Whether `r` is the compilation result that `spec` says.
pub open spec fn compiled_as(spec: Result<Seq<Instr>, CompileFault>, r: Result<Vec<OpCode>, CompileError>) -> bool {
    match spec {
        Ok(code) => r is Ok && ops_view(r->Ok_0@) == code,
        Err(f) => r is Err && r->Err_0@ == f,
    }
}

/// Whether the outcome `r` of a compiling function, which turned the instruction sequence
/// `before` into `after` and the scope into `names`, is the outcome `spec` says.
pub open spec fn emitted_as(
    spec: Result<Emitted, CompileFault>,
    r: Result<(), CompileError>,
    before: Seq<Instr>,
    after: Seq<Instr>,
    names: Seq<Seq<char>>,
) -> bool {
    match spec {
        Ok((code, ls)) => r is Ok && after == before + code && names == ls,
        Err(f) => r is Err && r->Err_0@ == f,
    }
}

/// The slot of `name` among `locals`.
fn find_slot(locals: &Vec<String>, name: &String) -> (r: Option<usize>)
    ensures
        match r {
            Some(i) => slot_of(names_view(locals@), name@) == Some(i as nat),
            None => slot_of(names_view(locals@), name@) is None,
        },
{
    let ghost names = names_view(locals@);
    let mut i: usize = 0;
    while i < locals.len()
        invariant
            i <= locals.len(),
            names == names_view(locals@),
            forall|j: int| 0 <= j < i ==> names[j] != name@,
        decreases locals.len() - i,
    {
        if locals[i] == *name {
            assert(is_first(names, name@, i as int));
            let ghost c = choose|k: int| is_first(names, name@, k);
            assert(c == i as int) by {
                if c < i {
                } else if c > i {
                    assert(names[i as int] == name@);
                }
            }
            return Some(i);
        }
        i = i + 1;
    }
    assert(!exists|k: int| is_first(names, name@, k));
    None
}

/// The instruction of the binary operator `op`.
fn operator_of(op: &str) -> (r: Option<OpCode>)
    ensures
        match r {
            Some(o) => operator_instr(op@) == Some(o@),
            None => operator_instr(op@) is None,
        },
{
    let n = op.unicode_len();
    if n == 1 {
        let c = op.get_char(0);
        if c == '+' {
            assert(op@ =~= seq!['+']);
            return Some(OpCode::Plus);
        } else if c == '-' {
            assert(op@ =~= seq!['-']);
            return Some(OpCode::Minus);
        } else if c == '<' {
            assert(op@ =~= seq!['<']);
            return Some(OpCode::Lt);
        }
        assert(op@ != seq!['+'] && op@ != seq!['-'] && op@ != seq!['<']) by {
            assert(seq!['+'][0] == '+' && seq!['-'][0] == '-' && seq!['<'][0] == '<');
        }
    } else if n == 2 {
        let c0 = op.get_char(0);
        let c1 = op.get_char(1);
        if c0 == '<' && c1 == '=' {
            assert(op@ =~= seq!['<', '=']);
            return Some(OpCode::Lteq);
        } else if c0 == '=' && c1 == '=' {
            assert(op@ =~= seq!['=', '=']);
            return Some(OpCode::Eqeq);
        }
        assert(op@ != seq!['<', '='] && op@ != seq!['=', '=']) by {
            assert(seq!['<', '='][0] == '<' && seq!['<', '='][1] == '=');
            assert(seq!['=', '='][0] == '=' && seq!['=', '='][1] == '=');
        }
    }
    None
}

/// The text of `sp` in `src`, as a string of its own.
fn span_text(src: &str, sp: Span) -> (r: String)
    requires
        span_within(sp, src@.len()),
    ensures
        r@ == text(src@, sp),
{
    src.substring_char(sp.start, sp.end).to_owned()
}

/// Compiles `node`: appends its instructions to `bc`, and adds the variables it assigns first
/// to `locals`.
fn compiler_expr(node: &Expr, src: &str, locals: &mut Vec<String>, bc: &mut Vec<OpCode>) -> (r:
    Result<(), CompileError>)
    requires
        spans_within(*node, src@.len()),
    ensures
        emitted_as(
            compile_expr(*node, src@, names_view(old(locals)@), old(bc)@.len()),
            r,
            ops_view(old(bc)@),
            ops_view(final(bc)@),
            names_view(final(locals)@),
        ),
    decreases node, 1nat,
{
    let ghost before = ops_view(bc@);
    match node {
        Expr::Prog { stmts, .. } => compile_all(stmts, src, locals, bc),
        Expr::Assign { .. } => compile_assign(node, src, locals, bc),
        Expr::Print { args, .. } => {
            match compiler_expr(args, src, locals, bc) {
                Ok(()) => {
                    proof {
                        lemma_ops_view_len(bc@);
                    }
                },
                Err(e) => return Err(e),
            }
            proof {
                lemma_ops_view_push(bc@, OpCode::Call(CallTarget::Print));
            }
            bc.push(OpCode::Call(CallTarget::Print));
            Ok(())
        },
        Expr::BinaryOp { .. } => compile_binary(node, src, locals, bc),
        Expr::Int { is_negative, val, .. } => {
            let v = match parse_i32(src.substring_char(val.start, val.end)) {
                Some(v) => v,
                None => return Err(CompileError::MalformedLiteral),
            };
            let n = if *is_negative {
                if v == i32::MIN {
                    return Err(CompileError::MalformedLiteral);
                }
                -v
            } else {
                v
            };
            proof {
                lemma_ops_view_push(bc@, OpCode::PushInt(n));
            }
            bc.push(OpCode::PushInt(n));
            assert(ops_view(bc@) =~= before + seq![OpCode::PushInt(n)@]);
            Ok(())
        },
        Expr::String(sp) => {
            let s = decode_string_literal(src.substring_char(sp.start, sp.end));
            proof {
                lemma_ops_view_push(bc@, OpCode::PushStr(s));
            }
            bc.push(OpCode::PushStr(s));
            assert(ops_view(bc@) =~= before + seq![OpCode::PushStr(s)@]);
            Ok(())
        },
        Expr::VarLookup(id) => {
            let name = span_text(src, *id);
            match find_slot(locals, &name) {
                Some(x) => {
                    proof {
                        lemma_ops_view_push(bc@, OpCode::LoadVar(x));
                    }
                    bc.push(OpCode::LoadVar(x));
                    assert(ops_view(bc@) =~= before + seq![OpCode::LoadVar(x)@]);
                    Ok(())
                },
                None => Err(CompileError::UndefinedVariable(name)),
            }
        },
        Expr::WhileLoop { .. } => compile_while(node, src, locals, bc),
        Expr::IfStatement { .. } => compile_if(node, src, locals, bc),
        Expr::FuncDef { .. } => compile_func_def(node, src, locals, bc),
        Expr::Call { name, params, .. } => {
            match compile_all(params, src, locals, bc) {
                Ok(()) => {
                    proof {
                        lemma_ops_view_len(bc@);
                    }
                },
                Err(e) => return Err(e),
            }
            let op = OpCode::Call(CallTarget::Func(span_text(src, *name), params.len()));
            proof {
                lemma_ops_view_push(bc@, op);
            }
            bc.push(op);
            Ok(())
        },
        Expr::Return { expr, .. } => {
            match compiler_expr(expr, src, locals, bc) {
                Ok(()) => {
                    proof {
                        lemma_ops_view_len(bc@);
                    }
                },
                Err(e) => return Err(e),
            }
            proof {
                lemma_ops_view_push(bc@, OpCode::Return);
            }
            bc.push(OpCode::Return);
            Ok(())
        },
    }
}

/// Compiles the assignment `node`.
fn compile_assign(node: &Expr, src: &str, locals: &mut Vec<String>, bc: &mut Vec<OpCode>) -> (r: Result<
    (),
    CompileError,
>)
    requires
        node is Assign,
        spans_within(*node, src@.len()),
    ensures
        emitted_as(
            compile_expr(*node, src@, names_view(old(locals)@), old(bc)@.len()),
            r,
            ops_view(old(bc)@),
            ops_view(final(bc)@),
            names_view(final(locals)@),
        ),
    decreases node, 0nat,
{
    match node {
        Expr::Assign { id, expr, .. } => {
                match compiler_expr(expr, src, locals, bc) {
                    Ok(()) => {
                        proof {
                            lemma_ops_view_len(bc@);
                        }
                    },
                    Err(e) => return Err(e),
                }
                let name = span_text(src, *id);
                match find_slot(locals, &name) {
                    Some(x) => {
                        proof {
                            lemma_ops_view_push(bc@, OpCode::StoreVar(x));
                        }
                        bc.push(OpCode::StoreVar(x));
                    },
                    None => {
                        proof {
                            lemma_names_view_push(locals@, name);
                        }
                        locals.push(name);
                        proof {
                            lemma_ops_view_push(bc@, OpCode::StoreVar((locals.len() - 1) as usize));
                        }
                        bc.push(OpCode::StoreVar(locals.len() - 1));
                    },
                }
                Ok(())
        },
        // `requires` rules out the other nodes
        _ => Ok(()),
    }
}

/// Compiles the binary operation `node`.
fn compile_binary(node: &Expr, src: &str, locals: &mut Vec<String>, bc: &mut Vec<OpCode>) -> (r: Result<
    (),
    CompileError,
>)
    requires
        node is BinaryOp,
        spans_within(*node, src@.len()),
    ensures
        emitted_as(
            compile_expr(*node, src@, names_view(old(locals)@), old(bc)@.len()),
            r,
            ops_view(old(bc)@),
            ops_view(final(bc)@),
            names_view(final(locals)@),
        ),
    decreases node, 0nat,
{
    let ghost src_v = src@;
    let ghost base = bc@.len();
    let ghost before = ops_view(bc@);
    let ghost l0 = names_view(locals@);
    match node {
        Expr::BinaryOp { op, lhs, rhs, .. } => {
                match compiler_expr(lhs, src, locals, bc) {
                    Ok(()) => {
                        proof {
                            lemma_ops_view_len(bc@);
                        }
                    },
                    Err(e) => return Err(e),
                }
                match compiler_expr(rhs, src, locals, bc) {
                    Ok(()) => {
                        proof {
                            lemma_ops_view_len(bc@);
                        }
                    },
                    Err(e) => return Err(e),
                }
                let op_text = src.substring_char(op.start, op.end);
                match operator_of(op_text) {
                    Some(o) => {
                        proof {
                            lemma_ops_view_push(bc@, o);
                        }
                        bc.push(o);
                        proof {
                            match compile_expr(**lhs, src_v, l0, base) {
                                Ok((c1, l1)) => match compile_expr(**rhs, src_v, l1, base + c1.len()) {
                                    Ok((c2, _)) => {
                                        assert(ops_view(bc@) =~= before + (c1 + c2).push(o@));
                                    },
                                    Err(_) => {},
                                },
                                Err(_) => {},
                            }
                        }
                        Ok(())
                    },
                    None => {
                        let e = CompileError::UnsupportedOperator(op_text.to_owned());
                        Err(e)
                    },
                }
        },
        // `requires` rules out the other nodes
        _ => Ok(()),
    }
}

/// Compiles the loop `node`.
fn compile_while(node: &Expr, src: &str, locals: &mut Vec<String>, bc: &mut Vec<OpCode>) -> (r: Result<
    (),
    CompileError,
>)
    requires
        node is WhileLoop,
        spans_within(*node, src@.len()),
    ensures
        emitted_as(
            compile_expr(*node, src@, names_view(old(locals)@), old(bc)@.len()),
            r,
            ops_view(old(bc)@),
            ops_view(final(bc)@),
            names_view(final(locals)@),
        ),
    decreases node, 0nat,
{
    let ghost src_v = src@;
    let ghost base = bc@.len();
    let ghost before = ops_view(bc@);
    let ghost l0 = names_view(locals@);
    match node {
        Expr::WhileLoop { condition, body, .. } => {
                let loop_entry = bc.len();
                match compiler_expr(condition, src, locals, bc) {
                    Ok(()) => {
                        proof {
                            lemma_ops_view_len(bc@);
                        }
                    },
                    Err(e) => return Err(e),
                }
                proof {
                    lemma_ops_view_push(bc@, OpCode::Patch);
                }
                bc.push(OpCode::Patch);
                let exit = bc.len() - 1;
                match compiler_expr(body, src, locals, bc) {
                    Ok(()) => {
                        proof {
                            lemma_ops_view_len(bc@);
                        }
                    },
                    Err(e) => return Err(e),
                }
                match compiler_expr(condition, src, locals, bc) {
                    Ok(()) => {
                        proof {
                            lemma_ops_view_len(bc@);
                        }
                    },
                    Err(e) => return Err(e),
                }
                proof {
                    lemma_ops_view_push(bc@, OpCode::Jump(loop_entry));
                }
                bc.push(OpCode::Jump(loop_entry));
                let end = bc.len();
                proof {
                    lemma_ops_view_update(bc@, exit as int, OpCode::JumpIfFalse(end));
                }
                bc.set(exit, OpCode::JumpIfFalse(end));
                proof {
                    match compile_expr(*node, src_v, l0, base) {
                        Ok((code, _)) => {
                            assert(ops_view(bc@) =~= before + code);
                        },
                        Err(_) => {},
                    }
                }
                Ok(())
        },
        // `requires` rules out the other nodes
        _ => Ok(()),
    }
}

/// Compiles the conditional `node`.
fn compile_if(node: &Expr, src: &str, locals: &mut Vec<String>, bc: &mut Vec<OpCode>) -> (r: Result<
    (),
    CompileError,
>)
    requires
        node is IfStatement,
        spans_within(*node, src@.len()),
    ensures
        emitted_as(
            compile_expr(*node, src@, names_view(old(locals)@), old(bc)@.len()),
            r,
            ops_view(old(bc)@),
            ops_view(final(bc)@),
            names_view(final(locals)@),
        ),
    decreases node, 0nat,
{
    let ghost src_v = src@;
    let ghost base = bc@.len();
    let ghost before = ops_view(bc@);
    let ghost l0 = names_view(locals@);
    match node {
        Expr::IfStatement { condition, body, .. } => {
                match compiler_expr(condition, src, locals, bc) {
                    Ok(()) => {
                        proof {
                            lemma_ops_view_len(bc@);
                        }
                    },
                    Err(e) => return Err(e),
                }
                proof {
                    lemma_ops_view_push(bc@, OpCode::Patch);
                }
                bc.push(OpCode::Patch);
                let exit = bc.len() - 1;
                match compiler_expr(body, src, locals, bc) {
                    Ok(()) => {
                        proof {
                            lemma_ops_view_len(bc@);
                        }
                    },
                    Err(e) => return Err(e),
                }
                let end = bc.len();
                proof {
                    lemma_ops_view_update(bc@, exit as int, OpCode::JumpIfFalse(end));
                }
                bc.set(exit, OpCode::JumpIfFalse(end));
                proof {
                    match compile_expr(*node, src_v, l0, base) {
                        Ok((code, _)) => {
                            assert(ops_view(bc@) =~= before + code);
                        },
                        Err(_) => {},
                    }
                }
                Ok(())
        },
        // `requires` rules out the other nodes
        _ => Ok(()),
    }
}

/// Compiles the function definition `node`.
fn compile_func_def(node: &Expr, src: &str, locals: &mut Vec<String>, bc: &mut Vec<OpCode>) -> (r: Result<
    (),
    CompileError,
>)
    requires
        node is FuncDef,
        spans_within(*node, src@.len()),
    ensures
        emitted_as(
            compile_expr(*node, src@, names_view(old(locals)@), old(bc)@.len()),
            r,
            ops_view(old(bc)@),
            ops_view(final(bc)@),
            names_view(final(locals)@),
        ),
    decreases node, 0nat,
{
    let ghost src_v = src@;
    let ghost before = ops_view(bc@);
    match node {
        Expr::FuncDef { name, args_list, body, .. } => {
                let mut new_locals: Vec<String> = Vec::new();
                let mut i: usize = 0;
                while i < args_list.len()
                    invariant
                        i <= args_list.len(),
                        src@ == src_v,
                        forall|k: int|
                            0 <= k < args_list@.len() ==> span_within(
                                #[trigger] args_list@[k],
                                src_v.len(),
                            ),
                        names_view(new_locals@) == param_names(
                            args_list@.subrange(0, i as int),
                            src_v,
                        ),
                    decreases args_list.len() - i,
                {
                    let a = span_text(src, args_list[i]);
                    proof {
                        lemma_names_view_push(new_locals@, a);
                        assert(param_names(args_list@.subrange(0, i + 1), src_v) =~= param_names(
                            args_list@.subrange(0, i as int),
                            src_v,
                        ).push(a@));
                    }
                    new_locals.push(a);
                    i = i + 1;
                }
                assert(args_list@.subrange(0, i as int) =~= args_list@);
                let ghost params = param_names(args_list@, src_v);
                assert(names_view(new_locals@) == params);
                let args = copy_names(&new_locals);
                let func_name = span_text(src, *name);
                let mut func_body: Vec<OpCode> = Vec::new();
                assert(ops_view(func_body@) =~= Seq::<Instr>::empty());
                match compiler_expr(body, src, &mut new_locals, &mut func_body) {
                    Ok(()) => {
                        proof {
                            lemma_ops_view_len(bc@);
                        }
                    },
                    Err(e) => return Err(e),
                }
                let op = OpCode::DefineFunc(func_name, args, func_body);
                proof {
                    lemma_ops_view_push(bc@, op);
                    match compile_expr(**body, src_v, params, 0) {
                        Ok((code, _)) => {
                            assert(ops_view(func_body@) =~= code);
                            assert(ops_view(bc@).push(op@) =~= before + seq![op@]);
                        },
                        Err(_) => {},
                    }
                }
                bc.push(op);
                Ok(())
        },
        // `requires` rules out the other nodes
        _ => Ok(()),
    }
}

/// Compiles `nodes` one after the other.
fn compile_all(nodes: &Vec<Expr>, src: &str, locals: &mut Vec<String>, bc: &mut Vec<OpCode>) -> (r:
    Result<(), CompileError>)
    requires
        all_spans_within(nodes@, src@.len()),
    ensures
        emitted_as(
            compile_seq(nodes@, src@, names_view(old(locals)@), old(bc)@.len()),
            r,
            ops_view(old(bc)@),
            ops_view(final(bc)@),
            names_view(final(locals)@),
        ),
    decreases nodes, 2nat,
{
    let ghost base = bc@.len();
    let ghost before = ops_view(bc@);
    let ghost l0 = names_view(locals@);
    let mut i: usize = 0;
    while i < nodes.len()
        invariant
            i <= nodes.len(),
            all_spans_within(nodes@, src@.len()),
            before.len() == base,
            before == ops_view(old(bc)@),
            base == old(bc)@.len(),
            l0 == names_view(old(locals)@),
            compile_seq(nodes@.subrange(0, i as int), src@, l0, base) matches Ok((code, names))
                && ops_view(bc@) == before + code && names_view(locals@) == names && bc@.len()
                == base + code.len(),
        decreases nodes.len() - i,
    {
        proof {
            broadcast use vstd::std_specs::vec::axiom_vec_index_decreases;
            lemma_all_spans_within(nodes@, src@.len(), i as int);
            assert(nodes@.subrange(0, i + 1).drop_last() =~= nodes@.subrange(0, i as int));
        }
        match compiler_expr(&nodes[i], src, locals, bc) {
            Ok(()) => {
                proof {
                    lemma_ops_view_len(bc@);
                }
            },
            Err(e) => {
                proof {
                    let pre = nodes@.subrange(0, i + 1);
                    assert(pre.last() == nodes@[i as int]);
                    assert(compile_seq(pre, src@, l0, base) is Err);
                    assert(compile_seq(pre, src@, l0, base) == Err::<Emitted, CompileFault>(e@));
                    lemma_compile_seq_failure_extends(nodes@, i + 1, src@, l0, base);
                    assert(compile_seq(nodes@, src@, l0, base) == Err::<Emitted, CompileFault>(e@));
                    assert(l0 == names_view(old(locals)@));
                }
                return Err(e);
            },
        }
        i = i + 1;
    }
    assert(nodes@.subrange(0, i as int) =~= nodes@);
    Ok(())
}

/// Where a prefix of `es` fails to compile, `es` fails with the same error.
proof fn lemma_compile_seq_failure_extends(
    es: Seq<Expr>,
    k: int,
    src: Seq<char>,
    locals: Seq<Seq<char>>,
    base: nat,
)
    requires
        0 <= k <= es.len(),
        compile_seq(es.subrange(0, k), src, locals, base) is Err,
    ensures
        compile_seq(es, src, locals, base) == compile_seq(es.subrange(0, k), src, locals, base),
    decreases es.len(),
{
    if k < es.len() {
        assert(es.drop_last().subrange(0, k) =~= es.subrange(0, k));
        lemma_compile_seq_failure_extends(es.drop_last(), k, src, locals, base);
    } else {
        assert(es.subrange(0, k) =~= es);
    }
}

proof fn lemma_all_spans_within(es: Seq<Expr>, n: nat, i: int)
    requires
        all_spans_within(es, n),
        0 <= i < es.len(),
    ensures
        spans_within(es[i], n),
    decreases es.len(),
{
    if i < es.len() - 1 {
        lemma_all_spans_within(es.drop_last(), n, i);
    }
}

/// Compiles a program: its top-level nodes in order, in one scope.
pub fn compiler(ast: Vec<Expr>, src: &str) -> (r: Result<Vec<OpCode>, CompileError>)
    requires
        all_spans_within(ast@, src@.len()),
    ensures
        compiled_as(compile_program(ast@, src@), r),
{
    let mut bc: Vec<OpCode> = Vec::new();
    if ast.len() == 0 {
        assert(ops_view(bc@) =~= Seq::<Instr>::empty());
        return Ok(bc);
    }
    let mut locals: Vec<String> = Vec::new();
    assert(names_view(locals@) =~= Seq::<Seq<char>>::empty());
    assert(ops_view(bc@) =~= Seq::<Instr>::empty());
    match compile_all(&ast, src, &mut locals, &mut bc) {
        Ok(()) => {
            assert(ops_view(bc@) =~= Seq::<Instr>::empty() + ops_view(bc@));
            Ok(bc)
        },
        Err(e) => Err(e),
    }
}

/// Compiling depends on the tree and the source text alone: two compilations of one program
/// give the same instructions, or the same error.
pub proof fn lemma_compile_deterministic(
    ast: Seq<Expr>,
    src: Seq<char>,
    first: Result<Vec<OpCode>, CompileError>,
    second: Result<Vec<OpCode>, CompileError>,
)
    requires
        compiled_as(compile_program(ast, src), first),
        compiled_as(compile_program(ast, src), second),
    ensures
        first is Ok <==> second is Ok,
        first is Ok ==> ops_view(first->Ok_0@) == ops_view(second->Ok_0@),
        first is Err ==> first->Err_0@ == second->Err_0@,
{
}

/// An assignment to a variable that is already in scope stores to the variable's slot and adds
/// no slot: it rebinds the variable rather than shadowing it.
pub proof fn lemma_assignment_rebinds(
    span: Span,
    id: Span,
    expr: Box<Expr>,
    src: Seq<char>,
    locals: Seq<Seq<char>>,
    base: nat,
)
    requires
        compile_expr(*expr, src, locals, base) is Ok,
        slot_of(compile_expr(*expr, src, locals, base)->Ok_0.1, text(src, id)) is Some,
    ensures
        ({
            let (code, names) = compile_expr(*expr, src, locals, base)->Ok_0;
            let slot = slot_of(names, text(src, id))->Some_0;
            compile_expr(Expr::Assign { span, id, expr }, src, locals, base) == Ok::<
                Emitted,
                CompileFault,
            >((code.push(Instr::StoreVar(slot)), names))
        }),
{
}

} // verus!
