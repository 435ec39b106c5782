use ukiyo::bytecode::{CallTarget, OpCode};
use ukiyo::value::{Function, Types};
use ukiyo::vm::{Bytecode, RuntimeError, VM};

fn machine(ops: Vec<OpCode>) -> VM {
    VM::new(Bytecode { bytecode: ops })
}

#[test]
fn empty_program_fails() {
    assert_eq!(machine(vec![]).run(), Err(RuntimeError::EmptyProgram));
}

#[test]
fn binary_operation_on_empty_stack_underflows() {
    assert_eq!(machine(vec![OpCode::Plus]).run(), Err(RuntimeError::StackUnderflow));
    assert_eq!(machine(vec![OpCode::PushInt(1), OpCode::Lt]).run(), Err(RuntimeError::StackUnderflow));
}

#[test]
fn store_without_value_underflows() {
    let ops = vec![OpCode::PushInt(1), OpCode::StoreVar(0), OpCode::StoreVar(1)];
    assert_eq!(machine(ops).run(), Err(RuntimeError::StackUnderflow));
}

#[test]
fn branch_and_print_without_value_underflow() {
    assert_eq!(machine(vec![OpCode::JumpIfFalse(0)]).run(), Err(RuntimeError::StackUnderflow));
    assert_eq!(machine(vec![OpCode::Call(CallTarget::Print)]).run(), Err(RuntimeError::StackUnderflow));
}

#[test]
fn call_with_too_few_values_underflows() {
    let body = vec![OpCode::LoadVar(0), OpCode::Return];
    let ops = vec![
        OpCode::DefineFunc("id".to_string(), vec!["x".to_string()], body),
        OpCode::Call(CallTarget::Func("id".to_string(), 1)),
    ];
    assert_eq!(machine(ops).run(), Err(RuntimeError::StackUnderflow));
}

#[test]
fn load_past_frame_fails() {
    assert_eq!(machine(vec![OpCode::LoadVar(3)]).run(), Err(RuntimeError::UndefinedSlot));
}

#[test]
fn calling_a_number_fails() {
    let ops = vec![OpCode::PushInt(1), OpCode::StoreVar(0), OpCode::Call(CallTarget::Var(0, 0))];
    assert_eq!(machine(ops).run(), Err(RuntimeError::NotCallable));
}

#[test]
fn placeholder_fails() {
    assert_eq!(machine(vec![OpCode::PushInt(1), OpCode::Patch]).run(), Err(RuntimeError::UnpatchedJump));
}

#[test]
fn branch_on_integer_fails() {
    assert_eq!(machine(vec![OpCode::PushInt(0), OpCode::JumpIfFalse(0)]).run(), Err(RuntimeError::TypeMismatch));
}

#[test]
fn printing_a_function_fails() {
    let ops = vec![OpCode::InlineFunc(vec![], vec![]), OpCode::Call(CallTarget::Print)];
    assert_eq!(machine(ops).run(), Err(RuntimeError::TypeMismatch));
}

#[test]
fn subtraction_overflow_fails() {
    let ops = vec![OpCode::PushInt(-2147483647), OpCode::PushInt(2), OpCode::Minus];
    assert_eq!(machine(ops).run(), Err(RuntimeError::IntegerOverflow));
}

#[test]
fn step_budget_runs_out() {
    let mut vm = machine(vec![OpCode::Jump(0)]);
    vm.fuel = 10;
    assert_eq!(vm.run(), Err(RuntimeError::OutOfFuel));
    assert_eq!(vm.fuel, 0);
}

#[test]
fn each_instruction_takes_one_step() {
    let mut vm = machine(vec![OpCode::PushInt(1), OpCode::PushInt(2), OpCode::Plus]);
    vm.fuel = 3;
    assert_eq!(vm.run(), Ok(vec![Types::Int(3)]));
    assert_eq!(vm.fuel, 0);
}

#[test]
fn anonymous_function_called_from_slot() {
    let ops = vec![
        OpCode::InlineFunc(vec!["x".to_string()], vec![OpCode::LoadVar(0), OpCode::PushInt(1), OpCode::Plus]),
        OpCode::StoreVar(0),
        OpCode::PushInt(9),
        OpCode::Call(CallTarget::Var(0, 1)),
    ];
    assert_eq!(machine(ops).run(), Ok(vec![Types::Int(10)]));
}

#[test]
fn callee_stack_is_pushed_whole() {
    let body = vec![OpCode::PushInt(1), OpCode::PushInt(2)];
    let ops = vec![
        OpCode::DefineFunc("two".to_string(), vec![], body),
        OpCode::PushInt(0),
        OpCode::Call(CallTarget::Func("two".to_string(), 0)),
    ];
    assert_eq!(machine(ops).run(), Ok(vec![Types::Int(0), Types::Int(1), Types::Int(2)]));
}

#[test]
fn empty_function_body_contributes_nothing() {
    let ops = vec![
        OpCode::DefineFunc("nothing".to_string(), vec![], vec![]),
        OpCode::PushInt(5),
        OpCode::Call(CallTarget::Func("nothing".to_string(), 0)),
    ];
    assert_eq!(machine(ops).run(), Ok(vec![Types::Int(5)]));
}

#[test]
fn return_ends_the_program() {
    let ops = vec![OpCode::PushInt(1), OpCode::Return, OpCode::PushInt(2)];
    assert_eq!(machine(ops).run(), Ok(vec![Types::Int(1)]));
}

#[test]
fn store_past_frame_appends() {
    let ops = vec![OpCode::PushInt(7), OpCode::StoreVar(5), OpCode::LoadVar(0)];
    assert_eq!(machine(ops).run(), Ok(vec![Types::Int(7)]));
}

#[test]
fn print_renders_each_kind() {
    let ops = vec![
        OpCode::PushInt(-12),
        OpCode::Call(CallTarget::Print),
        OpCode::PushInt(1),
        OpCode::PushInt(1),
        OpCode::Eqeq,
        OpCode::Call(CallTarget::Print),
        OpCode::PushStr("text".to_string()),
        OpCode::Call(CallTarget::Print),
    ];
    let mut vm = machine(ops);
    let result = vm.run();
    assert_eq!(vm.output, vec!["-12".to_string(), "true".to_string(), "text".to_string()]);
    assert_eq!(result, Ok(vec![Types::Int(-12), Types::Bool(true), Types::String("text".to_string())]));
}

#[test]
fn pretty_texts() {
    assert_eq!(Types::Int(-2147483648).pretty(), Some("-2147483648".to_string()));
    assert_eq!(Types::Int(0).pretty(), Some("0".to_string()));
    assert_eq!(Types::Bool(false).pretty(), Some("false".to_string()));
    assert_eq!(Types::NoneType.pretty(), Some("None".to_string()));
    let f = Function::new("f".to_string(), vec![], vec![], vec![]);
    assert_eq!(Types::Function(f).pretty(), None);
}

#[test]
fn new_function_is_named() {
    let f = Function::new("f".to_string(), vec![Types::Int(1)], vec!["a".to_string()], vec![OpCode::Return]);
    assert_eq!(f.name, Some("f".to_string()));
    assert_eq!(f.args, vec!["a".to_string()]);
    assert_eq!(f.prog, vec![OpCode::Return]);
}

#[test]
fn functions_persist_across_runs() {
    let mut vm = machine(vec![OpCode::DefineFunc("k".to_string(), vec![], vec![OpCode::PushInt(4)])]);
    assert_eq!(vm.run(), Ok(vec![]));
    vm.bytecode = Bytecode { bytecode: vec![OpCode::Call(CallTarget::Func("k".to_string(), 0))] };
    assert_eq!(vm.run(), Ok(vec![Types::Int(4)]));
}
