use buglang::bytecode::{ByteCodeStream, DefinedFn, FnTable, Opcode, Program, PushOperand};
use buglang::frame::{Frame, Locals};
use buglang::object::{Object, Pool, PoolEntry, Type};
use buglang::stack::Stack;
use buglang::stdlib::list_native_fns;
use buglang::syntax::Infix;
use buglang::vm::{Step, Vm, VmError};

fn program_with(fns: Vec<(&str, usize, usize, Vec<Opcode>)>, pool: Vec<PoolEntry>) -> Program {
    let mut table = FnTable::make();
    for (name, arity, max_locals, code) in fns {
        table.insert(name.to_string(), DefinedFn { arity, code: ByteCodeStream { code }, max_locals });
    }
    Program { pool: Pool { entries: pool }, fns: table }
}

fn top_stack(vm: &Vm) -> Vec<Object> {
    vm.frames.inner.last().unwrap().opstack.inner.clone()
}

#[test]
fn push_integer_leaves_it_on_the_stack() {
    for n in [0, 1, -1, i32::MAX, i32::MIN] {
        let program = program_with(vec![("main", 0, 0, vec![Opcode::Push(PushOperand::Integer(n)), Opcode::Return])], vec![]);
        let mut vm = Vm::make(program, list_native_fns(), "main").unwrap();
        assert!(matches!(vm.step(), Ok(Step::Continue)));
        assert_eq!(top_stack(&vm), vec![Object::Integer(n)]);
        assert!(matches!(vm.step(), Ok(Step::Halted)));
    }
}

#[test]
fn sum_compared_with_ten_is_true() {
    let code = vec![
        Opcode::Push(PushOperand::Integer(7)),
        Opcode::LStore(0),
        Opcode::Push(PushOperand::Integer(5)),
        Opcode::LStore(1),
        Opcode::LLoad(0),
        Opcode::LLoad(1),
        Opcode::IAdd,
        Opcode::Push(PushOperand::Integer(10)),
        Opcode::ICmpGT,
        Opcode::Return,
    ];
    let program = program_with(vec![("main", 0, 2, code)], vec![]);
    let mut vm = Vm::make(program, list_native_fns(), "main").unwrap();
    for _ in 0..9 {
        assert!(matches!(vm.step(), Ok(Step::Continue)));
    }
    assert_eq!(top_stack(&vm), vec![Object::Boolean(true)]);
}

#[test]
fn integer_addition_wraps() {
    let code = vec![
        Opcode::Push(PushOperand::Integer(i32::MAX)),
        Opcode::Push(PushOperand::Integer(1)),
        Opcode::IAdd,
        Opcode::Return,
    ];
    let program = program_with(vec![("main", 0, 0, code)], vec![]);
    let mut vm = Vm::make(program, list_native_fns(), "main").unwrap();
    for _ in 0..3 {
        assert!(matches!(vm.step(), Ok(Step::Continue)));
    }
    assert_eq!(top_stack(&vm), vec![Object::Integer(i32::MIN)]);
}

#[test]
fn undefined_function_is_fatal() {
    let program = program_with(vec![("main", 0, 0, vec![Opcode::Invoke("nowhere".to_string()), Opcode::Return])], vec![]);
    let mut vm = Vm::make(program, list_native_fns(), "main").unwrap();
    assert_eq!(vm.step().err(), Some(VmError::UndefinedFunction));
}

#[test]
fn undefined_entry_is_fatal() {
    let program = program_with(vec![], vec![]);
    assert_eq!(Vm::make(program, list_native_fns(), "main").err(), Some(VmError::UndefinedFunction));
}

#[test]
fn local_out_of_range_is_fatal() {
    let program = program_with(vec![("main", 0, 1, vec![Opcode::LLoad(1), Opcode::Return])], vec![]);
    let mut vm = Vm::make(program, list_native_fns(), "main").unwrap();
    assert_eq!(vm.step().err(), Some(VmError::LocalOutOfRange));
    let code = vec![Opcode::Push(PushOperand::Integer(1)), Opcode::LStore(0), Opcode::Return];
    let program = program_with(vec![("main", 0, 0, code)], vec![]);
    let mut vm = Vm::make(program, list_native_fns(), "main").unwrap();
    assert!(matches!(vm.step(), Ok(Step::Continue)));
    assert_eq!(vm.step().err(), Some(VmError::LocalOutOfRange));
}

#[test]
fn locals_start_with_default_values() {
    let mut locals = Locals::make(2);
    assert_eq!(locals.len(), 2);
    assert_eq!(locals.get_by_index(1), Object::Integer(0));
    locals.store_at(0, Object::Boolean(true));
    assert_eq!(locals.get_by_index(0), Object::Boolean(true));
    assert_eq!(locals.get_by_index(1), Object::Integer(0));
}

#[test]
fn stray_nop_is_fatal() {
    let program = program_with(vec![("main", 0, 0, vec![Opcode::Nop])], vec![]);
    let mut vm = Vm::make(program, list_native_fns(), "main").unwrap();
    assert_eq!(vm.step().err(), Some(VmError::StrayNop));
}

#[test]
fn native_write_is_handed_to_the_host() {
    let code = vec![Opcode::Ldc(0), Opcode::Invoke("write".to_string()), Opcode::Return];
    let pool = vec![PoolEntry::Object(Object::String("Hello, world!".to_string()))];
    let program = program_with(vec![("main", 0, 0, code)], pool);
    let mut vm = Vm::make(program, list_native_fns(), "main").unwrap();
    assert!(matches!(vm.step(), Ok(Step::Continue)));
    match vm.step() {
        Ok(Step::NativeCall(name, args)) => {
            assert_eq!(name, "write");
            assert_eq!(args, vec![Object::String("Hello, world!".to_string())]);
        }
        other => panic!("unexpected step {:?}", other),
    }
    vm.push_native_result(None);
    assert_eq!(top_stack(&vm), vec![]);
    assert!(matches!(vm.step(), Ok(Step::Halted)));
}

#[test]
fn user_call_binds_arguments_and_returns_top() {
    let main = vec![
        Opcode::Push(PushOperand::Integer(3)),
        Opcode::Push(PushOperand::Integer(4)),
        Opcode::Invoke("add".to_string()),
        Opcode::Return,
    ];
    let add = vec![Opcode::LLoad(0), Opcode::LLoad(1), Opcode::IAdd, Opcode::ReturnTop];
    let program = program_with(vec![("main", 0, 0, main), ("add", 2, 3, add)], vec![]);
    let mut vm = Vm::make(program, list_native_fns(), "main").unwrap();
    for _ in 0..3 {
        assert!(matches!(vm.step(), Ok(Step::Continue)));
    }
    assert_eq!(vm.frames.inner.len(), 2);
    let callee = vm.frames.inner.last().unwrap();
    assert_eq!(callee.locals.inner, vec![Object::Integer(3), Object::Integer(4), Object::Integer(0)]);
    assert_eq!(vm.frames.inner[0].opstack.inner, vec![]);
    for _ in 0..4 {
        assert!(matches!(vm.step(), Ok(Step::Continue)));
    }
    assert_eq!(vm.frames.inner.len(), 1);
    assert_eq!(top_stack(&vm), vec![Object::Integer(7)]);
    assert!(matches!(vm.step(), Ok(Step::Halted)));
}

#[test]
fn jump_if_false_branches() {
    let code = vec![
        Opcode::Push(PushOperand::Boolean(false)),
        Opcode::JumpIfFalse(3),
        Opcode::Push(PushOperand::Integer(1)),
        Opcode::Push(PushOperand::Integer(2)),
        Opcode::Return,
    ];
    let program = program_with(vec![("main", 0, 0, code)], vec![]);
    let mut vm = Vm::make(program, list_native_fns(), "main").unwrap();
    assert!(matches!(vm.step(), Ok(Step::Continue)));
    assert!(matches!(vm.step(), Ok(Step::Continue)));
    assert_eq!(vm.frames.inner[0].pc, 3);
    assert!(matches!(vm.step(), Ok(Step::Continue)));
    assert_eq!(top_stack(&vm), vec![Object::Integer(2)]);
}

#[test]
fn frame_fetch_and_stack() {
    let mut frame = Frame::make(ByteCodeStream { code: vec![Opcode::IAdd] }, 1);
    assert_eq!(frame.fetch_next_instr(), Some(Opcode::IAdd));
    assert_eq!(frame.fetch_next_instr(), None);
    assert_eq!(frame.stack_pop(), None);
    frame.stack_push(Object::Integer(9));
    assert_eq!(frame.stack_pop(), Some(Object::Integer(9)));
}

#[test]
fn stack_is_last_in_first_out() {
    let mut s: Stack<i32> = Stack::make();
    assert!(s.is_empty());
    s.push(1);
    s.push(2);
    assert!(!s.is_empty());
    assert_eq!(s.pop(), Some(2));
    assert_eq!(s.pop(), Some(1));
    assert_eq!(s.pop(), None);
}

#[test]
fn native_registry_has_write() {
    let natives = list_native_fns();
    assert_eq!(natives.len(), 1);
    assert_eq!(natives[0].0, "write");
    assert_eq!(natives[0].1.prototype.arity, 1);
    assert_eq!(natives[0].1.prototype.return_type, Type::Void);
}

#[test]
fn infix_symbol() {
    assert_eq!(Infix::Plus.symbol(), "+");
}

#[test]
fn locals_slot_updated_in_place() {
    let mut locals = Locals::make(1);
    *locals.get_as_ref(0) = Object::String("x".to_string());
    assert_eq!(locals.get_by_index(0), Object::String("x".to_string()));
}
