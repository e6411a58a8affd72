use vstd::prelude::*;
use crate::ast::{Expression, FunctionDeclaration, Literal, Statement};
use crate::bytecode::{find_name, FnModel, Opcode, PushOperand};
use crate::codegen::{emit, gen_block, gen_expr, gen_stmt, lemma_block_extends, param_locals, return_op, GenState, Local};
use crate::frame::FrameModel;
use crate::object::{Object, PoolEntry, Type};
use crate::stdlib::NativeFn;
use crate::vm::{exec_op, vm_step, StepModel, VmError};

verus! {

/// An integer literal is emitted as one immediate `Push`, and executing that instruction
/// leaves exactly that integer on top of the operand stack.
pub proof fn lemma_integer_literal_round_trip(n: i32, st: GenState, f: FrameModel, pool: Seq<PoolEntry>)
    ensures
        gen_expr(Expression::Literal(Literal::Int(n)), st) == Ok::<GenState, crate::codegen::GenError>(
            emit(st, Opcode::Push(PushOperand::Integer(n))),
        ),
        exec_op(Opcode::Push(PushOperand::Integer(n)), f, pool) == Ok::<FrameModel, VmError>(
            FrameModel { stack: f.stack.push(Object::Integer(n)), ..f },
        ),
{
}

/// Every string literal appends its own pool entry, with no sharing: two literals in a row
/// add two entries and load them from two consecutive indices.
pub proof fn lemma_string_literals_not_shared(b: Vec<Statement>, s: String, t: String, st: GenState)
    requires
        b@.len() == 2,
        b@[0] == Statement::Expression(Expression::Literal(Literal::String(s))),
        b@[1] == Statement::Expression(Expression::Literal(Literal::String(t))),
        st.pool.len() + 2 <= usize::MAX,
    ensures
        gen_block(b, 0, st) matches Ok(s2) && s2.pool == st.pool.push(PoolEntry::Object(Object::String(s))).push(
            PoolEntry::Object(Object::String(t)),
        ) && s2.code == st.code.push(Opcode::Ldc(st.pool.len() as usize)).push(
            Opcode::Ldc((st.pool.len() + 1) as usize),
        ) && st.pool.len() as usize != (st.pool.len() + 1) as usize,
{
    let s1 = GenState {
        pool: st.pool.push(PoolEntry::Object(Object::String(s))),
        code: st.code.push(Opcode::Ldc(st.pool.len() as usize)),
        ..st
    };
    assert(gen_stmt(b[0], st) == Ok::<GenState, crate::codegen::GenError>(s1));
    let s2 = GenState {
        pool: s1.pool.push(PoolEntry::Object(Object::String(t))),
        code: s1.code.push(Opcode::Ldc(s1.pool.len() as usize)),
        ..s1
    };
    assert(gen_stmt(b[1], s1) == Ok::<GenState, crate::codegen::GenError>(s2));
    assert(gen_block(b, 2, s2) == Ok::<GenState, crate::codegen::GenError>(s2));
    assert(gen_block(b, 1, s1) == Ok::<GenState, crate::codegen::GenError>(s2));
}

/// An `if` without `else` starts with `JumpIfFalse` to just past its consequence. On a false
/// condition execution resumes there; on a true one it falls into the consequence's first instruction.
pub proof fn lemma_if_without_else(c: Vec<Statement>, st: GenState, f: FrameModel, pool: Seq<PoolEntry>)
    ensures
        gen_stmt(Statement::If(c, None), st) matches Ok(s1) ==> {
            let head = st.code.len() as int;
            let split = s1.code.len() as int;
            &&& head < split
            &&& s1.code.subrange(0, head) == st.code
            &&& s1.code[head] == Opcode::JumpIfFalse(split as usize)
            &&& (split <= usize::MAX && f.stack.len() > 0 && f.stack.last() == Object::Boolean(false)) ==> exec_op(
                s1.code[head],
                f,
                pool,
            ) == Ok::<FrameModel, VmError>(FrameModel { pc: split, stack: f.stack.drop_last(), ..f })
            &&& (f.stack.len() > 0 && f.stack.last() == Object::Boolean(true)) ==> exec_op(s1.code[head], f, pool)
                == Ok::<FrameModel, VmError>(FrameModel { stack: f.stack.drop_last(), ..f })
        },
{
    let s0 = emit(st, Opcode::Nop);
    lemma_block_extends(c, 0, s0);
    if let Ok(sc) = gen_block(c, 0, s0) {
        assert(s0.code.subrange(0, st.code.len() as int) =~= st.code);
        let s1c = sc.code.update(st.code.len() as int, Opcode::JumpIfFalse(sc.code.len() as usize));
        assert(s1c.subrange(0, st.code.len() as int) =~= sc.code.subrange(0, s0.code.len() as int).subrange(
            0,
            st.code.len() as int,
        ));
    }
}

/// An `if` with `else`: `JumpIfFalse` at its start lands on the alternative's first instruction,
/// one past the `Jump` that closes the consequence; that `Jump` lands just past the alternative.
pub proof fn lemma_if_with_else(
    c: Vec<Statement>,
    a: Vec<Statement>,
    st: GenState,
    f: FrameModel,
    pool: Seq<PoolEntry>,
)
    ensures
        gen_stmt(Statement::If(c, Some(a)), st) matches Ok(s2) ==> gen_block(c, 0, emit(st, Opcode::Nop)) matches Ok(
            sc,
        ) && {
            let head = st.code.len() as int;
            let split = sc.code.len() as int;
            let tail = s2.code.len() as int;
            &&& head < split < tail
            &&& s2.code[head] == Opcode::JumpIfFalse((split + 1) as usize)
            &&& s2.code[split] == Opcode::Jump(tail as usize)
            &&& (tail <= usize::MAX && f.stack.len() > 0 && f.stack.last() == Object::Boolean(false)) ==> exec_op(
                s2.code[head],
                f,
                pool,
            ) == Ok::<FrameModel, VmError>(FrameModel { pc: split + 1, stack: f.stack.drop_last(), ..f })
            &&& (f.stack.len() > 0 && f.stack.last() == Object::Boolean(true)) ==> exec_op(s2.code[head], f, pool)
                == Ok::<FrameModel, VmError>(FrameModel { stack: f.stack.drop_last(), ..f })
            &&& tail <= usize::MAX ==> exec_op(s2.code[split], f, pool) == Ok::<FrameModel, VmError>(
                FrameModel { pc: tail, ..f },
            )
        },
{
    let s0 = emit(st, Opcode::Nop);
    lemma_block_extends(c, 0, s0);
    if let Ok(sc) = gen_block(c, 0, s0) {
        let sn = emit(sc, Opcode::Nop);
        lemma_block_extends(a, 0, sn);
    }
}

/// Slots of variables declared after the parameters are numbered on from the arity, one each,
/// in declaration order; declaring emits no instruction.
pub proof fn lemma_variable_slots(b: Vec<Statement>, i: int, st: GenState)
    requires
        0 <= i <= b@.len(),
        st.locals.len() + b@.len() - i <= usize::MAX,
        forall|k: int| i <= k < b@.len() ==> (#[trigger] b@[k]) is VariableDeclaration,
    ensures
        gen_block(b, i, st) matches Ok(s1) && s1.code == st.code && s1.locals.len() == st.locals.len() + b@.len()
            - i && s1.locals.subrange(0, st.locals.len() as int) == st.locals && forall|k: int|
            i <= k < b@.len() ==> #[trigger] s1.locals[st.locals.len() + k - i] == (Local {
                name: b@[k]->VariableDeclaration_0.name,
                index: (st.locals.len() + k - i) as usize,
                type_: b@[k]->VariableDeclaration_0.type_,
            }),
    decreases b@.len() - i,
{
    if i < b@.len() {
        let v = b@[i]->VariableDeclaration_0;
        let s1 = GenState {
            locals: st.locals.push(Local { name: v.name, index: st.locals.len() as usize, type_: v.type_ }),
            ..st
        };
        assert(gen_stmt(b[i], st) == Ok::<GenState, crate::codegen::GenError>(s1));
        lemma_variable_slots(b, i + 1, s1);
        let s2 = gen_block(b, i + 1, s1)->Ok_0;
        assert(s2.locals.subrange(0, st.locals.len() as int) =~= s2.locals.subrange(0, s1.locals.len() as int).subrange(
            0,
            st.locals.len() as int,
        ));
        assert(st.locals.push(s1.locals.last()).subrange(0, st.locals.len() as int) =~= st.locals);
        assert forall|k: int| i <= k < b@.len() implies #[trigger] s2.locals[st.locals.len() + k - i] == (Local {
            name: b@[k]->VariableDeclaration_0.name,
            index: (st.locals.len() + k - i) as usize,
            type_: b@[k]->VariableDeclaration_0.type_,
        }) by {
            if k == i {
                assert(s2.locals[st.locals.len() as int] == s2.locals.subrange(0, s1.locals.len() as int)[st.locals.len() as int]);
            } else {
                assert(s1.locals.len() + k - (i + 1) == st.locals.len() + k - i);
            }
        }
    } else {
        assert(st.locals.subrange(0, st.locals.len() as int) =~= st.locals);
    }
}

/// The parameters of a function take slots 0 to arity - 1 in order.
pub proof fn lemma_parameter_slots(d: FunctionDeclaration)
    ensures
        param_locals(d.params@).len() == d.params@.len(),
        forall|k: int| 0 <= k < d.params@.len() ==> (#[trigger] param_locals(d.params@)[k]).index == k as usize,
{
}

/// A compiled function ends with `Return` when its declared return type is void, with `ReturnTop` otherwise.
pub proof fn lemma_function_ends_with_return(d: FunctionDeclaration, st: GenState)
    ensures
        gen_stmt(Statement::FunctionDeclaration(d), st) matches Ok(s1) ==> s1.fns.contains_key(d.name@) && s1.fns[d.name@].code.len()
            > 0 && s1.fns[d.name@].code.last() == return_op(d.return_type) && (d.return_type == Type::Void
            <==> s1.fns[d.name@].code.last() == Opcode::Return) && (d.return_type != Type::Void
            <==> s1.fns[d.name@].code.last() == Opcode::ReturnTop),
{
}

/// Invoking a name that is neither a user function nor a native one is a fatal error.
pub proof fn lemma_undefined_function_is_fatal(
    fns: Map<Seq<char>, FnModel>,
    natives: Seq<(String, NativeFn)>,
    pool: Seq<PoolEntry>,
    frames: Seq<FrameModel>,
    name: String,
)
    requires
        frames.len() > 0,
        0 <= frames.last().pc < frames.last().code.len(),
        frames.last().code[frames.last().pc] == Opcode::Invoke(name),
        !fns.contains_key(name@),
        find_name(natives, name@) is None,
    ensures
        vm_step(fns, natives, pool, frames) == Err::<(Seq<FrameModel>, StepModel), VmError>(VmError::UndefinedFunction),
{
}

/// Loading or storing a local slot at or past the frame's slot count is a fatal error, never a default value.
pub proof fn lemma_local_out_of_range_is_fatal(i: usize, f: FrameModel, pool: Seq<PoolEntry>)
    requires
        i >= f.locals.len(),
    ensures
        exec_op(Opcode::LLoad(i), f, pool) == Err::<FrameModel, VmError>(VmError::LocalOutOfRange),
        f.stack.len() > 0 ==> exec_op(Opcode::LStore(i), f, pool) == Err::<FrameModel, VmError>(
            VmError::LocalOutOfRange,
        ),
{
}

} // verus!
