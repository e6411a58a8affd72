use vstd::prelude::*;
use crate::bytecode::{find_name, lemma_find_name, FnModel, Opcode, Program, PushOperand};
use crate::frame::{default_object, Frame, FrameModel};
use crate::object::{Object, PoolEntry};
use crate::stack::Stack;
use crate::stdlib::NativeFn;

verus! {

/// A runtime invariant violation. Each one means the code was malformed; execution cannot go on.
#[derive(Debug, Clone, Copy, PartialEq, Eq, Structural)]
pub enum VmError {
    UndefinedFunction,
    LocalOutOfRange,
    StrayNop,
    StackUnderflow,
    TypeMismatch,
    PoolIndexOutOfRange,
    PcOutOfRange,
}

/// What one step of the machine asks of its host.
#[derive(Debug)]
pub enum Step {
    /// Go on stepping.
    Continue,
    /// The outermost frame has returned.
    Halted,
    /// Run the named native function on these arguments (in push order), then hand back its result.
    NativeCall(String, Vec<Object>),
}

/// The model of a step's outcome.
pub enum StepModel {
    Continue,
    Halted,
    NativeCall(Seq<char>, Seq<Object>),
}

pub open spec fn step_matches(r: Step, m: StepModel) -> bool {
    match m {
        StepModel::Continue => r is Continue,
        StepModel::Halted => r is Halted,
        StepModel::NativeCall(name, args) => r matches Step::NativeCall(n, a) && n@ == name && a@ == args,
    }
}

pub open spec fn push_value(f: FrameModel, o: Object) -> FrameModel {
    FrameModel { stack: f.stack.push(o), ..f }
}

/// The effect of an instruction that stays within its frame; `f` has its counter already advanced.
pub open spec fn exec_op(op: Opcode, f: FrameModel, pool: Seq<PoolEntry>) -> Result<FrameModel, VmError> {
    let n = f.stack.len();
    match op {
        Opcode::Nop => Err(VmError::StrayNop),
        Opcode::Push(PushOperand::Integer(x)) => Ok(push_value(f, Object::Integer(x))),
        Opcode::Push(PushOperand::Boolean(b)) => Ok(push_value(f, Object::Boolean(b))),
        Opcode::Ldc(i) => if i < pool.len() {
            match pool[i as int] {
                PoolEntry::Object(o) => Ok(push_value(f, o)),
            }
        } else {
            Err(VmError::PoolIndexOutOfRange)
        },
        Opcode::LLoad(i) => if i < f.locals.len() {
            Ok(push_value(f, f.locals[i as int]))
        } else {
            Err(VmError::LocalOutOfRange)
        },
        Opcode::LStore(i) => if n == 0 {
            Err(VmError::StackUnderflow)
        } else if i >= f.locals.len() {
            Err(VmError::LocalOutOfRange)
        } else {
            Ok(FrameModel { locals: f.locals.update(i as int, f.stack.last()), stack: f.stack.drop_last(), ..f })
        },
        Opcode::IAdd => if n < 2 {
            Err(VmError::StackUnderflow)
        } else {
            match (f.stack[n - 2], f.stack[n - 1]) {
                (Object::Integer(a), Object::Integer(b)) => Ok(
                    FrameModel {
                        stack: f.stack.drop_last().drop_last().push(Object::Integer(a.wrapping_add(b))),
                        ..f
                    },
                ),
                _ => Err(VmError::TypeMismatch),
            }
        },
        Opcode::ICmpGT => if n < 2 {
            Err(VmError::StackUnderflow)
        } else {
            match (f.stack[n - 2], f.stack[n - 1]) {
                (Object::Integer(a), Object::Integer(b)) => Ok(
                    FrameModel { stack: f.stack.drop_last().drop_last().push(Object::Boolean(a > b)), ..f },
                ),
                _ => Err(VmError::TypeMismatch),
            }
        },
        Opcode::Jump(t) => Ok(FrameModel { pc: t as int, ..f }),
        Opcode::JumpIfFalse(t) => if n == 0 {
            Err(VmError::StackUnderflow)
        } else {
            match f.stack.last() {
                Object::Boolean(false) => Ok(FrameModel { pc: t as int, stack: f.stack.drop_last(), ..f }),
                Object::Boolean(true) => Ok(FrameModel { stack: f.stack.drop_last(), ..f }),
                _ => Err(VmError::TypeMismatch),
            }
        },
        _ => Ok(f),
    }
}

/// The local slots of a new activation: the arguments first, then default values.
pub open spec fn call_locals(args: Seq<Object>, max_locals: nat) -> Seq<Object> {
    Seq::new(max_locals, |i: int| if i < args.len() { args[i] } else { default_object() })
}

/// One step of the machine over frame stack `frames`, from the top frame's current instruction.
pub open spec fn vm_step(
    fns: Map<Seq<char>, FnModel>,
    natives: Seq<(String, NativeFn)>,
    pool: Seq<PoolEntry>,
    frames: Seq<FrameModel>,
) -> Result<(Seq<FrameModel>, StepModel), VmError> {
    if frames.len() == 0 {
        Ok((frames, StepModel::Halted))
    } else {
        let top = frames.last();
        if top.pc < 0 || top.pc >= top.code.len() {
            Err(VmError::PcOutOfRange)
        } else {
            let f = FrameModel { pc: top.pc + 1, ..top };
            let rest = frames.drop_last();
            let n = f.stack.len();
            match top.code[top.pc] {
                Opcode::Invoke(name) => vm_step_invoke(fns, natives, rest, f, name@),
                Opcode::Return => Ok((rest, if rest.len() == 0 { StepModel::Halted } else { StepModel::Continue })),
                Opcode::ReturnTop => if n == 0 {
                    Err(VmError::StackUnderflow)
                } else if rest.len() == 0 {
                    Ok((rest, StepModel::Halted))
                } else {
                    Ok((rest.drop_last().push(push_value(rest.last(), f.stack.last())), StepModel::Continue))
                },
                op => match exec_op(op, f, pool) {
                    Err(e) => Err(e),
                    Ok(f1) => Ok((rest.push(f1), StepModel::Continue)),
                },
            }
        }
    }
}

/// The virtual machine: a program, the native registry and the stack of active frames.
pub struct Vm {
    pub program: Program,
    pub natives: Vec<(String, NativeFn)>,
    pub frames: Stack<Frame>,
}

impl Vm {
    pub open spec fn frames_model(&self) -> Seq<FrameModel> {
        self.frames@.map_values(|f: Frame| f@)
    }

    /// A machine about to run the user function `entry`, which takes no arguments.
    pub fn make(program: Program, natives: Vec<(String, NativeFn)>, entry: &str) -> (r: Result<Vm, VmError>)
        ensures
            match program.fns.lookup(entry@) {
                None => r == Err::<Vm, VmError>(VmError::UndefinedFunction),
                Some(d) => r matches Ok(vm) && vm.program == program && vm.natives == natives && vm.frames_model()
                    == seq![
                    FrameModel {
                        pc: 0,
                        code: d.code,
                        locals: Seq::new(d.max_locals, |i: int| default_object()),
                        stack: Seq::empty(),
                    },
                ],
            },
    {
        let frame = match program.fns.get(entry) {
            None => {
                return Err(VmError::UndefinedFunction);
            },
            Some(d) => Frame::make(d.code.duplicate(), d.max_locals),
        };
        let mut frames: Stack<Frame> = Stack::make();
        frames.push(frame);
        let vm = Vm { program, natives, frames };
        proof {
            assert(vm.frames_model() =~= seq![frame@]);
        }
        Ok(vm)
    }

    fn find_native(&self, name: &String) -> (r: Option<usize>)
        ensures
            r matches Some(i) ==> i < self.natives@.len() && find_name(self.natives@, name@) == Some(i as int),
            r is None ==> find_name(self.natives@, name@) is None,
    {
        proof {
            lemma_find_name(self.natives@, name@);
        }
        let mut i: usize = 0;
        while i < self.natives.len()
            invariant
                i <= self.natives@.len(),
                forall|j: int| 0 <= j < i ==> self.natives@[j].0@ != name@,
                match find_name(self.natives@, name@) {
                    Some(k) => 0 <= k < self.natives@.len() && self.natives@[k].0@ == name@ && forall|j: int|
                        0 <= j < k ==> self.natives@[j].0@ != name@,
                    None => forall|j: int| 0 <= j < self.natives@.len() ==> self.natives@[j].0@ != name@,
                },
            decreases self.natives@.len() - i,
        {
            if self.natives[i].0 == *name {
                return Some(i);
            }
            i = i + 1;
        }
        None
    }

    /// Executes one instruction of the top frame.
    pub fn step(&mut self) -> (r: Result<Step, VmError>)
        ensures
            final(self).program == old(self).program,
            final(self).natives == old(self).natives,
            match vm_step(old(self).program.fns.model(), old(self).natives@, old(self).program.pool@, old(self).frames_model()) {
                Ok((frames, m)) => r matches Ok(s) && step_matches(s, m) && final(self).frames_model() == frames,
                Err(e) => r == Err::<Step, VmError>(e),
            },
    {
        let ghost frames0 = self.frames_model();
        let mut top = match self.frames.pop() {
            None => {
                return Ok(Step::Halted);
            },
            Some(f) => f,
        };
        proof {
            assert(self.frames_model() =~= frames0.drop_last());
        }
        let op = match top.fetch_next_instr() {
            None => {
                return Err(VmError::PcOutOfRange);
            },
            Some(op) => op,
        };
        match op {
            Opcode::Invoke(name) => self.invoke(top, name),
            Opcode::Return => {
                if self.frames.is_empty() {
                    Ok(Step::Halted)
                } else {
                    Ok(Step::Continue)
                }
            },
            Opcode::ReturnTop => {
                match top.stack_pop() {
                    None => Err(VmError::StackUnderflow),
                    Some(v) => {
                        let ghost rest = self.frames_model();
                        match self.frames.pop() {
                            None => Ok(Step::Halted),
                            Some(mut caller) => {
                                proof {
                                    assert(self.frames_model() =~= rest.drop_last());
                                }
                                caller.stack_push(v);
                                self.frames.push(caller);
                                proof {
                                    assert(self.frames_model() =~= rest.drop_last().push(caller@));
                                }
                                Ok(Step::Continue)
                            },
                        }
                    },
                }
            },
            op => {
                let ghost rest = self.frames_model();
                match exec_local(&self.program, &mut top, op) {
                    Err(e) => Err(e),
                    Ok(()) => {
                        self.frames.push(top);
                        proof {
                            assert(self.frames_model() =~= rest.push(top@));
                        }
                        Ok(Step::Continue)
                    },
                }
            },
        }
    }

    /// Resolves `name` for an `Invoke` from `caller`, whose counter has moved past the instruction.
    fn invoke(&mut self, caller: Frame, name: String) -> (r: Result<Step, VmError>)
        ensures
            final(self).program == old(self).program,
            final(self).natives == old(self).natives,
            match vm_step_invoke(
                old(self).program.fns.model(),
                old(self).natives@,
                old(self).frames_model(),
                caller@,
                name@,
            ) {
                Ok((frames, m)) => r matches Ok(s) && step_matches(s, m) && final(self).frames_model() == frames,
                Err(e) => r == Err::<Step, VmError>(e),
            },
    {
        let mut caller = caller;
        let n = caller.opstack.inner.len();
        let ghost rest = self.frames_model();
        let ghost f = caller@;
        proof {
            assert(self.program.fns.model().contains_key(name@) == self.program.fns.lookup(name@) is Some);
            assert(self.program.fns.lookup(name@) is Some ==> self.program.fns.model()[name@]
                == self.program.fns.lookup(name@)->0);
        }
        match self.program.fns.get(name.as_str()) {
            Some(d) => {
                let arity = d.arity;
                let max_locals = d.max_locals;
                let code = d.code.duplicate();
                if n < arity {
                    return Err(VmError::StackUnderflow);
                }
                if max_locals < arity {
                    return Err(VmError::LocalOutOfRange);
                }
                let args = caller.opstack.inner.split_off(n - arity);
                let mut callee = Frame::make(code, max_locals);
                let mut i: usize = 0;
                while i < arity
                    invariant
                        i <= arity <= max_locals,
                        args@.len() == arity,
                        callee@.pc == 0,
                        callee@.code == code@,
                        callee@.stack == Seq::<Object>::empty(),
                        callee@.locals == Seq::new(
                            max_locals as nat,
                            |j: int| if j < i { args@[j] } else { default_object() },
                        ),
                    decreases arity - i,
                {
                    callee.locals.store_at(i, args[i].duplicate());
                    i = i + 1;
                    proof {
                        assert(callee@.locals =~= Seq::new(
                            max_locals as nat,
                            |j: int| if j < i { args@[j] } else { default_object() },
                        ));
                    }
                }
                proof {
                    assert(callee@.locals =~= call_locals(args@, max_locals as nat));
                }
                self.frames.push(caller);
                self.frames.push(callee);
                proof {
                    assert(self.frames_model() =~= rest.push(caller@).push(callee@));
                    let d0 = old(self).program.fns.model()[name@];
                    assert(d0.arity == arity);
                    assert(d0.max_locals == max_locals);
                    assert(d0.code == code@);
                    assert(caller@ == FrameModel { stack: f.stack.subrange(0, n - arity), ..f });
                    assert(args@ == f.stack.subrange(n - arity, n as int));
                }
                Ok(Step::Continue)
            },
            None => match self.find_native(&name) {
                None => Err(VmError::UndefinedFunction),
                Some(k) => {
                    proof {
                        assert(!old(self).program.fns.model().contains_key(name@));
                        assert(find_name(old(self).natives@, name@) == Some(k as int));
                        assert(f.stack.len() == n);
                    }
                    let a = self.natives[k].1.prototype.arity as usize;
                    if n < a {
                        return Err(VmError::StackUnderflow);
                    }
                    let args = caller.opstack.inner.split_off(n - a);
                    self.frames.push(caller);
                    proof {
                        assert(self.frames_model() =~= rest.push(caller@));
                        assert(!old(self).program.fns.model().contains_key(name@));
                        assert(a == self.natives@[k as int].1.prototype.arity);
                        assert(caller@ == FrameModel { stack: f.stack.subrange(0, n - a), ..f });
                    }
                    Ok(Step::NativeCall(name, args))
                },
            },
        }
    }

    /// Hands a native function's result back: a value goes onto the caller's operand stack.
    pub fn push_native_result(&mut self, result: Option<Object>)
        ensures
            final(self).program == old(self).program,
            final(self).natives == old(self).natives,
            match result {
                Some(o) if old(self).frames_model().len() > 0 => final(self).frames_model() == old(
                    self,
                ).frames_model().drop_last().push(push_value(old(self).frames_model().last(), o)),
                _ => final(self).frames_model() == old(self).frames_model(),
            },
    {
        let ghost frames0 = self.frames_model();
        match result {
            None => {},
            Some(o) => match self.frames.pop() {
                None => {},
                Some(mut top) => {
                    proof {
                        assert(self.frames_model() =~= frames0.drop_last());
                    }
                    top.stack_push(o);
                    self.frames.push(top);
                    proof {
                        assert(self.frames_model() =~= frames0.drop_last().push(top@));
                    }
                },
            },
        }
    }
}

/// The effect of `Invoke(name)` from `f` (counter advanced) with `rest` below it.
pub open spec fn vm_step_invoke(
    fns: Map<Seq<char>, FnModel>,
    natives: Seq<(String, NativeFn)>,
    rest: Seq<FrameModel>,
    f: FrameModel,
    name: Seq<char>,
) -> Result<(Seq<FrameModel>, StepModel), VmError> {
    let n = f.stack.len();
    if fns.contains_key(name) {
        let d = fns[name];
        if n < d.arity {
            Err(VmError::StackUnderflow)
        } else if d.max_locals < d.arity {
            Err(VmError::LocalOutOfRange)
        } else {
            let caller = FrameModel { stack: f.stack.subrange(0, n - d.arity), ..f };
            let callee = FrameModel {
                pc: 0,
                code: d.code,
                locals: call_locals(f.stack.subrange(n - d.arity, n as int), d.max_locals),
                stack: Seq::empty(),
            };
            Ok((rest.push(caller).push(callee), StepModel::Continue))
        }
    } else {
        match find_name(natives, name) {
            None => Err(VmError::UndefinedFunction),
            Some(k) => {
                let a = natives[k].1.prototype.arity as int;
                if n < a {
                    Err(VmError::StackUnderflow)
                } else {
                    let caller = FrameModel { stack: f.stack.subrange(0, n - a), ..f };
                    Ok((rest.push(caller), StepModel::NativeCall(name, f.stack.subrange(n - a, n as int))))
                }
            },
        }
    }
}

/// Executes an instruction that stays within frame `f`.
fn exec_local(program: &Program, f: &mut Frame, op: Opcode) -> (r: Result<(), VmError>)
    ensures
        match exec_op(op, old(f)@, program.pool@) {
            Ok(f1) => r is Ok && final(f)@ == f1,
            Err(e) => r == Err::<(), VmError>(e),
        },
{
    match op {
        Opcode::Nop => Err(VmError::StrayNop),
        Opcode::Push(PushOperand::Integer(x)) => {
            f.stack_push(Object::Integer(x));
            Ok(())
        },
        Opcode::Push(PushOperand::Boolean(b)) => {
            f.stack_push(Object::Boolean(b));
            Ok(())
        },
        Opcode::Ldc(i) => match program.pool.get(i) {
            None => Err(VmError::PoolIndexOutOfRange),
            Some(PoolEntry::Object(o)) => {
                f.stack_push(o);
                Ok(())
            },
        },
        Opcode::LLoad(i) => {
            if i >= f.locals.len() {
                return Err(VmError::LocalOutOfRange);
            }
            let o = f.locals.get_by_index(i);
            f.stack_push(o);
            Ok(())
        },
        Opcode::LStore(i) => match f.stack_pop() {
            None => Err(VmError::StackUnderflow),
            Some(o) => {
                if i >= f.locals.len() {
                    return Err(VmError::LocalOutOfRange);
                }
                f.locals.store_at(i, o);
                Ok(())
            },
        },
        Opcode::IAdd => {
            let b = f.stack_pop();
            let a = f.stack_pop();
            match (a, b) {
                (Some(Object::Integer(x)), Some(Object::Integer(y))) => {
                    f.stack_push(Object::Integer(x.wrapping_add(y)));
                    Ok(())
                },
                (None, _) | (_, None) => Err(VmError::StackUnderflow),
                _ => Err(VmError::TypeMismatch),
            }
        },
        Opcode::ICmpGT => {
            let b = f.stack_pop();
            let a = f.stack_pop();
            match (a, b) {
                (Some(Object::Integer(x)), Some(Object::Integer(y))) => {
                    f.stack_push(Object::Boolean(x > y));
                    Ok(())
                },
                (None, _) | (_, None) => Err(VmError::StackUnderflow),
                _ => Err(VmError::TypeMismatch),
            }
        },
        Opcode::Jump(t) => {
            f.pc = t;
            Ok(())
        },
        Opcode::JumpIfFalse(t) => match f.stack_pop() {
            None => Err(VmError::StackUnderflow),
            Some(Object::Boolean(false)) => {
                f.pc = t;
                Ok(())
            },
            Some(Object::Boolean(true)) => Ok(()),
            Some(_) => Err(VmError::TypeMismatch),
        },
        _ => Ok(()),
    }
}

} // verus!
