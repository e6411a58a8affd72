use vstd::prelude::*;
use crate::bytecode::{ByteCodeStream, Opcode};
use crate::object::Object;
use crate::stack::Stack;

verus! {

/// The value of a local slot before anything is stored in it.
pub open spec fn default_object() -> Object {
    Object::Integer(0)
}

/// The local slots of one activation, allocated up front.
#[derive(Debug, Clone)]
pub struct Locals {
    pub inner: Vec<Object>,
}

impl View for Locals {
    type V = Seq<Object>;

    open spec fn view(&self) -> Seq<Object> {
        self.inner@
    }
}

impl Locals {
    /// `size` slots, each holding the default value.
    pub fn make(size: usize) -> (r: Self)
        ensures
            r@ == Seq::new(size as nat, |i: int| default_object()),
    {
        let mut inner: Vec<Object> = Vec::new();
        let mut i: usize = 0;
        while i < size
            invariant
                i <= size,
                inner@ == Seq::new(i as nat, |j: int| default_object()),
            decreases size - i,
        {
            inner.push(Object::Integer(0));
            i = i + 1;
            proof {
                assert(inner@ =~= Seq::new(i as nat, |j: int| default_object()));
            }
        }
        Locals { inner }
    }

    pub fn len(&self) -> (r: usize)
        ensures
            r == self@.len(),
    {
        self.inner.len()
    }

    /// A copy of slot `index`. An index past the slots is a defect of the code, which callers rule out.
    pub fn get_by_index(&self, index: usize) -> (r: Object)
        requires
            index < self@.len(),
        ensures
            r == self@[index as int],
    {
        self.inner[index].duplicate()
    }

    /// Slot `index` itself, for in-place update.
    pub fn get_as_ref(&mut self, index: usize) -> (r: &mut Object)
        requires
            index < old(self)@.len(),
        ensures
            *r == old(self)@[index as int],
            final(self)@ == old(self)@.update(index as int, *final(r)),
    {
        &mut self.inner[index]
    }

    /// Stores `o` in slot `index`.
    pub fn store_at(&mut self, index: usize, o: Object)
        requires
            index < old(self)@.len(),
        ensures
            final(self)@ == old(self)@.update(index as int, o),
    {
        self.inner.set(index, o);
    }
}

/// The model of one activation.
pub struct FrameModel {
    pub pc: int,
    pub code: Seq<Opcode>,
    pub locals: Seq<Object>,
    pub stack: Seq<Object>,
}

/// One activation: program counter, code, local slots and its own operand stack.
#[derive(Debug, Clone)]
pub struct Frame {
    pub pc: usize,
    pub code: ByteCodeStream,
    pub locals: Locals,
    pub opstack: Stack<Object>,
}

impl View for Frame {
    type V = FrameModel;

    open spec fn view(&self) -> FrameModel {
        FrameModel { pc: self.pc as int, code: self.code@, locals: self.locals@, stack: self.opstack@ }
    }
}

impl Frame {
    /// A frame at the first instruction of `code`, with `max_locals` default slots and an empty stack.
    pub fn make(code: ByteCodeStream, max_locals: usize) -> (r: Self)
        ensures
            r@ == (FrameModel {
                pc: 0,
                code: code@,
                locals: Seq::new(max_locals as nat, |i: int| default_object()),
                stack: Seq::empty(),
            }),
    {
        Self { pc: 0, code, opstack: Stack::make(), locals: Locals::make(max_locals) }
    }

    /// The instruction at the program counter, which moves to the next one; `None` past the end.
    pub fn fetch_next_instr(&mut self) -> (r: Option<Opcode>)
        ensures
            old(self).pc < old(self).code@.len() ==> r == Some(old(self).code@[old(self).pc as int])
                && final(self)@ == (FrameModel { pc: old(self).pc + 1, ..old(self)@ }),
            old(self).pc >= old(self).code@.len() ==> r is None && final(self)@ == old(self)@,
    {
        if self.pc >= self.code.get_pos() {
            return None;
        }
        let instr = self.code.get_at(self.pc);
        self.pc = self.pc + 1;
        instr
    }

    pub fn stack_push(&mut self, o: Object)
        ensures
            final(self)@ == (FrameModel { stack: old(self)@.stack.push(o), ..old(self)@ }),
    {
        self.opstack.push(o);
    }

    pub fn stack_pop(&mut self) -> (r: Option<Object>)
        ensures
            old(self)@.stack.len() == 0 ==> r is None && final(self)@ == old(self)@,
            old(self)@.stack.len() > 0 ==> r == Some(old(self)@.stack.last()) && final(self)@ == (FrameModel {
                stack: old(self)@.stack.drop_last(),
                ..old(self)@
            }),
    {
        self.opstack.pop()
    }
}

} // verus!
