use vstd::prelude::*;
use crate::ast::{BinaryOp, Expression, FunctionDeclaration, Literal, Param, Statement, AST};
use crate::bytecode::{ByteCodeStream, DefinedFn, FnModel, FnTable, Opcode, Program, PushOperand};
use crate::object::{Object, Pool, PoolEntry, Type};

verus! {

broadcast use vstd::std_specs::vec::axiom_vec_index_decreases;

/// Why a tree could not be lowered: it was not resolved or typed as analysis promises.
#[derive(Debug, Clone, Copy, PartialEq, Eq, Structural)]
pub enum GenError {
    UnresolvedIdentifier,
    MissingType,
    UnsupportedType,
}

/// A local slot: its name, index and declared type.
#[derive(Debug, Clone, PartialEq)]
pub struct Local {
    pub name: String,
    pub index: usize,
    pub type_: Type,
}

impl Local {
    fn make(name: String, index: usize, type_: Type) -> (r: Self)
        ensures
            r == (Local { name, index, type_ }),
    {
        Self { name, index, type_ }
    }
}

/// The per-function compile context: the instruction stream and the local slots declared so far.
pub struct Context {
    pub bytecode: ByteCodeStream,
    pub locals: Vec<Local>,
}

impl Context {
    pub fn make() -> (r: Self)
        ensures
            r.bytecode@ == Seq::<Opcode>::empty(),
            r.locals@ == Seq::<Local>::empty(),
    {
        Self { bytecode: ByteCodeStream::empty(), locals: Vec::new() }
    }

    pub fn reset(&mut self)
        ensures
            final(self).bytecode@ == Seq::<Opcode>::empty(),
            final(self).locals@ == Seq::<Local>::empty(),
    {
        self.bytecode.clear();
        self.locals.clear();
    }
}

/// The whole state of generation: the program built so far and the current function's context.
pub struct GenState {
    pub pool: Seq<PoolEntry>,
    pub fns: Map<Seq<char>, FnModel>,
    pub code: Seq<Opcode>,
    pub locals: Seq<Local>,
}

/// The most recent local slot declared under `name`.
pub open spec fn lookup_local(locals: Seq<Local>, name: Seq<char>) -> Option<Local>
    decreases locals.len(),
{
    if locals.len() == 0 {
        None
    } else if locals.last().name@ == name {
        Some(locals.last())
    } else {
        lookup_local(locals.drop_last(), name)
    }
}

pub open spec fn emit(st: GenState, op: Opcode) -> GenState {
    GenState { code: st.code.push(op), ..st }
}

/// The slots of a function's parameters, numbered from 0 in order.
pub open spec fn param_locals(params: Seq<Param>) -> Seq<Local> {
    Seq::new(params.len(), |i: int| Local { name: params[i].name, index: i as usize, type_: params[i].type_ })
}

/// The closing instruction of a function that returns `t`.
pub open spec fn return_op(t: Type) -> Opcode {
    if t is Void {
        Opcode::Return
    } else {
        Opcode::ReturnTop
    }
}

pub open spec fn gen_literal(l: Literal, st: GenState) -> GenState {
    match l {
        Literal::Int(x) => emit(st, Opcode::Push(PushOperand::Integer(x))),
        Literal::Boolean(b) => emit(st, Opcode::Push(PushOperand::Boolean(b))),
        Literal::String(s) => GenState {
            pool: st.pool.push(PoolEntry::Object(Object::String(s))),
            code: st.code.push(Opcode::Ldc(st.pool.len() as usize)),
            ..st
        },
    }
}

pub open spec fn gen_binop(op: BinaryOp, st: GenState) -> Result<GenState, GenError> {
    match op {
        BinaryOp::Plus(t) => match t {
            None => Err(GenError::MissingType),
            Some(Type::Integer) => Ok(emit(st, Opcode::IAdd)),
            Some(_) => Err(GenError::UnsupportedType),
        },
        BinaryOp::GratherThan(t) => match t {
            None => Err(GenError::MissingType),
            Some(Type::Integer) => Ok(emit(st, Opcode::ICmpGT)),
            Some(_) => Err(GenError::UnsupportedType),
        },
    }
}

pub open spec fn gen_expr(e: Expression, st: GenState) -> Result<GenState, GenError> {
    match e {
        Expression::Literal(l) => Ok(gen_literal(l, st)),
        Expression::FunctionCall(name) => Ok(emit(st, Opcode::Invoke(name))),
        Expression::BinaryOp(op) => gen_binop(op, st),
        Expression::Identifier(name) => match lookup_local(st.locals, name@) {
            None => Err(GenError::UnresolvedIdentifier),
            Some(l) => if l.type_ is Void {
                Err(GenError::UnsupportedType)
            } else {
                Ok(emit(st, Opcode::LLoad(l.index)))
            },
        },
        Expression::Return(t) => match t {
            None => Err(GenError::MissingType),
            Some(t) => Ok(emit(st, return_op(t))),
        },
    }
}

/// Lowering of one statement.
pub open spec fn gen_stmt(s: Statement, st: GenState) -> Result<GenState, GenError>
    decreases s, 0nat,
{
    match s {
        Statement::Expression(e) => gen_expr(e, st),
        Statement::VariableDeclaration(v) => Ok(
            GenState {
                locals: st.locals.push(Local { name: v.name, index: st.locals.len() as usize, type_: v.type_ }),
                ..st
            },
        ),
        Statement::Assignment(target) => match target {
            None => Err(GenError::UnresolvedIdentifier),
            Some(name) => match lookup_local(st.locals, name@) {
                None => Err(GenError::UnresolvedIdentifier),
                Some(l) => Ok(emit(st, Opcode::LStore(l.index))),
            },
        },
        Statement::If(consequence, alternative) => {
            let head = st.code.len() as int;
            match alternative {
                None => match gen_block(consequence, 0, emit(st, Opcode::Nop)) {
                    Err(e) => Err(e),
                    Ok(s1) => Ok(
                        GenState {
                            code: s1.code.update(head, Opcode::JumpIfFalse(s1.code.len() as usize)),
                            ..s1
                        },
                    ),
                },
                Some(alt) => match gen_block(consequence, 0, emit(st, Opcode::Nop)) {
                    Err(e) => Err(e),
                    Ok(s1) => {
                        let split = s1.code.len() as int;
                        match gen_block(alt, 0, emit(s1, Opcode::Nop)) {
                            Err(e) => Err(e),
                            Ok(s2) => Ok(
                                GenState {
                                    code: s2.code.update(head, Opcode::JumpIfFalse((split + 1) as usize)).update(
                                        split,
                                        Opcode::Jump(s2.code.len() as usize),
                                    ),
                                    ..s2
                                },
                            ),
                        }
                    },
                }
            }
        },
        Statement::FunctionDeclaration(d) => {
            let inner = GenState { code: Seq::empty(), locals: param_locals(d.params@), ..st };
            match gen_block(d.body, 0, inner) {
                Err(e) => Err(e),
                Ok(s1) => Ok(
                    GenState {
                        pool: s1.pool,
                        fns: s1.fns.insert(
                            d.name@,
                            FnModel {
                                arity: d.params@.len(),
                                code: s1.code.push(return_op(d.return_type)),
                                max_locals: s1.locals.len(),
                            },
                        ),
                        code: st.code,
                        locals: st.locals,
                    },
                ),
            }
        },
    }
}

/// Lowering of the statements of `b` from index `i` on, in order.
pub open spec fn gen_block(b: Vec<Statement>, i: int, st: GenState) -> Result<GenState, GenError>
    decreases b, b@.len() - i,
{
    if i < 0 || i >= b@.len() {
        Ok(st)
    } else {
        match gen_stmt(b[i], st) {
            Err(e) => Err(e),
            Ok(s1) => gen_block(b, i + 1, s1),
        }
    }
}

} // verus!

verus! {

/// Lowering a statement keeps the instructions emitted before it and only appends.
pub proof fn lemma_stmt_extends(s: Statement, st: GenState)
    ensures
        gen_stmt(s, st) matches Ok(s1) ==> s1.code.len() >= st.code.len() && s1.code.subrange(
            0,
            st.code.len() as int,
        ) == st.code,
    decreases s, 1nat,
{
    match s {
        Statement::If(c, a) => {
            let s0 = emit(st, Opcode::Nop);
            lemma_block_extends(c, 0, s0);
            assert(s0.code.subrange(0, st.code.len() as int) =~= st.code);
            if let Ok(s1) = gen_block(c, 0, s0) {
                assert(s1.code.subrange(0, st.code.len() as int) =~= st.code);
                match a {
                    None => {
                        let s2 = s1.code.update(st.code.len() as int, Opcode::JumpIfFalse(s1.code.len() as usize));
                        assert(s2.subrange(0, st.code.len() as int) =~= st.code);
                    },
                    Some(alt) => {
                        let s1n = emit(s1, Opcode::Nop);
                        lemma_block_extends(alt, 0, s1n);
                        assert(s1n.code.subrange(0, st.code.len() as int) =~= st.code);
                        if let Ok(s2) = gen_block(alt, 0, s1n) {
                            assert(s2.code.subrange(0, st.code.len() as int) =~= s2.code.subrange(0, s1n.code.len() as int).subrange(0, st.code.len() as int));
                            let c2 = s2.code.update(st.code.len() as int, Opcode::JumpIfFalse((s1.code.len() + 1) as usize)).update(
                                s1.code.len() as int,
                                Opcode::Jump(s2.code.len() as usize),
                            );
                            assert(c2.subrange(0, st.code.len() as int) =~= st.code);
                        }
                    },
                }
            }
        },
        Statement::FunctionDeclaration(_) => {},
        _ => {
            assert forall|op: Opcode| st.code.push(op).subrange(0, st.code.len() as int) =~= st.code by {}
        },
    }
}

/// Lowering a block keeps the instructions emitted before it and only appends.
pub proof fn lemma_block_extends(b: Vec<Statement>, i: int, st: GenState)
    ensures
        gen_block(b, i, st) matches Ok(s1) ==> s1.code.len() >= st.code.len() && s1.code.subrange(
            0,
            st.code.len() as int,
        ) == st.code,
    decreases b, b@.len() - i,
{
    if 0 <= i < b@.len() {
        lemma_stmt_extends(b[i], st);
        if let Ok(s1) = gen_stmt(b[i], st) {
            lemma_block_extends(b, i + 1, s1);
            if let Ok(s2) = gen_block(b, i + 1, s1) {
                assert(s2.code.subrange(0, st.code.len() as int) =~= s2.code.subrange(0, s1.code.len() as int).subrange(0, st.code.len() as int));
            }
        }
    } else {
        assert(st.code.subrange(0, st.code.len() as int) =~= st.code);
    }
}

/// The generator's state seen as a model, with `ctx` as the current function's context.
pub open spec fn state_of(g: CodeGenerator, ctx: Context) -> GenState {
    GenState { pool: g.pool@, fns: g.fns.model(), code: ctx.bytecode@, locals: ctx.locals@ }
}

/// What lowering `ast` yields from a generator whose pool is `pool` and whose functions are `fns`.
pub open spec fn gen_tree(ast: AST, pool: Seq<PoolEntry>, fns: Map<Seq<char>, FnModel>) -> Result<GenState, GenError> {
    gen_block(ast, 0, GenState { pool, fns, code: Seq::empty(), locals: Seq::empty() })
}

/// The relation between a result of generation and its model.
pub open spec fn gen_outcome<T>(model: Result<GenState, GenError>, r: Result<T, GenError>, after: GenState) -> bool {
    match model {
        Ok(s) => r is Ok && after == s,
        Err(e) => r == Err::<T, GenError>(e),
    }
}

/// Position of the most recent local named `name`.
fn find_local(locals: &Vec<Local>, name: &String) -> (r: Option<usize>)
    ensures
        match lookup_local(locals@, name@) {
            Some(l) => r matches Some(k) && k < locals@.len() && locals@[k as int] == l,
            None => r is None,
        },
{
    let mut i: usize = locals.len();
    assert(locals@.subrange(0, i as int) =~= locals@);
    while i > 0
        invariant
            i <= locals@.len(),
            lookup_local(locals@, name@) == lookup_local(locals@.subrange(0, i as int), name@),
        decreases i,
    {
        let ghost pre = locals@.subrange(0, i as int);
        assert(pre.drop_last() =~= locals@.subrange(0, i - 1));
        if locals[i - 1].name == *name {
            return Some(i - 1);
        }
        i = i - 1;
    }
    None
}

/// Lowers a type-annotated tree into a program: a constant pool and the user functions by name.
pub struct CodeGenerator {
    pub pool: Pool,
    pub fns: FnTable,
}

impl CodeGenerator {
    pub fn make() -> (r: Self)
        ensures
            r.pool@ == Seq::<PoolEntry>::empty(),
            r.fns.model() == Map::<Seq<char>, FnModel>::empty(),
    {
        Self { pool: Pool::make(), fns: FnTable::make() }
    }

    /// Lowers every top-level statement in order and returns the program built so far.
    /// On an error the generator is left as it was before the call.
    pub fn gen(&mut self, ast: AST) -> (r: Result<Program, GenError>)
        ensures
            match gen_tree(ast, old(self).pool@, old(self).fns.model()) {
                Ok(s) => r matches Ok(p) && p.pool@ == s.pool && p.fns.model() == s.fns && final(self).pool@
                    == s.pool && final(self).fns.model() == s.fns,
                Err(e) => r == Err::<Program, GenError>(e) && final(self).pool@ == old(self).pool@
                    && final(self).fns.model() == old(self).fns.model(),
            },
    {
        let saved_pool = self.pool.duplicate();
        let saved_fns = self.fns.duplicate();
        let mut ctx = Context::make();
        match self.generate_block(&mut ctx, &ast) {
            Err(e) => {
                self.pool = saved_pool;
                self.fns = saved_fns;
                Err(e)
            },
            Ok(()) => Ok(Program { pool: self.pool.duplicate(), fns: self.fns.duplicate() }),
        }
    }

    fn generate_block(&mut self, ctx: &mut Context, b: &Vec<Statement>) -> (r: Result<(), GenError>)
        ensures
            gen_outcome(gen_block(*b, 0, state_of(*old(self), *old(ctx))), r, state_of(*final(self), *final(ctx))),
        decreases b, 0nat,
    {
        let mut i: usize = 0;
        while i < b.len()
            invariant
                i <= b@.len(),
                gen_block(*b, 0, state_of(*old(self), *old(ctx))) == gen_block(*b, i as int, state_of(*self, *ctx)),
            decreases b@.len() - i,
        {
            match self.generate_statement(ctx, &b[i]) {
                Err(e) => {
                    return Err(e);
                },
                Ok(()) => {},
            }
            i = i + 1;
        }
        Ok(())
    }

    fn generate_statement(&mut self, ctx: &mut Context, stmt: &Statement) -> (r: Result<(), GenError>)
        ensures
            gen_outcome(gen_stmt(*stmt, state_of(*old(self), *old(ctx))), r, state_of(*final(self), *final(ctx))),
        decreases stmt, 1nat,
    {
        match stmt {
            Statement::If(_, _) => self.generate_if_statement(ctx, stmt),
            Statement::Expression(expr) => self.generate_expression(ctx, expr),
            Statement::FunctionDeclaration(fn_decl) => self.generate_function_declaration(fn_decl),
            Statement::VariableDeclaration(var_decl) => {
                self.generate_variable_decl(ctx, var_decl);
                Ok(())
            },
            Statement::Assignment(target) => self.generate_assignment(ctx, target),
        }
    }

    fn generate_assignment(&mut self, ctx: &mut Context, target: &Option<String>) -> (r: Result<(), GenError>)
        ensures
            gen_outcome(
                gen_stmt(Statement::Assignment(*target), state_of(*old(self), *old(ctx))),
                r,
                state_of(*final(self), *final(ctx)),
            ),
            r is Err ==> state_of(*final(self), *final(ctx)) == state_of(*old(self), *old(ctx)),
    {
        match target {
            None => Err(GenError::UnresolvedIdentifier),
            Some(name) => match find_local(&ctx.locals, name) {
                None => Err(GenError::UnresolvedIdentifier),
                Some(k) => {
                    let index = ctx.locals[k].index;
                    ctx.bytecode.push(Opcode::LStore(index));
                    Ok(())
                },
            },
        }
    }

    fn generate_variable_decl(&mut self, ctx: &mut Context, var_decl: &crate::ast::VariableDeclaration)
        ensures
            gen_stmt(Statement::VariableDeclaration(*var_decl), state_of(*old(self), *old(ctx))) == Ok::<
                GenState,
                GenError,
            >(state_of(*final(self), *final(ctx))),
    {
        let index = ctx.locals.len();
        ctx.locals.push(Local::make(var_decl.name.clone(), index, var_decl.type_));
    }

    fn generate_if_statement(&mut self, ctx: &mut Context, stmt: &Statement) -> (r: Result<(), GenError>)
        requires
            stmt is If,
        ensures
            gen_outcome(gen_stmt(*stmt, state_of(*old(self), *old(ctx))), r, state_of(*final(self), *final(ctx))),
        decreases stmt, 1nat, 0nat,
    {
        let (consequence, alternative) = match stmt {
            Statement::If(c, a) => (c, a),
            _ => {
                return Ok(());
            },
        };
        match alternative {
            None => {
                let before_if_offset = ctx.bytecode.get_pos();
                ctx.bytecode.push(Opcode::Nop);
                proof {
                    lemma_block_extends(*consequence, 0, state_of(*self, *ctx));
                }
                match self.generate_block(ctx, consequence) {
                    Err(e) => {
                        return Err(e);
                    },
                    Ok(()) => {},
                }
                let after_if_offset = ctx.bytecode.get_pos();
                ctx.bytecode.push_at(Opcode::JumpIfFalse(after_if_offset), before_if_offset);
                Ok(())
            },
            Some(alt) => {
                let before_if_offset = ctx.bytecode.get_pos();
                ctx.bytecode.push(Opcode::Nop);
                proof {
                    lemma_block_extends(*consequence, 0, state_of(*self, *ctx));
                }
                match self.generate_block(ctx, consequence) {
                    Err(e) => {
                        return Err(e);
                    },
                    Ok(()) => {},
                }
                let after_if_offset = ctx.bytecode.get_pos();
                ctx.bytecode.push(Opcode::Nop);
                proof {
                    lemma_block_extends(*alt, 0, state_of(*self, *ctx));
                }
                match self.generate_block(ctx, alt) {
                    Err(e) => {
                        return Err(e);
                    },
                    Ok(()) => {},
                }
                let after_else_offset = ctx.bytecode.get_pos();
                ctx.bytecode.push_at(Opcode::JumpIfFalse(after_if_offset + 1), before_if_offset);
                ctx.bytecode.push_at(Opcode::Jump(after_else_offset), after_if_offset);
                Ok(())
            },
        }
    }

    fn generate_function_declaration(&mut self, fn_decl: &FunctionDeclaration) -> (r: Result<(), GenError>)
        ensures
            forall|ctx: Context|
                gen_outcome(
                    gen_stmt(Statement::FunctionDeclaration(*fn_decl), state_of(*old(self), ctx)),
                    r,
                    state_of(*final(self), ctx),
                ),
        decreases fn_decl, 0nat,
    {
        let mut ctx = Context::make();
        let arity = fn_decl.params.len();
        let mut i: usize = 0;
        while i < arity
            invariant
                arity == fn_decl.params@.len(),
                i <= arity,
                ctx.bytecode@ == Seq::<Opcode>::empty(),
                ctx.locals@ == param_locals(fn_decl.params@).subrange(0, i as int),
            decreases arity - i,
        {
            let p = &fn_decl.params[i];
            ctx.locals.push(Local::make(p.name.clone(), i, p.type_));
            i = i + 1;
            proof {
                assert(ctx.locals@ =~= param_locals(fn_decl.params@).subrange(0, i as int));
            }
        }
        proof {
            assert(ctx.locals@ =~= param_locals(fn_decl.params@));
        }
        match self.generate_block(&mut ctx, &fn_decl.body) {
            Err(e) => {
                return Err(e);
            },
            Ok(()) => {},
        }
        match fn_decl.return_type {
            Type::Void => ctx.bytecode.push(Opcode::Return),
            _ => ctx.bytecode.push(Opcode::ReturnTop),
        }
        let max_locals = ctx.locals.len();
        self.fns.insert(fn_decl.name.clone(), DefinedFn { arity, code: ctx.bytecode, max_locals });
        Ok(())
    }

    fn generate_expression(&mut self, ctx: &mut Context, expression: &Expression) -> (r: Result<(), GenError>)
        ensures
            gen_outcome(gen_expr(*expression, state_of(*old(self), *old(ctx))), r, state_of(*final(self), *final(ctx))),
            r is Err ==> state_of(*final(self), *final(ctx)) == state_of(*old(self), *old(ctx)),
    {
        match expression {
            Expression::Literal(literal) => {
                self.generate_literal(ctx, literal);
                Ok(())
            },
            Expression::FunctionCall(fn_name) => {
                self.generate_function_call(ctx, fn_name);
                Ok(())
            },
            Expression::BinaryOp(binop) => self.generate_binop(ctx, binop),
            Expression::Identifier(ident) => self.generate_identifier(ctx, ident),
            Expression::Return(type_) => match type_ {
                None => Err(GenError::MissingType),
                Some(t) => {
                    self.generate_return_expression(ctx, *t);
                    Ok(())
                },
            },
        }
    }

    fn generate_identifier(&mut self, ctx: &mut Context, ident: &String) -> (r: Result<(), GenError>)
        ensures
            gen_outcome(
                gen_expr(Expression::Identifier(*ident), state_of(*old(self), *old(ctx))),
                r,
                state_of(*final(self), *final(ctx)),
            ),
            r is Err ==> state_of(*final(self), *final(ctx)) == state_of(*old(self), *old(ctx)),
    {
        match find_local(&ctx.locals, ident) {
            None => Err(GenError::UnresolvedIdentifier),
            Some(k) => {
                let index = ctx.locals[k].index;
                match ctx.locals[k].type_ {
                    Type::Integer | Type::Boolean | Type::String => {
                        ctx.bytecode.push(Opcode::LLoad(index));
                        Ok(())
                    },
                    Type::Void => Err(GenError::UnsupportedType),
                }
            },
        }
    }

    fn generate_binop(&mut self, ctx: &mut Context, binop: &BinaryOp) -> (r: Result<(), GenError>)
        ensures
            gen_outcome(gen_binop(*binop, state_of(*old(self), *old(ctx))), r, state_of(*final(self), *final(ctx))),
            r is Err ==> state_of(*final(self), *final(ctx)) == state_of(*old(self), *old(ctx)),
    {
        match binop {
            BinaryOp::Plus(type_) => match type_ {
                None => Err(GenError::MissingType),
                Some(Type::Integer) => {
                    ctx.bytecode.push(Opcode::IAdd);
                    Ok(())
                },
                Some(_) => Err(GenError::UnsupportedType),
            },
            BinaryOp::GratherThan(type_) => match type_ {
                None => Err(GenError::MissingType),
                Some(Type::Integer) => {
                    ctx.bytecode.push(Opcode::ICmpGT);
                    Ok(())
                },
                Some(_) => Err(GenError::UnsupportedType),
            },
        }
    }

    fn generate_function_call(&mut self, ctx: &mut Context, fn_name: &String)
        ensures
            state_of(*final(self), *final(ctx)) == emit(state_of(*old(self), *old(ctx)), Opcode::Invoke(*fn_name)),
    {
        ctx.bytecode.push(Opcode::Invoke(fn_name.clone()));
    }

    fn generate_literal(&mut self, ctx: &mut Context, literal: &Literal)
        ensures
            state_of(*final(self), *final(ctx)) == gen_literal(*literal, state_of(*old(self), *old(ctx))),
    {
        match literal {
            Literal::Int(x) => ctx.bytecode.push(Opcode::Push(PushOperand::Integer(*x))),
            Literal::Boolean(x) => ctx.bytecode.push(Opcode::Push(PushOperand::Boolean(*x))),
            Literal::String(x) => {
                let index = self.pool.append(PoolEntry::Object(Object::String(x.clone())));
                ctx.bytecode.push(Opcode::Ldc(index));
            },
        }
    }

    fn generate_return_expression(&mut self, ctx: &mut Context, type_: Type)
        ensures
            state_of(*final(self), *final(ctx)) == emit(state_of(*old(self), *old(ctx)), return_op(type_)),
    {
        match type_ {
            Type::Void => ctx.bytecode.push(Opcode::Return),
            _ => ctx.bytecode.push(Opcode::ReturnTop),
        }
    }
}

} // verus!
