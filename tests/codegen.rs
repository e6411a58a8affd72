use buglang::ast::{BinaryOp, Expression, FunctionDeclaration, Literal, Param, Statement, VariableDeclaration};
use buglang::bytecode::{Opcode, PushOperand};
use buglang::codegen::{CodeGenerator, GenError};
use buglang::object::{Object, PoolEntry, Type};

fn function(name: &str, params: Vec<Param>, return_type: Type, body: Vec<Statement>) -> Statement {
    Statement::FunctionDeclaration(FunctionDeclaration {
        name: name.to_string(),
        params,
        return_type,
        body,
    })
}

fn expr(e: Expression) -> Statement {
    Statement::Expression(e)
}

fn int_lit(n: i32) -> Statement {
    expr(Expression::Literal(Literal::Int(n)))
}

fn code_of(ast: Vec<Statement>, name: &str) -> Vec<Opcode> {
    let mut generator = CodeGenerator::make();
    let program = generator.gen(ast).unwrap();
    program.fns.get(name).unwrap().code.code.clone()
}

#[test]
fn enaure_hello_world_is_well_generated() {
    let ast = vec![Statement::FunctionDeclaration(FunctionDeclaration {
        name: "main".to_string(),
        params: vec![],
        return_type: Type::Void,
        body: vec![
            Statement::Expression(Expression::Literal(Literal::String(
                "Hello, world!".to_string(),
            ))),
            Statement::Expression(Expression::FunctionCall("write".to_string())),
        ],
    })];

    let mut generator = CodeGenerator::make();
    let program = generator.gen(ast).unwrap();

    assert!(program.fns.contains_key("main"));
    assert!(program
        .pool
        .entries
        .contains(&PoolEntry::Object(Object::String(
            "Hello, world!".to_string()
        ))));

    let main_code = program.fns.get("main").unwrap().code.clone();

    match main_code.get_at(0).unwrap() {
        Opcode::Ldc(_) => {}
        x => panic!("Unexpected instruction {:?}", x),
    }

    match main_code.get_at(1).unwrap() {
        Opcode::Invoke(_) => {}
        x => panic!("Unexpected instruction {:?}", x),
    }

    match main_code.get_at(2).unwrap() {
        Opcode::Return => {}
        x => panic!("Unexpected instruction {:?}", x),
    }
}

#[test]
fn hello_world_exact_stream_and_pool() {
    let ast = vec![function(
        "main",
        vec![],
        Type::Void,
        vec![
            expr(Expression::Literal(Literal::String("Hello, world!".to_string()))),
            expr(Expression::FunctionCall("write".to_string())),
        ],
    )];
    let mut generator = CodeGenerator::make();
    let program = generator.gen(ast).unwrap();
    assert_eq!(
        program.fns.get("main").unwrap().code.code,
        vec![Opcode::Ldc(0), Opcode::Invoke("write".to_string()), Opcode::Return]
    );
    assert_eq!(
        program.pool.entries,
        vec![PoolEntry::Object(Object::String("Hello, world!".to_string()))]
    );
    assert_eq!(program.fns.get("main").unwrap().arity, 0);
    assert_eq!(program.fns.get("main").unwrap().max_locals, 0);
}

#[test]
fn equal_string_literals_get_separate_pool_entries() {
    let s = || expr(Expression::Literal(Literal::String("a".to_string())));
    let mut generator = CodeGenerator::make();
    let program = generator.gen(vec![function("main", vec![], Type::Void, vec![s(), s()])]).unwrap();
    assert_eq!(program.pool.entries.len(), 2);
    assert_eq!(
        program.fns.get("main").unwrap().code.code,
        vec![Opcode::Ldc(0), Opcode::Ldc(1), Opcode::Return]
    );
}

#[test]
fn if_without_else_jumps_past_consequence() {
    let body = vec![
        expr(Expression::Literal(Literal::Boolean(false))),
        Statement::If(vec![int_lit(1), int_lit(2)], None),
        int_lit(3),
    ];
    let code = code_of(vec![function("main", vec![], Type::Void, body)], "main");
    assert_eq!(
        code,
        vec![
            Opcode::Push(PushOperand::Boolean(false)),
            Opcode::JumpIfFalse(4),
            Opcode::Push(PushOperand::Integer(1)),
            Opcode::Push(PushOperand::Integer(2)),
            Opcode::Push(PushOperand::Integer(3)),
            Opcode::Return,
        ]
    );
}

#[test]
fn if_with_else_jumps_to_alternative_and_past_it() {
    let body = vec![
        expr(Expression::Literal(Literal::Boolean(true))),
        Statement::If(vec![int_lit(1)], Some(vec![int_lit(2), int_lit(3)])),
        int_lit(4),
    ];
    let code = code_of(vec![function("main", vec![], Type::Void, body)], "main");
    assert_eq!(
        code,
        vec![
            Opcode::Push(PushOperand::Boolean(true)),
            Opcode::JumpIfFalse(4),
            Opcode::Push(PushOperand::Integer(1)),
            Opcode::Jump(6),
            Opcode::Push(PushOperand::Integer(2)),
            Opcode::Push(PushOperand::Integer(3)),
            Opcode::Push(PushOperand::Integer(4)),
            Opcode::Return,
        ]
    );
}

#[test]
fn local_slots_follow_parameters() {
    let params = vec![
        Param { name: "a".to_string(), type_: Type::Integer },
        Param { name: "b".to_string(), type_: Type::Integer },
    ];
    let body = vec![
        Statement::VariableDeclaration(VariableDeclaration { name: "x".to_string(), type_: Type::Integer }),
        Statement::VariableDeclaration(VariableDeclaration { name: "y".to_string(), type_: Type::Boolean }),
        expr(Expression::Identifier("b".to_string())),
        Statement::Assignment(Some("y".to_string())),
        expr(Expression::Identifier("x".to_string())),
        expr(Expression::Return(Some(Type::Integer))),
    ];
    let mut generator = CodeGenerator::make();
    let program = generator.gen(vec![function("f", params, Type::Integer, body)]).unwrap();
    let f = program.fns.get("f").unwrap();
    assert_eq!(f.arity, 2);
    assert_eq!(f.max_locals, 4);
    assert_eq!(
        f.code.code,
        vec![Opcode::LLoad(1), Opcode::LStore(3), Opcode::LLoad(2), Opcode::ReturnTop, Opcode::ReturnTop]
    );
}

#[test]
fn return_instruction_follows_return_type() {
    let ast = vec![
        function("v", vec![], Type::Void, vec![]),
        function("i", vec![], Type::Integer, vec![int_lit(1)]),
        function("s", vec![], Type::String, vec![]),
    ];
    let mut generator = CodeGenerator::make();
    let program = generator.gen(ast).unwrap();
    assert_eq!(program.fns.get("v").unwrap().code.code, vec![Opcode::Return]);
    assert_eq!(
        program.fns.get("i").unwrap().code.code,
        vec![Opcode::Push(PushOperand::Integer(1)), Opcode::ReturnTop]
    );
    assert_eq!(program.fns.get("s").unwrap().code.code, vec![Opcode::ReturnTop]);
}

#[test]
fn binary_operations_on_integers() {
    let params = vec![
        Param { name: "a".to_string(), type_: Type::Integer },
        Param { name: "b".to_string(), type_: Type::Integer },
    ];
    let body = vec![
        expr(Expression::Identifier("a".to_string())),
        expr(Expression::Identifier("b".to_string())),
        expr(Expression::BinaryOp(BinaryOp::Plus(Some(Type::Integer)))),
        int_lit(10),
        expr(Expression::BinaryOp(BinaryOp::GratherThan(Some(Type::Integer)))),
    ];
    let code = code_of(vec![function("f", params, Type::Boolean, body)], "f");
    assert_eq!(
        code,
        vec![
            Opcode::LLoad(0),
            Opcode::LLoad(1),
            Opcode::IAdd,
            Opcode::Push(PushOperand::Integer(10)),
            Opcode::ICmpGT,
            Opcode::ReturnTop,
        ]
    );
}

#[test]
fn redeclared_function_replaces_the_earlier_one() {
    let ast = vec![
        function("main", vec![], Type::Void, vec![int_lit(1)]),
        function("main", vec![], Type::Void, vec![int_lit(2)]),
    ];
    let mut generator = CodeGenerator::make();
    let program = generator.gen(ast).unwrap();
    assert_eq!(program.fns.entries.len(), 1);
    assert_eq!(
        program.fns.get("main").unwrap().code.code,
        vec![Opcode::Push(PushOperand::Integer(2)), Opcode::Return]
    );
}

#[test]
fn unresolved_identifier_is_reported() {
    let mut generator = CodeGenerator::make();
    let r = generator.gen(vec![function("main", vec![], Type::Void, vec![expr(Expression::Identifier("x".to_string()))])]);
    assert_eq!(r.err(), Some(GenError::UnresolvedIdentifier));
    let mut generator = CodeGenerator::make();
    let r = generator.gen(vec![function("main", vec![], Type::Void, vec![int_lit(1), Statement::Assignment(None)])]);
    assert_eq!(r.err(), Some(GenError::UnresolvedIdentifier));
}

#[test]
fn missing_type_is_reported() {
    let mut generator = CodeGenerator::make();
    let r = generator.gen(vec![function("main", vec![], Type::Void, vec![expr(Expression::BinaryOp(BinaryOp::Plus(None)))])]);
    assert_eq!(r.err(), Some(GenError::MissingType));
    let mut generator = CodeGenerator::make();
    let r = generator.gen(vec![function("main", vec![], Type::Void, vec![expr(Expression::Return(None))])]);
    assert_eq!(r.err(), Some(GenError::MissingType));
}

#[test]
fn unsupported_type_is_reported() {
    let mut generator = CodeGenerator::make();
    let r = generator.gen(vec![function(
        "main",
        vec![],
        Type::Void,
        vec![expr(Expression::BinaryOp(BinaryOp::GratherThan(Some(Type::String))))],
    )]);
    assert_eq!(r.err(), Some(GenError::UnsupportedType));
}
