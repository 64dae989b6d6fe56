//! One test per error variant of the lowering engine, each driven through
//! the public API on a module that triggers it.

use typhoon::ast::{Expr, FunctionDeclare, Module, ModuleItem, Number, Opcode, Statement,
    StructDetail, Type};
use typhoon::error::TyphoonError;

fn main_fn(ret: &str, stmts: Vec<Statement>) -> ModuleItem {
    ModuleItem::FunctionDeclare(FunctionDeclare::new(
        "main".to_string(),
        vec![],
        Type::new(ret.to_string()),
        Box::new(Expr::Block(stmts, None)),
    ))
}

#[test]
fn undefined_variable_is_reported() {
    let m = Module::new(vec![main_fn(
        "i32",
        vec![Statement::Return(Box::new(Expr::Identifier("ghost_name".to_string())))],
    )]);
    match m.codegen() {
        Err(TyphoonError::UndefinedVariable(n)) => assert_eq!(n, "ghost_name"),
        other => panic!("expected UndefinedVariable, got {other:?}"),
    }
}

#[test]
fn unknown_type_is_reported() {
    let m = Module::new(vec![main_fn(
        "i32",
        vec![
            Statement::Declare(
                "a".to_string(),
                "Mystery".to_string(),
                Box::new(Expr::Number(Number::Integer32(1))),
            ),
            Statement::Return(Box::new(Expr::Number(Number::Integer32(0)))),
        ],
    )]);
    match m.codegen() {
        Err(TyphoonError::UnknownType(n)) => assert_eq!(n, "Mystery"),
        other => panic!("expected UnknownType, got {other:?}"),
    }
}

#[test]
fn declaration_type_mismatch_names_both_types() {
    let m = Module::new(vec![main_fn(
        "i32",
        vec![
            Statement::Declare(
                "a".to_string(),
                "i8".to_string(),
                Box::new(Expr::Number(Number::Integer32(1))),
            ),
            Statement::Return(Box::new(Expr::Number(Number::Integer32(0)))),
        ],
    )]);
    match m.codegen() {
        Err(TyphoonError::TypeMismatch(found, declared)) => {
            assert_eq!(found, "i32");
            assert_eq!(declared, "i8");
        },
        other => panic!("expected TypeMismatch, got {other:?}"),
    }
}

#[test]
fn return_type_mismatch_names_both_types() {
    let m = Module::new(vec![main_fn(
        "i8",
        vec![Statement::Return(Box::new(Expr::Number(Number::Integer32(3))))],
    )]);
    match m.codegen() {
        Err(TyphoonError::TypeMismatch(found, declared)) => {
            assert_eq!(found, "i32");
            assert_eq!(declared, "i8");
        },
        other => panic!("expected TypeMismatch, got {other:?}"),
    }
}

#[test]
fn conditional_branches_must_unify() {
    let m = Module::new(vec![main_fn(
        "i32",
        vec![
            Statement::Declare(
                "x".to_string(),
                "i32".to_string(),
                Box::new(Expr::If {
                    condition: Box::new(Expr::Number(Number::Integer32(1))),
                    then_body: Box::new(Expr::Number(Number::Integer8(1))),
                    else_body: Box::new(Expr::Number(Number::Integer32(2))),
                }),
            ),
            Statement::Return(Box::new(Expr::Number(Number::Integer32(0)))),
        ],
    )]);
    match m.codegen() {
        Err(TyphoonError::TypeMismatch(then_name, else_name)) => {
            assert_eq!(then_name, "i8");
            assert_eq!(else_name, "i32");
        },
        other => panic!("expected TypeMismatch, got {other:?}"),
    }
}

#[test]
fn mixed_type_arithmetic_is_an_invalid_operand() {
    let m = Module::new(vec![main_fn(
        "i32",
        vec![Statement::Return(Box::new(Expr::BinOperation(
            Opcode::Add,
            Box::new(Expr::Number(Number::Integer8(1))),
            Box::new(Expr::Number(Number::Integer32(1))),
        )))],
    )]);
    match m.codegen() {
        Err(TyphoonError::InvalidOperand(op, l, r)) => {
            assert_eq!(op, Opcode::Add);
            assert_eq!(l, "i8");
            assert_eq!(r, "i32");
        },
        other => panic!("expected InvalidOperand, got {other:?}"),
    }
}

#[test]
fn unknown_field_in_struct_literal() {
    let m = Module::new(vec![
        ModuleItem::StructDeclare(StructDetail::new(
            "A".to_string(),
            vec![("inner".to_string(), "i32".to_string())],
        )),
        main_fn(
            "i32",
            vec![
                Statement::Declare(
                    "a".to_string(),
                    "A".to_string(),
                    Box::new(Expr::StructAssign(
                        "A".to_string(),
                        vec![("wrong".to_string(), Expr::Number(Number::Integer32(4)))],
                    )),
                ),
                Statement::Return(Box::new(Expr::Number(Number::Integer32(0)))),
            ],
        ),
    ]);
    match m.codegen() {
        Err(TyphoonError::UnknownField(n)) => assert_eq!(n, "wrong"),
        other => panic!("expected UnknownField, got {other:?}"),
    }
}

#[test]
fn unknown_field_in_field_access() {
    let m = Module::new(vec![
        ModuleItem::StructDeclare(StructDetail::new(
            "A".to_string(),
            vec![("inner".to_string(), "i32".to_string())],
        )),
        main_fn(
            "i32",
            vec![
                Statement::Declare(
                    "a".to_string(),
                    "A".to_string(),
                    Box::new(Expr::StructAssign(
                        "A".to_string(),
                        vec![("inner".to_string(), Expr::Number(Number::Integer32(4)))],
                    )),
                ),
                Statement::Return(Box::new(Expr::Field(
                    Box::new(Expr::Identifier("a".to_string())),
                    "missing".to_string(),
                ))),
            ],
        ),
    ]);
    match m.codegen() {
        Err(TyphoonError::UnknownField(n)) => assert_eq!(n, "missing"),
        other => panic!("expected UnknownField, got {other:?}"),
    }
}

#[test]
fn pow_operator_fails_fast() {
    // Pow is never in a primitive operand table, so it surfaces as an
    // invalid operand even between equal types.
    let m = Module::new(vec![main_fn(
        "i32",
        vec![Statement::Return(Box::new(Expr::BinOperation(
            Opcode::Pow,
            Box::new(Expr::Number(Number::Integer32(2))),
            Box::new(Expr::Number(Number::Integer32(3))),
        )))],
    )]);
    match m.codegen() {
        Err(TyphoonError::InvalidOperand(op, l, r)) => {
            assert_eq!(op, Opcode::Pow);
            assert_eq!(l, "i32");
            assert_eq!(r, "i32");
        },
        other => panic!("expected InvalidOperand, got {other:?}"),
    }
}

#[test]
fn missing_terminal_return_is_a_compile_error() {
    let m = Module::new(vec![ModuleItem::FunctionDeclare(FunctionDeclare::new(
        "main".to_string(),
        vec![],
        Type::new("i32".to_string()),
        Box::new(Expr::Block(vec![], Some(Box::new(Expr::Number(Number::Integer32(1)))))),
    ))]);
    match m.codegen() {
        Err(TyphoonError::CompileError(msg)) => {
            assert_eq!(msg, "function body does not end with a return");
        },
        other => panic!("expected CompileError, got {other:?}"),
    }
}

#[test]
fn negating_an_unsigned_literal_is_rejected() {
    let m = Module::new(vec![main_fn(
        "u8",
        vec![Statement::Return(Box::new(Expr::Negative(Box::new(Number::UnSignInteger8(1)))))],
    )]);
    match m.codegen() {
        Err(TyphoonError::CompileError(msg)) => {
            assert_eq!(msg, "cannot negate an unsigned literal");
        },
        other => panic!("expected CompileError, got {other:?}"),
    }
}

#[test]
fn string_literals_are_rejected() {
    let m = Module::new(vec![main_fn(
        "i32",
        vec![
            Statement::Expr(Box::new(Expr::String("hello".to_string()))),
            Statement::Return(Box::new(Expr::Number(Number::Integer32(0)))),
        ],
    )]);
    match m.codegen() {
        Err(TyphoonError::CompileError(msg)) => {
            assert_eq!(msg, "string literals are not supported");
        },
        other => panic!("expected CompileError, got {other:?}"),
    }
}

#[test]
fn call_arity_is_checked() {
    let m = Module::new(vec![
        ModuleItem::FunctionDeclare(FunctionDeclare::new(
            "three".to_string(),
            vec![],
            Type::new("i32".to_string()),
            Box::new(Expr::Block(
                vec![Statement::Return(Box::new(Expr::Number(Number::Integer32(3))))],
                None,
            )),
        )),
        main_fn(
            "i32",
            vec![Statement::Return(Box::new(Expr::Call(
                "three".to_string(),
                vec![Expr::Number(Number::Integer32(1))],
            )))],
        ),
    ]);
    match m.codegen() {
        Err(TyphoonError::CompileError(msg)) => {
            assert_eq!(msg, "wrong number of arguments");
        },
        other => panic!("expected CompileError, got {other:?}"),
    }
}

#[test]
fn error_kinds_are_stable() {
    assert_eq!(TyphoonError::UndefinedVariable("x".to_string()).kind(), "undefined variable");
    assert_eq!(TyphoonError::UnknownType("T".to_string()).kind(), "unknown type");
    assert_eq!(
        TyphoonError::TypeMismatch("a".to_string(), "b".to_string()).kind(),
        "type mismatch",
    );
    assert_eq!(TyphoonError::UnknownField("f".to_string()).kind(), "unknown field");
    assert_eq!(TyphoonError::CompileError("m".to_string()).kind(), "compile error");
    assert_eq!(TyphoonError::ParserError("p".to_string()).kind(), "parser error");
    assert_eq!(
        TyphoonError::InvalidOperand(Opcode::Add, "a".to_string(), "b".to_string()).kind(),
        "invalid operand",
    );
}
