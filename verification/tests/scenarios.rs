//! End-to-end scenarios: build a module, lower it, and execute the backend
//! instruction model with a small interpreter, checking the value the
//! program's `main` returns (the process exit code a native build would
//! produce).

use std::collections::HashMap;

use typhoon::ast::{Expr, FunctionDeclare, Module, ModuleItem, Number, Statement, StructDetail,
    Type};
use typhoon::backend::{BType, BackendModule, BinKind, Inst, ValueId};

fn get(vals: &HashMap<(usize, usize), u64>, v: &ValueId) -> u64 {
    match v {
        ValueId::Void => 0,
        ValueId::Inst(bb, k) => *vals.get(&(*bb, *k)).expect("use of an undefined value"),
    }
}

fn bin(kind: &BinKind, x: u64, y: u64) -> u64 {
    match kind {
        BinKind::Add => x.wrapping_add(y),
        BinKind::Sub => x.wrapping_sub(y),
        BinKind::Mul => x.wrapping_mul(y),
        BinKind::SDiv => ((x as i64).wrapping_div(y as i64)) as u64,
        BinKind::And => x & y,
        BinKind::Or => x | y,
        BinKind::Xor => x ^ y,
        BinKind::Shl => x.wrapping_shl(y as u32),
        BinKind::AShr => ((x as i64).wrapping_shr(y as u32)) as u64,
    }
}

fn exec_fun(m: &BackendModule, fi: usize, args: &[u64]) -> u64 {
    let f = &m.functions[fi];
    // The engine does not bind parameters to locals (functions in the test
    // programs take no arguments), so the argument values are unused here.
    let _ = args;
    let mut vals: HashMap<(usize, usize), u64> = HashMap::new();
    let mut mem: Vec<u64> = Vec::new();
    let mut cur: usize = 0;
    let mut pred: usize = usize::MAX;
    loop {
        let block = &f.blocks[cur];
        let mut next: Option<usize> = None;
        for (k, inst) in block.iter().enumerate() {
            let id = (cur, k);
            match inst {
                Inst::Bin(kind, a, b) => {
                    let x = get(&vals, a);
                    let y = get(&vals, b);
                    vals.insert(id, bin(kind, x, y));
                },
                Inst::ICmpNe(a, b) => {
                    let r = if get(&vals, a) != get(&vals, b) { 1 } else { 0 };
                    vals.insert(id, r);
                },
                Inst::ConstInt { ty: _, value } => {
                    vals.insert(id, *value);
                },
                Inst::Alloca(ty) => {
                    let n = match ty {
                        BType::Struct(si) => m.structs[*si].field_types.len().max(1),
                        _ => 1,
                    };
                    let addr = mem.len() as u64;
                    for _ in 0..n {
                        mem.push(0);
                    }
                    vals.insert(id, addr);
                },
                Inst::Store { value, ptr } => {
                    let a = get(&vals, ptr) as usize;
                    mem[a] = get(&vals, value);
                },
                Inst::Load { ptr } => {
                    let a = get(&vals, ptr) as usize;
                    vals.insert(id, mem[a]);
                },
                Inst::Gep { ptr, field } => {
                    let a = get(&vals, ptr);
                    vals.insert(id, a + *field as u64);
                },
                Inst::Br(bb) => {
                    pred = cur;
                    next = Some(*bb);
                    break;
                },
                Inst::CondBr { cond, then_block, else_block } => {
                    pred = cur;
                    next = Some(if get(&vals, cond) != 0 { *then_block } else { *else_block });
                    break;
                },
                Inst::Phi { ty: _, then_value, then_block, else_value, else_block: _ } => {
                    let v = if pred == *then_block {
                        get(&vals, then_value)
                    } else {
                        get(&vals, else_value)
                    };
                    vals.insert(id, v);
                },
                Inst::Call { callee, args } => {
                    let a: Vec<u64> = args.iter().map(|x| get(&vals, x)).collect();
                    let r = exec_fun(m, *callee, &a);
                    vals.insert(id, r);
                },
                Inst::Ret(v) => {
                    return get(&vals, v);
                },
                Inst::RetVoid => {
                    return 0;
                },
            }
        }
        match next {
            Some(nb) => cur = nb,
            None => panic!("basic block fell through without a terminator"),
        }
    }
}

fn run_main(m: &BackendModule) -> u64 {
    let fi = m
        .functions
        .iter()
        .position(|f| f.name == "main")
        .expect("module has no main function");
    exec_fun(m, fi, &[])
}

fn main_fn(ret: &str, stmts: Vec<Statement>) -> ModuleItem {
    ModuleItem::FunctionDeclare(FunctionDeclare::new(
        "main".to_string(),
        vec![],
        Type::new(ret.to_string()),
        Box::new(Expr::Block(stmts, None)),
    ))
}

fn lower(m: &Module) -> BackendModule {
    m.codegen().expect("lowering failed")
}

#[test]
fn return_constant_i8() {
    let m = Module::new(vec![main_fn(
        "i8",
        vec![Statement::Return(Box::new(Expr::Number(Number::Integer8(1))))],
    )]);
    assert_eq!(run_main(&lower(&m)), 1);
}

#[test]
fn return_constant_i32() {
    let m = Module::new(vec![main_fn(
        "i32",
        vec![Statement::Return(Box::new(Expr::Number(Number::Integer32(3))))],
    )]);
    assert_eq!(run_main(&lower(&m)), 3);
}

#[test]
fn return_i32_from_variable_assigned() {
    let m = Module::new(vec![main_fn(
        "i32",
        vec![
            Statement::Declare(
                "a".to_string(),
                "i32".to_string(),
                Box::new(Expr::Number(Number::Integer32(10))),
            ),
            Statement::Return(Box::new(Expr::Identifier("a".to_string()))),
        ],
    )]);
    assert_eq!(run_main(&lower(&m)), 10);
}

#[test]
fn return_i32_from_variable_assigned_multiple() {
    let m = Module::new(vec![main_fn(
        "i32",
        vec![
            Statement::Declare(
                "a".to_string(),
                "i32".to_string(),
                Box::new(Expr::Number(Number::Integer32(10))),
            ),
            Statement::Declare(
                "b".to_string(),
                "i32".to_string(),
                Box::new(Expr::Identifier("a".to_string())),
            ),
            Statement::Return(Box::new(Expr::Identifier("b".to_string()))),
        ],
    )]);
    assert_eq!(run_main(&lower(&m)), 10);
}

#[test]
fn load_struct_value_as_return_code() {
    let m = Module::new(vec![
        ModuleItem::StructDeclare(StructDetail::new(
            "A".to_string(),
            vec![("inner".to_string(), "i32".to_string())],
        )),
        main_fn(
            "i32",
            vec![
                Statement::Declare(
                    "a".to_string(),
                    "A".to_string(),
                    Box::new(Expr::StructAssign(
                        "A".to_string(),
                        vec![("inner".to_string(), Expr::Number(Number::Integer32(4)))],
                    )),
                ),
                Statement::Return(Box::new(Expr::Field(
                    Box::new(Expr::Identifier("a".to_string())),
                    "inner".to_string(),
                ))),
            ],
        ),
    ]);
    assert_eq!(run_main(&lower(&m)), 4);
}

#[test]
fn load_nested_struct_value_as_return_code() {
    let m = Module::new(vec![
        ModuleItem::StructDeclare(StructDetail::new(
            "A".to_string(),
            vec![("inner".to_string(), "i32".to_string())],
        )),
        ModuleItem::StructDeclare(StructDetail::new(
            "B".to_string(),
            vec![("inner".to_string(), "A".to_string())],
        )),
        main_fn(
            "i32",
            vec![
                Statement::Declare(
                    "a".to_string(),
                    "A".to_string(),
                    Box::new(Expr::StructAssign(
                        "A".to_string(),
                        vec![("inner".to_string(), Expr::Number(Number::Integer32(4)))],
                    )),
                ),
                Statement::Declare(
                    "b".to_string(),
                    "B".to_string(),
                    Box::new(Expr::StructAssign(
                        "B".to_string(),
                        vec![("inner".to_string(), Expr::Identifier("a".to_string()))],
                    )),
                ),
                Statement::Return(Box::new(Expr::Field(
                    Box::new(Expr::Field(
                        Box::new(Expr::Identifier("b".to_string())),
                        "inner".to_string(),
                    )),
                    "inner".to_string(),
                ))),
            ],
        ),
    ]);
    assert_eq!(run_main(&lower(&m)), 4);
}

#[test]
fn arithmetic_on_same_type_operands() {
    // 2 + 3 * 4 built as 2i32 + (3i32 * 4i32).
    let m = Module::new(vec![main_fn(
        "i32",
        vec![Statement::Return(Box::new(Expr::BinOperation(
            typhoon::ast::Opcode::Add,
            Box::new(Expr::Number(Number::Integer32(2))),
            Box::new(Expr::BinOperation(
                typhoon::ast::Opcode::Mul,
                Box::new(Expr::Number(Number::Integer32(3))),
                Box::new(Expr::Number(Number::Integer32(4))),
            )),
        )))],
    )]);
    assert_eq!(run_main(&lower(&m)), 14);
}

#[test]
fn if_selects_then_branch() {
    let m = Module::new(vec![main_fn(
        "i32",
        vec![
            Statement::Declare(
                "c".to_string(),
                "i32".to_string(),
                Box::new(Expr::Number(Number::Integer32(1))),
            ),
            Statement::Return(Box::new(Expr::If {
                condition: Box::new(Expr::Identifier("c".to_string())),
                then_body: Box::new(Expr::Number(Number::Integer32(10))),
                else_body: Box::new(Expr::Number(Number::Integer32(20))),
            })),
        ],
    )]);
    assert_eq!(run_main(&lower(&m)), 10);
}

#[test]
fn if_selects_else_branch_on_zero() {
    let m = Module::new(vec![main_fn(
        "i32",
        vec![
            Statement::Declare(
                "c".to_string(),
                "i32".to_string(),
                Box::new(Expr::Number(Number::Integer32(0))),
            ),
            Statement::Return(Box::new(Expr::If {
                condition: Box::new(Expr::Identifier("c".to_string())),
                then_body: Box::new(Expr::Number(Number::Integer32(10))),
                else_body: Box::new(Expr::Number(Number::Integer32(20))),
            })),
        ],
    )]);
    assert_eq!(run_main(&lower(&m)), 20);
}

#[test]
fn call_of_declared_function() {
    // fn three() -> i32 { return 3; } fn main() -> i32 { return three(); }
    let m = Module::new(vec![
        ModuleItem::FunctionDeclare(FunctionDeclare::new(
            "three".to_string(),
            vec![],
            Type::new("i32".to_string()),
            Box::new(Expr::Block(
                vec![Statement::Return(Box::new(Expr::Number(Number::Integer32(3))))],
                None,
            )),
        )),
        main_fn(
            "i32",
            vec![Statement::Return(Box::new(Expr::Call("three".to_string(), vec![])))],
        ),
    ]);
    assert_eq!(run_main(&lower(&m)), 3);
}

#[test]
fn lowering_twice_gives_identical_modules() {
    let build = || {
        Module::new(vec![
            ModuleItem::StructDeclare(StructDetail::new(
                "A".to_string(),
                vec![("inner".to_string(), "i32".to_string())],
            )),
            main_fn(
                "i32",
                vec![
                    Statement::Declare(
                        "a".to_string(),
                        "A".to_string(),
                        Box::new(Expr::StructAssign(
                            "A".to_string(),
                            vec![("inner".to_string(), Expr::Number(Number::Integer32(7)))],
                        )),
                    ),
                    Statement::Return(Box::new(Expr::Field(
                        Box::new(Expr::Identifier("a".to_string())),
                        "inner".to_string(),
                    ))),
                ],
            ),
        ])
    };
    let m = build();
    let first = m.codegen().expect("lowering failed");
    let second = m.codegen().expect("lowering failed");
    assert_eq!(first, second);
    // A separately built, equal module lowers to the same backend module.
    let other = build().codegen().expect("lowering failed");
    assert_eq!(first, other);
}
