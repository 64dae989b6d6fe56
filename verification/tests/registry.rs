//! Tests of the scoped registry: shadowing, nominal type equality, the
//! operand tables of the built-in primitives, and the sorted field tables
//! of struct declarations.

use typhoon::ast::{Opcode, StructDetail};
use typhoon::ast::str_lt;
use typhoon::backend::ValueId;
use typhoon::context::{CompiledType, TyphoonContext};

#[test]
fn shadowing_in_child_scope_leaves_parent_binding() {
    let mut ctx = TyphoonContext::new();
    ctx.new_assign(0, "x".to_string(), ValueId::Void, 3);
    let child = ctx.new_with_upper(0, None);
    ctx.new_assign(child, "x".to_string(), ValueId::Inst(0, 0), 5);
    // Inside the child, the child's binding is seen.
    let inner = ctx.get_variable(child, &"x".to_string()).expect("x must resolve");
    assert_eq!(inner.type_id, 5);
    assert_eq!(inner.storage, ValueId::Inst(0, 0));
    // Observed from the parent, the binding is untouched.
    let outer = ctx.get_variable(0, &"x".to_string()).expect("x must resolve");
    assert_eq!(outer.type_id, 3);
    assert_eq!(outer.storage, ValueId::Void);
}

#[test]
fn lookup_tunnels_through_child_scope() {
    let mut ctx = TyphoonContext::new();
    ctx.new_assign(0, "y".to_string(), ValueId::Void, 2);
    let child = ctx.new_with_upper(0, None);
    let seen = ctx.get_variable(child, &"y".to_string()).expect("y must resolve");
    assert_eq!(seen.type_id, 2);
    // Re-binding in the same scope overwrites.
    ctx.new_assign(0, "y".to_string(), ValueId::Void, 9);
    let seen2 = ctx.get_variable(0, &"y".to_string()).expect("y must resolve");
    assert_eq!(seen2.type_id, 9);
}

#[test]
fn primitive_types_with_same_name_compare_equal() {
    let a = CompiledType { name: "i8".to_string(), type_id: 1, operands: vec![], strukt: None };
    let b = CompiledType { name: "i8".to_string(), type_id: 99, operands: vec![], strukt: None };
    assert!(a.equals(&b));
}

#[test]
fn structs_with_same_fields_but_different_names_compare_unequal() {
    let fields = vec![("inner".to_string(), "i32".to_string())];
    let mut ctx = TyphoonContext::new();
    let da = StructDetail::new("A".to_string(), fields.clone());
    let db = StructDetail::new("B".to_string(), fields);
    ctx.define_struct(0, da, 0).expect("define A");
    ctx.define_struct(0, db, 1).expect("define B");
    let ta = ctx.get_type_from_name(0, &"A".to_string()).expect("A registered").clone();
    let tb = ctx.get_type_from_name(0, &"B".to_string()).expect("B registered").clone();
    assert!(!ta.equals(&tb));
    assert!(ta.equals(&ta));
}

#[test]
fn operand_tables_are_closed_over_distinct_primitives() {
    let ctx = TyphoonContext::new();
    let names = ["i8", "i16", "i32", "u8", "u16", "u32"];
    let ops = [
        Opcode::Add,
        Opcode::Sub,
        Opcode::Mul,
        Opcode::Div,
        Opcode::Mod,
        Opcode::Pow,
        Opcode::Or,
        Opcode::And,
        Opcode::Xor,
        Opcode::LShift,
        Opcode::RShift,
    ];
    for left in names {
        let lt = ctx.get_type_from_name(0, &left.to_string()).expect("primitive registered");
        let l_ops: Vec<_> = lt.operands.clone();
        let l_id = lt.type_id;
        for right in names {
            let rt = ctx.get_type_from_name(0, &right.to_string()).expect("primitive registered");
            let r_id = rt.type_id;
            let probe = CompiledType {
                name: left.to_string(),
                type_id: l_id,
                operands: l_ops.clone(),
                strukt: None,
            };
            for op in ops {
                let entry = probe.get_operand_type(op, r_id);
                if left == right && matches!(op, Opcode::Add | Opcode::Sub | Opcode::Mul | Opcode::Div) {
                    assert_eq!(entry, Some(l_id), "{left} {op:?} {right} must be allowed");
                } else {
                    assert_eq!(entry, None, "{left} {op:?} {right} must be rejected");
                }
            }
        }
    }
}

#[test]
fn struct_detail_sorts_fields_by_name() {
    let d = StructDetail::new(
        "P".to_string(),
        vec![
            ("y".to_string(), "i32".to_string()),
            ("x".to_string(), "i32".to_string()),
            ("a".to_string(), "i8".to_string()),
        ],
    );
    let names: Vec<&str> = d.fields.iter().map(|p| p.0.as_str()).collect();
    assert_eq!(names, vec!["a", "x", "y"]);
}

#[test]
fn struct_detail_keeps_later_duplicate() {
    let d = StructDetail::new(
        "P".to_string(),
        vec![
            ("x".to_string(), "i8".to_string()),
            ("x".to_string(), "i32".to_string()),
        ],
    );
    assert_eq!(d.fields.len(), 1);
    assert_eq!(d.fields[0].0, "x");
    assert_eq!(d.fields[0].1, "i32");
}

#[test]
fn string_order_is_lexicographic() {
    assert!(str_lt(&"a".to_string(), &"b".to_string()));
    assert!(str_lt(&"a".to_string(), &"ab".to_string()));
    assert!(!str_lt(&"b".to_string(), &"ab".to_string()));
    assert!(!str_lt(&"x".to_string(), &"x".to_string()));
    assert!(str_lt(&"".to_string(), &"a".to_string()));
}
