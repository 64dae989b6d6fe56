//! The library's global laws, stated and proved over the same
//! specifications the executable functions are verified against.

use vstd::prelude::*;
use crate::ast::{Expr, Module, Opcode};
use crate::backend::BuilderV;
use crate::codegen::{s_codegen, s_lower_expr, s_type_of, VariableType};
use crate::context::{CtxV, TypeV, VarBind, s_child_scope, s_lookup_type, s_lookup_type_by_id,
    s_lookup_var, s_new_assign, s_operand_lookup, s_prim_type, s_root_ctx, s_scope_ok,
    s_types_equal, s_types_find, s_vars_find, s_vars_put, s_void_type};
use crate::error::ErrV;

verus! {

/// A lookup from scope `s` sees only scopes whose contents agree between
/// `c` and `c2` (the chain never climbs to an index above `s`), so it gives
/// the same answer in both.
proof fn lemma_lookup_var_frame(c: CtxV, c2: CtxV, s: int, name: Seq<char>)
    requires
        0 <= s < c.scopes.len(),
        s < c2.scopes.len(),
        forall|j: int| 0 <= j <= s ==> c2.scopes[j] == c.scopes[j],
    ensures
        s_lookup_var(c2, s, name) == s_lookup_var(c, s, name),
    decreases s,
{
    match s_vars_find(c.scopes[s].variables, name) {
        Some(_) => {},
        None => {
            match c.scopes[s].upper {
                Some(p) => {
                    if p < s {
                        lemma_lookup_var_frame(c, c2, p as int, name);
                    }
                },
                None => {},
            }
        },
    }
}

/// Scope shadowing: binding `x` in a freshly created child scope leaves the
/// binding observed from the parent scope untouched, while a lookup inside
/// the child sees the child's binding, not the parent's.
pub proof fn lemma_scope_shadowing(c: CtxV, p: usize, name: Seq<char>, bind: VarBind)
    requires
        s_scope_ok(c, p as int),
        c.scopes.len() < usize::MAX,
    ensures
        ({
            let (c1, child) = s_child_scope(c, p, None);
            let c2 = s_new_assign(c1, child as int, name, bind);
            &&& s_lookup_var(c2, child as int, name) == Some(bind)
            &&& s_lookup_var(c2, p as int, name) == s_lookup_var(c, p as int, name)
        }),
{
    let (c1, child) = s_child_scope(c, p, None);
    let c2 = s_new_assign(c1, child as int, name, bind);
    assert(child == c.scopes.len());
    assert(c1.scopes[child as int].variables =~= Seq::<(Seq<char>, VarBind)>::empty());
    assert(c2.scopes[child as int].variables == s_vars_put(
        c1.scopes[child as int].variables,
        name,
        bind,
    ));
    assert(s_vars_put(Seq::<(Seq<char>, VarBind)>::empty(), name, bind) =~= seq![(name, bind)]);
    assert(s_vars_find(seq![(name, bind)], name) == Some(bind));
    assert(s_lookup_var(c2, child as int, name) == Some(bind));
    assert forall|j: int| 0 <= j <= p implies c2.scopes[j] == c.scopes[j] by {
        assert(c1.scopes[j] == c.scopes[j]);
        assert(c2.scopes[j] == c1.scopes[j]);
    };
    lemma_lookup_var_frame(c, c2, p as int, name);
}

/// Nominal type equality: whether two compiled types are the same type
/// depends on their display names alone.  Two independently constructed
/// primitive types with one name (and different ids) are equal; two struct
/// types with identical field tables but different names are not.
pub proof fn lemma_nominal_type_equality(
    name: Seq<char>,
    id1: u64,
    id2: u64,
    st1: TypeV,
    st2: TypeV,
)
    requires
        st1.strukt is Some,
        st2.strukt is Some,
        st1.strukt->Some_0.fields == st2.strukt->Some_0.fields,
        st1.name != st2.name,
    ensures
        s_types_equal(s_prim_type(name, id1), s_prim_type(name, id2)),
        !s_types_equal(st1, st2),
{
}

/// Operand-table closure: in the root context, for every pair of distinct
/// built-in primitive types and for every operator, the left type's operand
/// table has no entry for the right type.  No implicit mixed-type
/// arithmetic ever validates; lowering such an operation raises
/// `InvalidOperand`.
pub proof fn lemma_operand_table_closure(t1: TypeV, t2: TypeV, op: Opcode)
    requires
        s_lookup_type(s_root_ctx(), 0, t1.name) == Some(t1),
        s_lookup_type(s_root_ctx(), 0, t2.name) == Some(t2),
        t1.name != t2.name,
    ensures
        s_operand_lookup(t1.operands, op, t2.type_id) is None,
{
    reveal_with_fuel(s_types_find, 9);
    reveal_with_fuel(s_operand_lookup, 6);
    let types = s_root_ctx().scopes[0].types;
    assert(s_lookup_type(s_root_ctx(), 0, t1.name) == s_types_find(types, t1.name));
    assert(s_lookup_type(s_root_ctx(), 0, t2.name) == s_types_find(types, t2.name));
    assert(t1 == s_void_type() || t1 == s_prim_type("i8"@, 1) || t1 == s_prim_type("i16"@, 2)
        || t1 == s_prim_type("i32"@, 3) || t1 == s_prim_type("u8"@, 4) || t1 == s_prim_type(
        "u16"@,
        5,
    ) || t1 == s_prim_type("u32"@, 6));
    assert(t2 == s_void_type() || t2 == s_prim_type("i8"@, 1) || t2 == s_prim_type("i16"@, 2)
        || t2 == s_prim_type("i32"@, 3) || t2 == s_prim_type("u8"@, 4) || t2 == s_prim_type(
        "u16"@,
        5,
    ) || t2 == s_prim_type("u32"@, 6));
    assert(t1.type_id != t2.type_id);
}

/// Conditional unification: an `if` whose branches resolve to nominally
/// different types fails lowering with `TypeMismatch` carrying the two type
/// names — and does so before one instruction of the condition or of either
/// branch is emitted: the builder comes back unchanged.
pub proof fn lemma_conditional_unification(
    c: CtxV,
    s: int,
    bv: BuilderV,
    condition: Box<Expr>,
    then_body: Box<Expr>,
    else_body: Box<Expr>,
    tt: u64,
    et: u64,
    ttv: TypeV,
    etv: TypeV,
)
    requires
        s_type_of(c, s, Seq::empty(), *then_body) == Ok::<u64, ErrV>(tt),
        s_type_of(c, s, Seq::empty(), *else_body) == Ok::<u64, ErrV>(et),
        s_lookup_type_by_id(c, s, tt) == Some(ttv),
        s_lookup_type_by_id(c, s, et) == Some(etv),
        !s_types_equal(ttv, etv),
    ensures
        ({
            let o = s_lower_expr(c, s, bv, Expr::If { condition, then_body, else_body });
            &&& o.b == bv
            &&& o.ctx == c
            &&& o.res == Err::<VariableType, ErrV>(ErrV::TypeMismatch(ttv.name, etv.name))
        }),
{
}

/// Idempotence of lowering: the backend module is a function of the module
/// value alone — every run starts from a fresh root scope, so lowering two
/// modules with the same items (in particular, the same module twice)
/// yields the same result.
pub proof fn lemma_lowering_deterministic(m1: Module, m2: Module)
    requires
        m1.items@ == m2.items@,
    ensures
        s_codegen(m1) == s_codegen(m2),
{
}

} // verus!
