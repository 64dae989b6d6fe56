//! The lowering engine: from the abstract syntax tree to the backend
//! instruction model.
//!
//! Every function here is pinned down by a functional specification (the
//! `s_*` spec functions): the exec code must produce exactly the context,
//! builder and result that the specification names.  Because the
//! specification is a function of the module value alone, lowering the same
//! module twice yields view-identical backend modules.

use vstd::prelude::*;
use crate::ast::{Expr, Identifier, Number, Opcode, Statement, StructDetail, TypeName, FunctionDeclare,
    Module, ModuleItem};
use crate::backend::{BType, BinKind, Builder, BuilderV, Inst, InstV, ModuleV, ValueId,
    s_add_function, s_append_basic_block, s_define_struct_type, s_emit, BackendModule};
use crate::context::{CtxV, FunRef, FunSig, FunSigV, StructInfoV, TyphoonContext, TypeV, VarBind,
    s_define_struct, s_bind_function, s_child_scope, s_enclosing_function, s_field_idx,
    s_generate_type, s_lookup_fun, s_lookup_type, s_lookup_type_by_id, s_lookup_var,
    s_new_assign, s_operand_lookup, s_root_ctx};
use crate::error::{ErrV, TyphoonError};

verus! {

// ---------------------------------------------------------------------------
// The value model.
// ---------------------------------------------------------------------------

/// How a lowered expression's result is represented: either a ready-to-use
/// immediate value, or an addressable storage location that must be loaded
/// before use.
#[derive(Debug, PartialEq, Eq, Clone, Copy, Structural)]
pub enum VariableType {
    /// An immediate value.
    Literal(ValueId),
    /// A storage handle; a load is required to obtain the stored value.
    Ptr(ValueId),
}

/// The handle inside a value, unchanged — an immediate stays itself, an
/// addressable value yields its storage handle without a load.
pub open spec fn s_unwrap(v: VariableType) -> ValueId {
    match v {
        VariableType::Literal(x) => x,
        VariableType::Ptr(x) => x,
    }
}

/// Materialization: an immediate passes through; an addressable value is
/// loaded.
pub open spec fn s_get_value(bv: BuilderV, v: VariableType) -> (BuilderV, ValueId) {
    match v {
        VariableType::Literal(x) => (bv, x),
        VariableType::Ptr(p) => s_emit(bv, InstV::Load { ptr: p }),
    }
}

impl VariableType {
    /// The inner handle, with no load: used exactly where the caller wants
    /// the address itself (field access bases and struct-local aliasing).
    pub fn unwrap(self) -> (r: ValueId)
        ensures
            r == s_unwrap(self),
    {
        match self {
            VariableType::Literal(x) => x,
            VariableType::Ptr(x) => x,
        }
    }

    /// Materializes the value: emits a load for an addressable value,
    /// passes an immediate through unchanged.
    pub fn get_value(self, b: &mut Builder) -> (r: ValueId)
        requires
            old(b)@.is_positioned(),
        ensures
            (final(b)@, r) == s_get_value(old(b)@, self),
            final(b)@.is_positioned(),
            final(b)@.cur == old(b)@.cur,
            final(b)@.module.functions.len() == old(b)@.module.functions.len(),
    {
        match self {
            VariableType::Literal(x) => x,
            VariableType::Ptr(p) => b.emit(Inst::Load { ptr: p }),
        }
    }
}

// ---------------------------------------------------------------------------
// Numeric literals.
// ---------------------------------------------------------------------------

/// The name of the built-in type a literal belongs to.
pub open spec fn s_number_type_name(n: Number) -> Seq<char> {
    match n {
        Number::Integer8(_) => "i8"@,
        Number::Integer16(_) => "i16"@,
        Number::Integer32(_) => "i32"@,
        Number::UnSignInteger8(_) => "u8"@,
        Number::UnSignInteger16(_) => "u16"@,
        Number::UnSignInteger32(_) => "u32"@,
    }
}

/// The backend integer type of a literal.
pub open spec fn s_number_btype(n: Number) -> BType {
    match n {
        Number::Integer8(_) => BType::Int { width: 8, signed: true },
        Number::Integer16(_) => BType::Int { width: 16, signed: true },
        Number::Integer32(_) => BType::Int { width: 32, signed: true },
        Number::UnSignInteger8(_) => BType::Int { width: 8, signed: false },
        Number::UnSignInteger16(_) => BType::Int { width: 16, signed: false },
        Number::UnSignInteger32(_) => BType::Int { width: 32, signed: false },
    }
}

/// The literal's two's-complement bits, sign-extended to 64 bits.
pub open spec fn s_number_value(n: Number) -> u64 {
    match n {
        Number::Integer8(v) => v as u64,
        Number::Integer16(v) => v as u64,
        Number::Integer32(v) => v as u64,
        Number::UnSignInteger8(v) => v as u64,
        Number::UnSignInteger16(v) => v as u64,
        Number::UnSignInteger32(v) => v as u64,
    }
}

/// The constant emitted for a literal.
pub open spec fn s_number_codegen(bv: BuilderV, n: Number) -> (BuilderV, ValueId) {
    s_emit(bv, InstV::ConstInt { ty: s_number_btype(n), value: s_number_value(n) })
}

impl Number {
    /// The name of the built-in type this literal belongs to.
    pub fn builtin_name(&self) -> (r: &'static str)
        ensures
            r@ == s_number_type_name(*self),
    {
        match self {
            Number::Integer8(_) => "i8",
            Number::Integer16(_) => "i16",
            Number::Integer32(_) => "i32",
            Number::UnSignInteger8(_) => "u8",
            Number::UnSignInteger16(_) => "u16",
            Number::UnSignInteger32(_) => "u32",
        }
    }

    /// Emits the literal as a typed immediate constant.
    pub fn codegen(&self, b: &mut Builder) -> (r: ValueId)
        requires
            old(b)@.is_positioned(),
        ensures
            (final(b)@, r) == s_number_codegen(old(b)@, *self),
            final(b)@.is_positioned(),
            final(b)@.cur == old(b)@.cur,
    {
        let (ty, value): (BType, u64) = match self {
            Number::Integer8(v) => (BType::Int { width: 8, signed: true }, *v as u64),
            Number::Integer16(v) => (BType::Int { width: 16, signed: true }, *v as u64),
            Number::Integer32(v) => (BType::Int { width: 32, signed: true }, *v as u64),
            Number::UnSignInteger8(v) => (BType::Int { width: 8, signed: false }, *v as u64),
            Number::UnSignInteger16(v) => (BType::Int { width: 16, signed: false }, *v as u64),
            Number::UnSignInteger32(v) => (BType::Int { width: 32, signed: false }, *v as u64),
        };
        b.emit(Inst::ConstInt { ty, value })
    }
}

// ---------------------------------------------------------------------------
// The pure type checker.
// ---------------------------------------------------------------------------

/// The ghost image of the local overlay used while typing block bodies.
pub open spec fn locals_view(l: Seq<(String, u64)>) -> Seq<(Seq<char>, u64)> {
    l.map_values(|p: (String, u64)| (p.0@, p.1))
}

/// The most recent overlay binding for `name`.
pub open spec fn s_locals_find(locals: Seq<(Seq<char>, u64)>, name: Seq<char>) -> Option<u64>
    decreases locals.len(),
{
    if locals.len() == 0 {
        None
    } else if locals.last().0 == name {
        Some(locals.last().1)
    } else {
        s_locals_find(locals.drop_last(), name)
    }
}

/// The type id a variable name resolves to: the overlay first (most recent
/// binding wins), then the scope chain.
pub open spec fn s_var_type_id(
    c: CtxV,
    s: int,
    locals: Seq<(Seq<char>, u64)>,
    name: Seq<char>,
) -> Option<u64> {
    match s_locals_find(locals, name) {
        Some(tid) => Some(tid),
        None => match s_lookup_var(c, s, name) {
            Some(b) => Some(b.type_id),
            None => None,
        },
    }
}

/// The overlay after simulating the declarations of a statement list (the
/// only statements that affect what a block's trailing expression sees).
pub open spec fn s_block_locals(
    c: CtxV,
    s: int,
    locals: Seq<(Seq<char>, u64)>,
    stmts: Seq<Statement>,
) -> Result<Seq<(Seq<char>, u64)>, ErrV>
    decreases stmts.len(),
{
    if stmts.len() == 0 {
        Ok(locals)
    } else {
        match stmts[0] {
            Statement::Declare(name, tyname, _) => match s_lookup_type(c, s, tyname@) {
                Some(t) => s_block_locals(
                    c,
                    s,
                    locals.push((name@, t.type_id)),
                    stmts.subrange(1, stmts.len() as int),
                ),
                None => Err(ErrV::UnknownType(tyname@)),
            },
            _ => s_block_locals(c, s, locals, stmts.subrange(1, stmts.len() as int)),
        }
    }
}

/// The static type of an expression — the id of the type a successful
/// lowering of `e` would produce — computed without side effects.
pub open spec fn s_type_of(
    c: CtxV,
    s: int,
    locals: Seq<(Seq<char>, u64)>,
    e: Expr,
) -> Result<u64, ErrV>
    decreases e,
{
    match e {
        Expr::Number(n) => match s_lookup_type(c, s, s_number_type_name(n)) {
            Some(t) => Ok(t.type_id),
            None => Err(ErrV::UnknownType(s_number_type_name(n))),
        },
        Expr::Negative(n) => match *n {
            Number::Integer8(_) | Number::Integer16(_) | Number::Integer32(_) => match
                s_lookup_type(c, s, s_number_type_name(*n)) {
                Some(t) => Ok(t.type_id),
                None => Err(ErrV::UnknownType(s_number_type_name(*n))),
            },
            _ => Err(ErrV::CompileError("cannot negate an unsigned literal"@)),
        },
        Expr::Identifier(name) => match s_var_type_id(c, s, locals, name@) {
            Some(tid) => Ok(tid),
            None => Err(ErrV::UndefinedVariable(name@)),
        },
        Expr::BinOperation(op, lhs, rhs) => match s_type_of(c, s, locals, *lhs) {
            Err(e1) => Err(e1),
            Ok(lt) => match s_type_of(c, s, locals, *rhs) {
                Err(e2) => Err(e2),
                Ok(rt) => match s_lookup_type_by_id(c, s, lt) {
                    None => Err(ErrV::CompileError("unresolved type id"@)),
                    Some(ltv) => match s_lookup_type_by_id(c, s, rt) {
                        None => Err(ErrV::CompileError("unresolved type id"@)),
                        Some(rtv) => match s_operand_lookup(ltv.operands, op, rt) {
                            Some(res) => Ok(res),
                            None => Err(ErrV::InvalidOperand(op, ltv.name, rtv.name)),
                        },
                    },
                },
            },
        },
        Expr::If { condition: _, then_body, else_body } => match s_type_of(
            c,
            s,
            locals,
            *then_body,
        ) {
            Err(e1) => Err(e1),
            Ok(tt) => match s_type_of(c, s, locals, *else_body) {
                Err(e2) => Err(e2),
                Ok(et) => match s_lookup_type_by_id(c, s, tt) {
                    None => Err(ErrV::CompileError("unresolved type id"@)),
                    Some(ttv) => match s_lookup_type_by_id(c, s, et) {
                        None => Err(ErrV::CompileError("unresolved type id"@)),
                        Some(etv) => if ttv.name == etv.name {
                            Ok(tt)
                        } else {
                            Err(ErrV::TypeMismatch(ttv.name, etv.name))
                        },
                    },
                },
            },
        },
        Expr::Field(base, field) => match s_type_of(c, s, locals, *base) {
            Err(e1) => Err(e1),
            Ok(bt) => match s_lookup_type_by_id(c, s, bt) {
                None => Err(ErrV::CompileError("unresolved type id"@)),
                Some(btv) => match btv.strukt {
                    None => Err(ErrV::UnknownField(field@)),
                    Some(info) => match s_field_idx(info.fields, field@) {
                        None => Err(ErrV::UnknownField(field@)),
                        Some(i) => match s_lookup_type(c, s, info.fields[i].1) {
                            Some(ft) => Ok(ft.type_id),
                            None => Err(ErrV::UnknownType(info.fields[i].1)),
                        },
                    },
                },
            },
        },
        Expr::StructAssign(name, _) => match s_lookup_type(c, s, name@) {
            Some(t) => Ok(t.type_id),
            None => Err(ErrV::UnknownType(name@)),
        },
        Expr::Call(name, _) => match s_lookup_fun(c, s, name@) {
            Some(sig) => Ok(sig.ret_type_id),
            None => Err(ErrV::UndefinedVariable(name@)),
        },
        Expr::Block(stmts, tail) => match s_block_locals(c, s, locals, stmts@) {
            Err(e1) => Err(e1),
            Ok(locals2) => match tail {
                Some(te) => s_type_of(c, s, locals2, *te),
                None => match s_lookup_type(c, s, ""@) {
                    Some(t) => Ok(t.type_id),
                    None => Err(ErrV::UnknownType(""@)),
                },
            },
        },
        Expr::Group(inner) => s_type_of(c, s, locals, *inner),
        Expr::String(_) => Err(ErrV::CompileError("string literals are not supported"@)),
    }
}

fn find_local(locals: &Vec<(String, u64)>, name: &String) -> (r: Option<u64>)
    ensures
        r == s_locals_find(locals_view(locals@), name@),
{
    let ghost all = locals_view(locals@);
    proof {
        assert(all.take(locals@.len() as int) =~= all);
    }
    let mut j: usize = locals.len();
    while j > 0
        invariant
            0 <= j <= locals.len(),
            all == locals_view(locals@),
            all.len() == locals.len(),
            s_locals_find(all, name@) == s_locals_find(all.take(j as int), name@),
        decreases j,
    {
        j = j - 1;
        let ghost pre = all.take(j + 1);
        proof {
            assert(pre.last() == all[j as int]);
            assert(pre.drop_last() =~= all.take(j as int));
        }
        if locals[j].0.eq(name) {
            return Some(locals[j].1);
        }
    }
    proof {
        assert(all.take(0int).len() == 0);
    }
    None
}

impl Expr {
    /// The static type of this expression in the given scope — the exec
    /// counterpart of [`s_type_of`] with an empty overlay.
    pub fn get_type(&self, ctx: &TyphoonContext, scope: usize) -> (r: Result<u64, TyphoonError>)
        ensures
            match r {
                Ok(tid) => s_type_of(ctx@, scope as int, Seq::empty(), *self) == Ok::<u64, ErrV>(
                    tid,
                ),
                Err(e) => s_type_of(ctx@, scope as int, Seq::empty(), *self) == Err::<u64, ErrV>(
                    e@,
                ),
            },
    {
        let mut locals: Vec<(String, u64)> = Vec::new();
        proof {
            assert(locals_view(locals@) =~= Seq::<(Seq<char>, u64)>::empty());
        }
        get_type_in(ctx, scope, &mut locals, self)
    }
}

/// The exec type checker, threading the block-local overlay.
#[verifier::loop_isolation(false)]
fn get_type_in(ctx: &TyphoonContext, scope: usize, locals: &mut Vec<(String, u64)>, e: &Expr) -> (r:
    Result<u64, TyphoonError>)
    ensures
        final(locals)@ == old(locals)@,
        match r {
            Ok(tid) => s_type_of(ctx@, scope as int, locals_view(old(locals)@), *e) == Ok::<
                u64,
                ErrV,
            >(tid),
            Err(e2) => s_type_of(ctx@, scope as int, locals_view(old(locals)@), *e) == Err::<
                u64,
                ErrV,
            >(e2@),
        },
    decreases e,
{
    match e {
        Expr::Number(n) => match ctx.get_type_from_name(scope, &String::from_str(n.builtin_name())) {
            Some(t) => Ok(t.type_id),
            None => Err(TyphoonError::UnknownType(String::from_str(n.builtin_name()))),
        },
        Expr::Negative(n) => {
            let is_signed = match **n {
                Number::Integer8(_) | Number::Integer16(_) | Number::Integer32(_) => true,
                _ => false,
            };
            if is_signed {
                match ctx.get_type_from_name(scope, &String::from_str(n.builtin_name())) {
                    Some(t) => Ok(t.type_id),
                    None => Err(TyphoonError::UnknownType(String::from_str(n.builtin_name()))),
                }
            } else {
                Err(
                    TyphoonError::CompileError(
                        String::from_str("cannot negate an unsigned literal"),
                    ),
                )
            }
        },
        Expr::Identifier(name) => match find_local(locals, name) {
            Some(tid) => Ok(tid),
            None => match ctx.get_variable(scope, name) {
                Some(b) => Ok(b.type_id),
                None => Err(TyphoonError::UndefinedVariable(name.clone())),
            },
        },
        Expr::BinOperation(op, lhs, rhs) => {
            let lt = match get_type_in(ctx, scope, locals, lhs) {
                Ok(lt) => lt,
                Err(e1) => { return Err(e1); },
            };
            let rt = match get_type_in(ctx, scope, locals, rhs) {
                Ok(rt) => rt,
                Err(e2) => { return Err(e2); },
            };
            let ltv = match ctx.get_type_from_id(scope, lt) {
                Some(t) => t,
                None => { return Err(TyphoonError::CompileError(String::from_str("unresolved type id"))); },
            };
            let rtv = match ctx.get_type_from_id(scope, rt) {
                Some(t) => t,
                None => { return Err(TyphoonError::CompileError(String::from_str("unresolved type id"))); },
            };
            match ltv.get_operand_type(*op, rt) {
                Some(res) => Ok(res),
                None => Err(
                    TyphoonError::InvalidOperand(*op, ltv.name.clone(), rtv.name.clone()),
                ),
            }
        },
        Expr::If { condition: _, then_body, else_body } => {
            let tt = match get_type_in(ctx, scope, locals, then_body) {
                Ok(tt) => tt,
                Err(e1) => { return Err(e1); },
            };
            let et = match get_type_in(ctx, scope, locals, else_body) {
                Ok(et) => et,
                Err(e2) => { return Err(e2); },
            };
            let ttv = match ctx.get_type_from_id(scope, tt) {
                Some(t) => t,
                None => { return Err(TyphoonError::CompileError(String::from_str("unresolved type id"))); },
            };
            let etv = match ctx.get_type_from_id(scope, et) {
                Some(t) => t,
                None => { return Err(TyphoonError::CompileError(String::from_str("unresolved type id"))); },
            };
            if ttv.equals(etv) {
                Ok(tt)
            } else {
                Err(TyphoonError::TypeMismatch(ttv.name.clone(), etv.name.clone()))
            }
        },
        Expr::Field(base, field) => {
            let bt = match get_type_in(ctx, scope, locals, base) {
                Ok(bt) => bt,
                Err(e1) => { return Err(e1); },
            };
            let btv = match ctx.get_type_from_id(scope, bt) {
                Some(t) => t,
                None => { return Err(TyphoonError::CompileError(String::from_str("unresolved type id"))); },
            };
            let ftn = match btv.get_field_type_name(field) {
                Some(n) => n,
                None => { return Err(TyphoonError::UnknownField(field.clone())); },
            };
            match ctx.get_type_from_name(scope, ftn) {
                Some(ft) => Ok(ft.type_id),
                None => Err(TyphoonError::UnknownType(ftn.clone())),
            }
        },
        Expr::StructAssign(name, _) => match ctx.get_type_from_name(scope, name) {
            Some(t) => Ok(t.type_id),
            None => Err(TyphoonError::UnknownType(name.clone())),
        },
        Expr::Call(name, _) => match ctx.lookup_function(scope, name) {
            Some(sig) => Ok(sig.ret_type_id),
            None => Err(TyphoonError::UndefinedVariable(name.clone())),
        },
        Expr::Block(stmts, tail) => {
            let mark = locals.len();
            let ghost l0 = locals_view(locals@);
            let mut i: usize = 0;
            proof {
                assert(stmts@.subrange(0, stmts@.len() as int) =~= stmts@);
            }
            while i < stmts.len()
                invariant
                    0 <= i <= stmts.len(),
                    mark <= locals.len(),
                    locals@.take(mark as int) == old(locals)@.take(mark as int),
                    mark == old(locals)@.len(),
                    l0 == locals_view(old(locals)@),
                    s_block_locals(ctx@, scope as int, l0, stmts@) == s_block_locals(
                        ctx@,
                        scope as int,
                        locals_view(locals@),
                        stmts@.subrange(i as int, stmts@.len() as int),
                    ),
                decreases stmts.len() - i,
            {
                let ghost rest = stmts@.subrange(i as int, stmts@.len() as int);
                proof {
                    assert(rest[0] == stmts@[i as int]);
                    assert(rest.subrange(1, rest.len() as int) =~= stmts@.subrange(
                        i + 1,
                        stmts@.len() as int,
                    ));
                }
                match &stmts[i] {
                    Statement::Declare(name, tyname, _) => {
                        match ctx.get_type_from_name(scope, tyname) {
                            Some(t) => {
                                let ghost lv_pre = locals_view(locals@);
                                let tid = t.type_id;
                                locals.push((name.clone(), tid));
                                proof {
                                    assert(locals_view(locals@) =~= lv_pre.push((name@, tid)));
                                    assert(locals@.take(mark as int) =~= locals@.drop_last().take(
                                        mark as int,
                                    ));
                                }
                            },
                            None => {
                                proof {
                                    assert(s_block_locals(
                                        ctx@,
                                        scope as int,
                                        locals_view(locals@),
                                        rest,
                                    ) == Err::<Seq<(Seq<char>, u64)>, ErrV>(
                                        ErrV::UnknownType(tyname@),
                                    ));
                                    assert(s_block_locals(ctx@, scope as int, l0, stmts@) == Err::<
                                        Seq<(Seq<char>, u64)>,
                                        ErrV,
                                    >(ErrV::UnknownType(tyname@)));
                                }
                                locals.truncate(mark);
                                proof {
                                    assert(old(locals)@.take(mark as int) =~= old(locals)@);
                                    assert(locals@ =~= old(locals)@);
                                    assert(s_type_of(
                                        ctx@,
                                        scope as int,
                                        locals_view(old(locals)@),
                                        *e,
                                    ) == Err::<u64, ErrV>(ErrV::UnknownType(tyname@)));
                                }
                                return Err(TyphoonError::UnknownType(tyname.clone()));
                            },
                        }
                    },
                    _ => {},
                }
                i = i + 1;
            }
            let r = match tail {
                Some(te) => get_type_in(ctx, scope, locals, te),
                None => match ctx.get_type_from_name(scope, &String::from_str("")) {
                    Some(t) => Ok(t.type_id),
                    None => Err(TyphoonError::UnknownType(String::from_str(""))),
                },
            };
            proof {
                assert(stmts@.subrange(stmts@.len() as int, stmts@.len() as int).len() == 0);
            }
            locals.truncate(mark);
            proof {
                assert(old(locals)@.take(mark as int) =~= old(locals)@);
                assert(locals@ =~= old(locals)@);
            }
            r
        },
        Expr::Group(inner) => get_type_in(ctx, scope, locals, inner),
        Expr::String(_) => Err(
            TyphoonError::CompileError(String::from_str("string literals are not supported")),
        ),
    }
}

// ---------------------------------------------------------------------------
// The lowering specification.
// ---------------------------------------------------------------------------

/// The outcome of lowering an expression: the context and builder after the
/// call, and the lowered value or the error.
#[verifier::ext_equal]
pub struct LowerOut {
    pub ctx: CtxV,
    pub b: BuilderV,
    pub res: Result<VariableType, ErrV>,
}

/// The outcome of lowering a statement (or a statement list).
#[verifier::ext_equal]
pub struct StmtOut {
    pub ctx: CtxV,
    pub b: BuilderV,
    pub res: Result<(), ErrV>,
}

/// The outcome of lowering a call's argument list: the materialized argument
/// values in order.
#[verifier::ext_equal]
pub struct ArgsOut {
    pub ctx: CtxV,
    pub b: BuilderV,
    pub res: Result<Seq<ValueId>, ErrV>,
}

/// The builder with its cursor moved.
pub open spec fn s_position(bv: BuilderV, fun: usize, blk: usize) -> BuilderV {
    BuilderV { cur: Some((fun, blk)), ..bv }
}

/// The instructions emitted for one operator on two materialized operands.
/// Mod is expanded to `lhs - (lhs / rhs) * rhs`; Pow fails fast.
pub open spec fn s_bin_emit(bv: BuilderV, op: Opcode, l: ValueId, r: ValueId) -> Result<
    (BuilderV, ValueId),
    ErrV,
> {
    match op {
        Opcode::Add => Ok(s_emit(bv, InstV::Bin(BinKind::Add, l, r))),
        Opcode::Sub => Ok(s_emit(bv, InstV::Bin(BinKind::Sub, l, r))),
        Opcode::Mul => Ok(s_emit(bv, InstV::Bin(BinKind::Mul, l, r))),
        Opcode::Div => Ok(s_emit(bv, InstV::Bin(BinKind::SDiv, l, r))),
        Opcode::Mod => {
            let (b1, d) = s_emit(bv, InstV::Bin(BinKind::SDiv, l, r));
            let (b2, m) = s_emit(b1, InstV::Bin(BinKind::Mul, d, r));
            Ok(s_emit(b2, InstV::Bin(BinKind::Sub, l, m)))
        },
        Opcode::Pow => Err(ErrV::CompileError("the pow operator is not implemented"@)),
        Opcode::Or => Ok(s_emit(bv, InstV::Bin(BinKind::Or, l, r))),
        Opcode::And => Ok(s_emit(bv, InstV::Bin(BinKind::And, l, r))),
        Opcode::Xor => Ok(s_emit(bv, InstV::Bin(BinKind::Xor, l, r))),
        Opcode::LShift => Ok(s_emit(bv, InstV::Bin(BinKind::Shl, l, r))),
        Opcode::RShift => Ok(s_emit(bv, InstV::Bin(BinKind::AShr, l, r))),
    }
}

/// The outcome of checking an `If`'s static types: the condition's backend
/// integer type and the unified branches' backend type.
pub open spec fn s_if_checks(c: CtxV, s: int, cond: Expr, tb: Expr, eb: Expr) -> Result<
    (BType, BType),
    ErrV,
> {
    match s_type_of(c, s, Seq::empty(), tb) {
        Err(e1) => Err(e1),
        Ok(tt) => match s_type_of(c, s, Seq::empty(), eb) {
            Err(e2) => Err(e2),
            Ok(et) => match s_lookup_type_by_id(c, s, tt) {
                None => Err(ErrV::CompileError("unresolved type id"@)),
                Some(ttv) => match s_lookup_type_by_id(c, s, et) {
                    None => Err(ErrV::CompileError("unresolved type id"@)),
                    Some(etv) => if ttv.name != etv.name {
                        Err(ErrV::TypeMismatch(ttv.name, etv.name))
                    } else {
                        match s_type_of(c, s, Seq::empty(), cond) {
                            Err(e3) => Err(e3),
                            Ok(ct) => match s_lookup_type_by_id(c, s, ct) {
                                None => Err(ErrV::CompileError("unresolved type id"@)),
                                Some(ctv) => match s_generate_type(ctv) {
                                    BType::Int { width, signed } => Ok(
                                        (
                                            BType::Int { width, signed },
                                            s_generate_type(ttv),
                                        ),
                                    ),
                                    _ => Err(
                                        ErrV::CompileError("if condition must be an integer"@),
                                    ),
                                },
                            },
                        }
                    },
                },
            },
        },
    }
}

/// The instructions that open a conditional, once the condition value is
/// materialized: the zero constant, the "not equal" decision value, the
/// three new blocks, the conditional branch, and the move into the then
/// block.  Returns the builder and the block indices (then, else, merge).
pub open spec fn s_if_open(bv: BuilderV, cv: ValueId, cond_ty: BType) -> (
    BuilderV,
    usize,
    usize,
    usize,
) {
    let (b3, zero) = s_emit(bv, InstV::ConstInt { ty: cond_ty, value: 0 });
    let (b4, dec) = s_emit(b3, InstV::ICmpNe(cv, zero));
    let fun = b4.cur->Some_0.0;
    let (b5, then_bb) = s_append_basic_block(b4, fun as int);
    let (b6, else_bb) = s_append_basic_block(b5, fun as int);
    let (b7, merge_bb) = s_append_basic_block(b6, fun as int);
    let (b8, _br) = s_emit(
        b7,
        InstV::CondBr { cond: dec, then_block: then_bb, else_block: else_bb },
    );
    (s_position(b8, fun, then_bb), then_bb, else_bb, merge_bb)
}

/// The branch to the merge block after a lowered arm, and the move into the
/// given next block.
pub open spec fn s_if_step(bv: BuilderV, merge_bb: usize, next_bb: usize) -> BuilderV {
    let (b2, _br) = s_emit(bv, InstV::Br(merge_bb));
    s_position(b2, b2.cur->Some_0.0, next_bb)
}

/// The join at the merge block: the phi of the two materialized arm values.
pub open spec fn s_if_join(
    bv: BuilderV,
    phi_ty: BType,
    tv: ValueId,
    then_bb: usize,
    ev: ValueId,
    else_bb: usize,
) -> (BuilderV, ValueId) {
    s_emit(
        bv,
        InstV::Phi {
            ty: phi_ty,
            then_value: tv,
            then_block: then_bb,
            else_value: ev,
            else_block: else_bb,
        },
    )
}

/// The validation of a binary operation after both operands are lowered:
/// both sides' static types resolve and the left type's operand table has an
/// entry for (operator, right type).
pub open spec fn s_bin_validate(c: CtxV, s: int, op: Opcode, lhs: Expr, rhs: Expr) -> Result<
    (),
    ErrV,
> {
    match s_type_of(c, s, Seq::empty(), lhs) {
        Err(e3) => Err(e3),
        Ok(lt) => match s_type_of(c, s, Seq::empty(), rhs) {
            Err(e4) => Err(e4),
            Ok(rt) => match s_lookup_type_by_id(c, s, lt) {
                None => Err(ErrV::CompileError("unresolved type id"@)),
                Some(ltv) => match s_lookup_type_by_id(c, s, rt) {
                    None => Err(ErrV::CompileError("unresolved type id"@)),
                    Some(rtv) => match s_operand_lookup(ltv.operands, op, rt) {
                        None => Err(ErrV::InvalidOperand(op, ltv.name, rtv.name)),
                        Some(_) => Ok(()),
                    },
                },
            },
        },
    }
}

/// The constant emitted for a negated signed literal; an unsigned literal is
/// rejected.
pub open spec fn s_neg_emit(bv: BuilderV, n: Number) -> Result<(BuilderV, ValueId), ErrV> {
    match n {
        Number::Integer8(x) => Ok(
            s_emit(
                bv,
                InstV::ConstInt {
                    ty: BType::Int { width: 8, signed: true },
                    value: (-(x as int)) as u64,
                },
            ),
        ),
        Number::Integer16(x) => Ok(
            s_emit(
                bv,
                InstV::ConstInt {
                    ty: BType::Int { width: 16, signed: true },
                    value: (-(x as int)) as u64,
                },
            ),
        ),
        Number::Integer32(x) => Ok(
            s_emit(
                bv,
                InstV::ConstInt {
                    ty: BType::Int { width: 32, signed: true },
                    value: (-(x as int)) as u64,
                },
            ),
        ),
        _ => Err(ErrV::CompileError("cannot negate an unsigned literal"@)),
    }
}

/// The checks that precede field-access lowering: the base's static type is
/// a struct with that field.  Returns the field's index.
pub open spec fn s_field_check(c: CtxV, s: int, base: Expr, field: Seq<char>) -> Result<int, ErrV> {
    match s_type_of(c, s, Seq::empty(), base) {
        Err(e1) => Err(e1),
        Ok(bt) => match s_lookup_type_by_id(c, s, bt) {
            None => Err(ErrV::CompileError("unresolved type id"@)),
            Some(btv) => match btv.strukt {
                None => Err(ErrV::UnknownField(field)),
                Some(info) => match s_field_idx(info.fields, field) {
                    None => Err(ErrV::UnknownField(field)),
                    Some(i) => Ok(i),
                },
            },
        },
    }
}

/// The struct type a literal builds, by name: its field table and backend
/// structural type index.
pub open spec fn s_struct_head(c: CtxV, s: int, name: Seq<char>) -> Result<StructInfoV, ErrV> {
    match s_lookup_type(c, s, name) {
        None => Err(ErrV::UnknownType(name)),
        Some(t) => match t.strukt {
            None => Err(ErrV::CompileError("struct literal of a non-struct type"@)),
            Some(info) => Ok(info),
        },
    }
}

/// The callee a call resolves to, with its arity checked.
pub open spec fn s_call_head(c: CtxV, s: int, name: Seq<char>, nargs: nat) -> Result<
    FunSigV,
    ErrV,
> {
    match s_lookup_fun(c, s, name) {
        None => Err(ErrV::UndefinedVariable(name)),
        Some(sig) => if nargs != sig.param_type_ids.len() {
            Err(ErrV::CompileError("wrong number of arguments"@))
        } else {
            Ok(sig)
        },
    }
}

/// The nominal check of one call argument against the callee's parameter
/// type.
pub open spec fn s_arg_check(c: CtxV, s: int, arg: Expr, param: u64) -> Result<(), ErrV> {
    match s_type_of(c, s, Seq::empty(), arg) {
        Err(e1) => Err(e1),
        Ok(at) => match s_lookup_type_by_id(c, s, at) {
            None => Err(ErrV::CompileError("unresolved type id"@)),
            Some(atv) => match s_lookup_type_by_id(c, s, param) {
                None => Err(ErrV::CompileError("unresolved type id"@)),
                Some(ptv) => if atv.name != ptv.name {
                    Err(ErrV::TypeMismatch(atv.name, ptv.name))
                } else {
                    Ok(())
                },
            },
        },
    }
}

/// The checks that precede a declaration's lowering: the initializer's
/// static type and the declared type resolve, and they are nominally equal.
/// Returns the declared type and the initializer's type id.
pub open spec fn s_declare_check(c: CtxV, s: int, tyname: Seq<char>, init: Expr) -> Result<
    (TypeV, u64),
    ErrV,
> {
    match s_type_of(c, s, Seq::empty(), init) {
        Err(e1) => Err(e1),
        Ok(t_init) => match s_lookup_type(c, s, tyname) {
            None => Err(ErrV::UnknownType(tyname)),
            Some(declared) => match s_lookup_type_by_id(c, s, t_init) {
                None => Err(ErrV::CompileError("unresolved type id"@)),
                Some(itv) => if itv.name != declared.name {
                    Err(ErrV::TypeMismatch(itv.name, declared.name))
                } else {
                    Ok((declared, t_init))
                },
            },
        },
    }
}

/// Fresh storage for a declared primitive local: the materialized
/// initializer value is stored into a new allocation.  Returns the builder
/// and the new storage handle.
pub open spec fn s_declare_prim_emit(bv: BuilderV, v: ValueId, declared: TypeV) -> (
    BuilderV,
    ValueId,
) {
    let (b3, ptr) = s_emit(bv, InstV::Alloca(s_generate_type(declared)));
    let (b4, _st) = s_emit(b3, InstV::Store { value: v, ptr: ptr });
    (b4, ptr)
}

/// The checks that precede a return's lowering: an enclosing function
/// exists, and the expression's type nominally equals its declared return
/// type.  Returns the return type's name.
pub open spec fn s_return_check(c: CtxV, s: int, expr: Expr) -> Result<Seq<char>, ErrV> {
    match s_enclosing_function(c, s) {
        None => Err(ErrV::CompileError("return outside of a function"@)),
        Some(fr) => match s_type_of(c, s, Seq::empty(), expr) {
            Err(e1) => Err(e1),
            Ok(t) => match s_lookup_type_by_id(c, s, fr.ret_type_id) {
                None => Err(ErrV::CompileError("unresolved type id"@)),
                Some(rtv) => match s_lookup_type_by_id(c, s, t) {
                    None => Err(ErrV::CompileError("unresolved type id"@)),
                    Some(etv) => if etv.name != rtv.name {
                        Err(ErrV::TypeMismatch(etv.name, rtv.name))
                    } else {
                        Ok(rtv.name)
                    },
                },
            },
        },
    }
}

/// Lowering of one expression.  The order of checks and emissions is part of
/// the contract: in particular, an `If` checks that its branches unify
/// before a single instruction of either branch (or of the condition) is
/// emitted.
pub open spec fn s_lower_expr(c: CtxV, s: int, bv: BuilderV, e: Expr) -> LowerOut
    decreases e,
{
    match e {
        Expr::Number(n) => {
            let (b1, v) = s_number_codegen(bv, n);
            LowerOut { ctx: c, b: b1, res: Ok(VariableType::Literal(v)) }
        },
        Expr::Negative(n) => match s_neg_emit(bv, *n) {
            Err(e1) => LowerOut { ctx: c, b: bv, res: Err(e1) },
            Ok((b1, v)) => LowerOut { ctx: c, b: b1, res: Ok(VariableType::Literal(v)) },
        },
        Expr::Identifier(name) => match s_lookup_var(c, s, name@) {
            Some(bind) => LowerOut { ctx: c, b: bv, res: Ok(VariableType::Ptr(bind.storage)) },
            None => LowerOut { ctx: c, b: bv, res: Err(ErrV::UndefinedVariable(name@)) },
        },
        Expr::BinOperation(op, lhs, rhs) => {
            let o1 = s_lower_expr(c, s, bv, *lhs);
            match o1.res {
                Err(e1) => LowerOut { ctx: o1.ctx, b: o1.b, res: Err(e1) },
                Ok(r1) => {
                    let (b2, v1) = s_get_value(o1.b, r1);
                    let o2 = s_lower_expr(o1.ctx, s, b2, *rhs);
                    match o2.res {
                        Err(e2) => LowerOut { ctx: o2.ctx, b: o2.b, res: Err(e2) },
                        Ok(r2) => {
                            let (b4, v2) = s_get_value(o2.b, r2);
                            match s_bin_validate(o2.ctx, s, op, *lhs, *rhs) {
                                Err(e3) => LowerOut { ctx: o2.ctx, b: b4, res: Err(e3) },
                                Ok(_) => match s_bin_emit(b4, op, v1, v2) {
                                    Err(e5) => LowerOut { ctx: o2.ctx, b: b4, res: Err(e5) },
                                    Ok((b5, v)) => LowerOut {
                                        ctx: o2.ctx,
                                        b: b5,
                                        res: Ok(VariableType::Literal(v)),
                                    },
                                },
                            }
                        },
                    }
                },
            }
        },
        Expr::If { condition, then_body, else_body } => {
            match s_if_checks(c, s, *condition, *then_body, *else_body) {
                Err(e1) => LowerOut { ctx: c, b: bv, res: Err(e1) },
                Ok((cond_ty, phi_ty)) => {
                    let o1 = s_lower_expr(c, s, bv, *condition);
                    match o1.res {
                        Err(e2) => LowerOut { ctx: o1.ctx, b: o1.b, res: Err(e2) },
                        Ok(r1) => {
                            let (b2, cv) = s_get_value(o1.b, r1);
                            let (b9, then_bb, else_bb, merge_bb) = s_if_open(b2, cv, cond_ty);
                            let o2 = s_lower_expr(o1.ctx, s, b9, *then_body);
                            match o2.res {
                                Err(e3) => LowerOut { ctx: o2.ctx, b: o2.b, res: Err(e3) },
                                Ok(r2) => {
                                    let (b11, tv) = s_get_value(o2.b, r2);
                                    let b13 = s_if_step(b11, merge_bb, else_bb);
                                    let o3 = s_lower_expr(o2.ctx, s, b13, *else_body);
                                    match o3.res {
                                        Err(e4) => LowerOut { ctx: o3.ctx, b: o3.b, res: Err(e4) },
                                        Ok(r3) => {
                                            let (b15, ev) = s_get_value(o3.b, r3);
                                            let b17 = s_if_step(b15, merge_bb, merge_bb);
                                            let (b18, ph) = s_if_join(
                                                b17,
                                                phi_ty,
                                                tv,
                                                then_bb,
                                                ev,
                                                else_bb,
                                            );
                                            LowerOut {
                                                ctx: o3.ctx,
                                                b: b18,
                                                res: Ok(VariableType::Literal(ph)),
                                            }
                                        },
                                    }
                                },
                            }
                        },
                    }
                },
            }
        },
        Expr::Field(base, field) => match s_field_check(c, s, *base, field@) {
            Err(e1) => LowerOut { ctx: c, b: bv, res: Err(e1) },
            Ok(i) => {
                let o1 = s_lower_expr(c, s, bv, *base);
                match o1.res {
                    Err(e2) => LowerOut { ctx: o1.ctx, b: o1.b, res: Err(e2) },
                    Ok(r1) => {
                        let ptr = s_unwrap(r1);
                        let (b2, gep) = s_emit(o1.b, InstV::Gep { ptr: ptr, field: i as usize });
                        LowerOut { ctx: o1.ctx, b: b2, res: Ok(VariableType::Ptr(gep)) }
                    },
                }
            },
        },
        Expr::StructAssign(name, inits) => match s_struct_head(c, s, name@) {
            Err(e1) => LowerOut { ctx: c, b: bv, res: Err(e1) },
            Ok(info) => {
                let (b1, storage) = s_emit(bv, InstV::Alloca(BType::Struct(info.backend)));
                let o = s_lower_inits(c, s, b1, info.fields, storage, inits@);
                match o.res {
                    Err(e2) => LowerOut { ctx: o.ctx, b: o.b, res: Err(e2) },
                    Ok(_) => LowerOut { ctx: o.ctx, b: o.b, res: Ok(VariableType::Ptr(storage)) },
                }
            },
        },
        Expr::Call(name, args) => match s_call_head(c, s, name@, args@.len()) {
            Err(e1) => LowerOut { ctx: c, b: bv, res: Err(e1) },
            Ok(sig) => {
                let o = s_lower_args(c, s, bv, args@, sig.param_type_ids);
                match o.res {
                    Err(e2) => LowerOut { ctx: o.ctx, b: o.b, res: Err(e2) },
                    Ok(vs) => {
                        let (b2, v) = s_emit(o.b, InstV::Call { callee: sig.fun, args: vs });
                        LowerOut { ctx: o.ctx, b: b2, res: Ok(VariableType::Literal(v)) }
                    },
                }
            },
        },
        Expr::Block(stmts, tail) => {
            let (c1, child) = s_child_scope(c, s as usize, None);
            let o = s_lower_stmts(c1, child as int, bv, stmts@);
            match o.res {
                Err(e1) => LowerOut { ctx: o.ctx, b: o.b, res: Err(e1) },
                Ok(_) => match tail {
                    Some(te) => s_lower_expr(o.ctx, child as int, o.b, *te),
                    None => LowerOut {
                        ctx: o.ctx,
                        b: o.b,
                        res: Ok(VariableType::Literal(ValueId::Void)),
                    },
                },
            }
        },
        Expr::Group(inner) => s_lower_expr(c, s, bv, *inner),
        Expr::String(_) => LowerOut {
            ctx: c,
            b: bv,
            res: Err(ErrV::CompileError("string literals are not supported"@)),
        },
    }
}

/// Lowering of a statement list, front to back, stopping at the first
/// error.
pub open spec fn s_lower_stmts(c: CtxV, s: int, bv: BuilderV, stmts: Seq<Statement>) -> StmtOut
    decreases stmts,
{
    if stmts.len() == 0 {
        StmtOut { ctx: c, b: bv, res: Ok(()) }
    } else {
        let o = s_lower_stmt(c, s, bv, stmts[0]);
        match o.res {
            Err(e1) => StmtOut { ctx: o.ctx, b: o.b, res: Err(e1) },
            Ok(_) => s_lower_stmts(o.ctx, s, o.b, stmts.subrange(1, stmts.len() as int)),
        }
    }
}

/// Lowering of a call's arguments, in order: each argument is checked
/// nominally against the callee's parameter type, lowered and materialized.
pub open spec fn s_lower_args(
    c: CtxV,
    s: int,
    bv: BuilderV,
    args: Seq<Expr>,
    params: Seq<u64>,
) -> ArgsOut
    decreases args,
{
    if args.len() == 0 {
        ArgsOut { ctx: c, b: bv, res: Ok(Seq::empty()) }
    } else if params.len() == 0 {
        ArgsOut { ctx: c, b: bv, res: Err(ErrV::CompileError("wrong number of arguments"@)) }
    } else {
        match s_arg_check(c, s, args[0], params[0]) {
            Err(e1) => ArgsOut { ctx: c, b: bv, res: Err(e1) },
            Ok(_) => {
                let o = s_lower_expr(c, s, bv, args[0]);
                match o.res {
                    Err(e2) => ArgsOut { ctx: o.ctx, b: o.b, res: Err(e2) },
                    Ok(r1) => {
                        let (b2, v) = s_get_value(o.b, r1);
                        let rec = s_lower_args(
                            o.ctx,
                            s,
                            b2,
                            args.subrange(1, args.len() as int),
                            params.subrange(1, params.len() as int),
                        );
                        match rec.res {
                            Err(e3) => rec,
                            Ok(vs) => ArgsOut { ctx: rec.ctx, b: rec.b, res: Ok(seq![v] + vs) },
                        }
                    },
                }
            },
        }
    }
}

/// Lowering of a struct literal's field initializers: for each one, resolve
/// the field's index by name, lower and materialize the initializer, and
/// store it at that field's offset in `storage`.
pub open spec fn s_lower_inits(
    c: CtxV,
    s: int,
    bv: BuilderV,
    fields: Seq<(Seq<char>, Seq<char>)>,
    storage: ValueId,
    inits: Seq<(Identifier, Expr)>,
) -> StmtOut
    decreases inits,
{
    if inits.len() == 0 {
        StmtOut { ctx: c, b: bv, res: Ok(()) }
    } else {
        match s_field_idx(fields, inits[0].0@) {
            None => StmtOut { ctx: c, b: bv, res: Err(ErrV::UnknownField(inits[0].0@)) },
            Some(i) => {
                let o = s_lower_expr(c, s, bv, inits[0].1);
                match o.res {
                    Err(e1) => StmtOut { ctx: o.ctx, b: o.b, res: Err(e1) },
                    Ok(r1) => {
                        let (b2, v) = s_get_value(o.b, r1);
                        let (b3, fp) = s_emit(b2, InstV::Gep { ptr: storage, field: i as usize });
                        let (b4, _st) = s_emit(b3, InstV::Store { value: v, ptr: fp });
                        s_lower_inits(
                            o.ctx,
                            s,
                            b4,
                            fields,
                            storage,
                            inits.subrange(1, inits.len() as int),
                        )
                    },
                }
            },
        }
    }
}

impl Opcode {
    /// Emits the instructions for this operator on two materialized
    /// operands, exactly as [`s_bin_emit`] describes.
    pub fn calculate_codegen(&self, b: &mut Builder, l: ValueId, r: ValueId) -> (res: Result<
        ValueId,
        TyphoonError,
    >)
        requires
            old(b)@.is_positioned(),
        ensures
            match res {
                Ok(v) => s_bin_emit(old(b)@, *self, l, r) == Ok::<(BuilderV, ValueId), ErrV>(
                    (final(b)@, v),
                ),
                Err(e) => s_bin_emit(old(b)@, *self, l, r) == Err::<(BuilderV, ValueId), ErrV>(e@)
                    && final(b)@ == old(b)@,
            },
            final(b)@.is_positioned(),
            final(b)@.cur == old(b)@.cur,
            final(b)@.module.functions.len() == old(b)@.module.functions.len(),
            forall|f: int|
                0 <= f < old(b)@.module.functions.len() ==> old(
                    b,
                )@.module.functions[f].blocks.len() <= final(b)@.module.functions[f].blocks.len(),
    {
        match self {
            Opcode::Add => Ok(b.emit(Inst::Bin(BinKind::Add, l, r))),
            Opcode::Sub => Ok(b.emit(Inst::Bin(BinKind::Sub, l, r))),
            Opcode::Mul => Ok(b.emit(Inst::Bin(BinKind::Mul, l, r))),
            Opcode::Div => Ok(b.emit(Inst::Bin(BinKind::SDiv, l, r))),
            Opcode::Mod => {
                let d = b.emit(Inst::Bin(BinKind::SDiv, l, r));
                let m = b.emit(Inst::Bin(BinKind::Mul, d, r));
                Ok(b.emit(Inst::Bin(BinKind::Sub, l, m)))
            },
            Opcode::Pow => Err(
                TyphoonError::CompileError(String::from_str("the pow operator is not implemented")),
            ),
            Opcode::Or => Ok(b.emit(Inst::Bin(BinKind::Or, l, r))),
            Opcode::And => Ok(b.emit(Inst::Bin(BinKind::And, l, r))),
            Opcode::Xor => Ok(b.emit(Inst::Bin(BinKind::Xor, l, r))),
            Opcode::LShift => Ok(b.emit(Inst::Bin(BinKind::Shl, l, r))),
            Opcode::RShift => Ok(b.emit(Inst::Bin(BinKind::AShr, l, r))),
        }
    }
}

/// A deep copy of a field table.
fn clone_fields(v: &Vec<(Identifier, TypeName)>) -> (r: Vec<(Identifier, TypeName)>)
    ensures
        r.deep_view() == v.deep_view(),
{
    let mut r: Vec<(Identifier, TypeName)> = Vec::new();
    let mut i: usize = 0;
    while i < v.len()
        invariant
            0 <= i <= v.len(),
            r.deep_view() == v.deep_view().take(i as int),
        decreases v.len() - i,
    {
        let k = v[i].0.clone();
        let t = v[i].1.clone();
        let ghost pre_vec = r@;
        let ghost pre_dv = r.deep_view();
        proof {
            assert(pre_dv.len() == pre_vec.len());
            assert(pre_dv.len() == i);
        }
        r.push((k, t));
        proof {
            assert(r@ == pre_vec.push((k, t)));
            assert(r@.len() == i + 1);
            assert(v.deep_view()[i as int] == v@[i as int].deep_view());
            assert(r@.last().deep_view() == v.deep_view()[i as int]);
            assert forall|x: int| 0 <= x < i + 1 implies r.deep_view()[x] == v.deep_view().take(
                i + 1,
            )[x] by {
                if x < i {
                    assert(r.deep_view()[x] == r@[x].deep_view());
                    assert(r@[x] == pre_vec[x]);
                    assert(pre_dv[x] == pre_vec[x].deep_view());
                    assert(pre_dv[x] == v.deep_view().take(i as int)[x]);
                } else {
                    assert(r.deep_view()[x] == r@[x].deep_view());
                }
            };
            assert(r.deep_view() =~= v.deep_view().take(i + 1));
        }
        i = i + 1;
    }
    proof {
        assert(v.deep_view().take(i as int) =~~= v.deep_view());
    }
    r
}

/// A copy of a type-id list.
fn copy_ids(v: &Vec<u64>) -> (r: Vec<u64>)
    ensures
        r@ == v@,
{
    let mut r: Vec<u64> = Vec::new();
    let mut i: usize = 0;
    while i < v.len()
        invariant
            0 <= i <= v.len(),
            r@ =~= v@.take(i as int),
        decreases v.len() - i,
    {
        r.push(v[i]);
        proof {
            assert(r@ =~= v@.take(i + 1));
        }
        i = i + 1;
    }
    proof {
        assert(v@.take(i as int) =~= v@);
    }
    r
}

/// The position of `field` in a detached field table.
fn fields_idx(fields: &Vec<(Identifier, TypeName)>, field: &String) -> (r: Option<usize>)
    ensures
        match s_field_idx(fields.deep_view(), field@) {
            Some(i) => r == Some(i as usize),
            None => r is None,
        },
{
    let ghost all = fields.deep_view();
    proof {
        assert(all.skip(0) =~= all);
    }
    let mut j: usize = 0;
    while j < fields.len()
        invariant
            0 <= j <= fields.len(),
            all == fields.deep_view(),
            all.len() == fields.len(),
            s_field_idx(all, field@) == (match s_field_idx(all.skip(j as int), field@) {
                Some(i) => Some(i + j),
                None => None::<int>,
            }),
        decreases fields.len() - j,
    {
        let ghost pre = all.skip(j as int);
        proof {
            assert(pre[0] == all[j as int]);
            assert(all[j as int].0 == fields@[j as int].0@);
        }
        if fields[j].0.eq(field) {
            proof {
                assert(s_field_idx(pre, field@) == Some(0int));
            }
            return Some(j);
        }
        proof {
            assert(pre.skip(1) =~= all.skip(j + 1));
        }
        j = j + 1;
    }
    proof {
        assert(all.skip(j as int).len() == 0);
    }
    None
}

/// Lowering of one statement.
///
/// A declared primitive local gets fresh stack storage holding the
/// materialized initializer value.  A declared struct local is bound
/// directly to its initializer's storage: struct locals alias, they are not
/// copied.
pub open spec fn s_lower_stmt(c: CtxV, s: int, bv: BuilderV, st: Statement) -> StmtOut
    decreases st,
{
    match st {
        Statement::Declare(name, tyname, init) => {
            match s_declare_check(c, s, tyname@, *init) {
                Err(e1) => StmtOut { ctx: c, b: bv, res: Err(e1) },
                Ok((declared, t_init)) => {
                    let o = s_lower_expr(c, s, bv, *init);
                    match o.res {
                        Err(e2) => StmtOut { ctx: o.ctx, b: o.b, res: Err(e2) },
                        Ok(r1) => if declared.strukt is None {
                            let (b2, v) = s_get_value(o.b, r1);
                            let (b4, ptr) = s_declare_prim_emit(b2, v, declared);
                            StmtOut {
                                ctx: s_new_assign(
                                    o.ctx,
                                    s,
                                    name@,
                                    VarBind { storage: ptr, type_id: t_init },
                                ),
                                b: b4,
                                res: Ok(()),
                            }
                        } else {
                            let ptr = s_unwrap(r1);
                            StmtOut {
                                ctx: s_new_assign(
                                    o.ctx,
                                    s,
                                    name@,
                                    VarBind { storage: ptr, type_id: t_init },
                                ),
                                b: o.b,
                                res: Ok(()),
                            }
                        },
                    }
                }
            }
        },
        Statement::Assignment(name, expr) => match s_lookup_var(c, s, name@) {
            None => StmtOut { ctx: c, b: bv, res: Err(ErrV::UndefinedVariable(name@)) },
            Some(bind) => {
                let o = s_lower_expr(c, s, bv, *expr);
                match o.res {
                    Err(e1) => StmtOut { ctx: o.ctx, b: o.b, res: Err(e1) },
                    Ok(r1) => {
                        let (b2, v) = s_get_value(o.b, r1);
                        let (b3, _st) = s_emit(b2, InstV::Store { value: v, ptr: bind.storage });
                        StmtOut { ctx: o.ctx, b: b3, res: Ok(()) }
                    },
                }
            },
        },
        Statement::Expr(expr) => {
            let o = s_lower_expr(c, s, bv, *expr);
            match o.res {
                Err(e1) => StmtOut { ctx: o.ctx, b: o.b, res: Err(e1) },
                Ok(_) => StmtOut { ctx: o.ctx, b: o.b, res: Ok(()) },
            }
        },
        Statement::Return(expr) => match s_return_check(c, s, *expr) {
            Err(e1) => StmtOut { ctx: c, b: bv, res: Err(e1) },
            Ok(ret_name) => {
                let o = s_lower_expr(c, s, bv, *expr);
                match o.res {
                    Err(e2) => StmtOut { ctx: o.ctx, b: o.b, res: Err(e2) },
                    Ok(r1) => {
                        let (b2, v) = s_get_value(o.b, r1);
                        if ret_name == ""@ {
                            let (b3, _r) = s_emit(b2, InstV::RetVoid);
                            StmtOut { ctx: o.ctx, b: b3, res: Ok(()) }
                        } else {
                            let (b3, _r) = s_emit(b2, InstV::Ret(v));
                            StmtOut { ctx: o.ctx, b: b3, res: Ok(()) }
                        }
                    },
                }
            },
        },
    }
}

// ---------------------------------------------------------------------------
// The exec lowering engine.
// ---------------------------------------------------------------------------

impl Expr {
    /// Lowers this expression at the builder's insertion point, producing
    /// exactly the instructions, scope-arena growth and result that
    /// [`s_lower_expr`] names.
    #[verifier::loop_isolation(false)]
    #[verifier::rlimit(30)]
    pub fn codegen(&self, ctx: &mut TyphoonContext, scope: usize, b: &mut Builder) -> (r: Result<
        VariableType,
        TyphoonError,
    >)
        requires
            old(b)@.is_positioned(),
            scope < old(ctx)@.scopes.len(),
        ensures
            final(ctx)@ == s_lower_expr(old(ctx)@, scope as int, old(b)@, *self).ctx,
            final(b)@ == s_lower_expr(old(ctx)@, scope as int, old(b)@, *self).b,
            match r {
                Ok(v) => s_lower_expr(old(ctx)@, scope as int, old(b)@, *self).res == Ok::<
                    VariableType,
                    ErrV,
                >(v),
                Err(e2) => s_lower_expr(old(ctx)@, scope as int, old(b)@, *self).res == Err::<
                    VariableType,
                    ErrV,
                >(e2@),
            },
            final(b)@.is_positioned(),
            final(b)@.cur->Some_0.0 == old(b)@.cur->Some_0.0,
            final(b)@.module.functions.len() == old(b)@.module.functions.len(),
            forall|f: int|
                0 <= f < old(b)@.module.functions.len() ==> old(
                    b,
                )@.module.functions[f].blocks.len() <= final(b)@.module.functions[f].blocks.len(),
            final(ctx)@.scopes.len() >= old(ctx)@.scopes.len(),
        decreases self,
    {
        match self {
            Expr::Number(n) => {
                let v = n.codegen(b);
                Ok(VariableType::Literal(v))
            },
            Expr::Negative(n) => match &**n {
                Number::Integer8(x) => {
                    let value = (-(*x as i64)) as u64;
                    let v = b.emit(
                        Inst::ConstInt { ty: BType::Int { width: 8, signed: true }, value },
                    );
                    Ok(VariableType::Literal(v))
                },
                Number::Integer16(x) => {
                    let value = (-(*x as i64)) as u64;
                    let v = b.emit(
                        Inst::ConstInt { ty: BType::Int { width: 16, signed: true }, value },
                    );
                    Ok(VariableType::Literal(v))
                },
                Number::Integer32(x) => {
                    let value = (-(*x as i64)) as u64;
                    let v = b.emit(
                        Inst::ConstInt { ty: BType::Int { width: 32, signed: true }, value },
                    );
                    Ok(VariableType::Literal(v))
                },
                _ => Err(
                    TyphoonError::CompileError(String::from_str("cannot negate an unsigned literal")),
                ),
            },
            Expr::Identifier(name) => match ctx.get_variable(scope, name) {
                Some(bind) => Ok(VariableType::Ptr(bind.storage)),
                None => Err(TyphoonError::UndefinedVariable(name.clone())),
            },
            Expr::BinOperation(op, lhs, rhs) => {
                let r1 = match lhs.codegen(ctx, scope, b) {
                    Ok(v) => v,
                    Err(er) => { return Err(er); },
                };
                let v1 = r1.get_value(b);
                let r2 = match rhs.codegen(ctx, scope, b) {
                    Ok(v) => v,
                    Err(er) => { return Err(er); },
                };
                let v2 = r2.get_value(b);
                let lt = match lhs.get_type(ctx, scope) {
                    Ok(t) => t,
                    Err(er) => { return Err(er); },
                };
                let rt = match rhs.get_type(ctx, scope) {
                    Ok(t) => t,
                    Err(er) => { return Err(er); },
                };
                let ltv = match ctx.get_type_from_id(scope, lt) {
                    Some(t) => t,
                    None => {
                        return Err(TyphoonError::CompileError(String::from_str("unresolved type id")));
                    },
                };
                let rtv = match ctx.get_type_from_id(scope, rt) {
                    Some(t) => t,
                    None => {
                        return Err(TyphoonError::CompileError(String::from_str("unresolved type id")));
                    },
                };
                match ltv.get_operand_type(*op, rt) {
                    Some(_) => {},
                    None => {
                        return Err(
                            TyphoonError::InvalidOperand(*op, ltv.name.clone(), rtv.name.clone()),
                        );
                    },
                }
                match op.calculate_codegen(b, v1, v2) {
                    Ok(v) => Ok(VariableType::Literal(v)),
                    Err(er) => Err(er),
                }
            },
            Expr::If { condition, then_body, else_body } => {
                let tt = match then_body.get_type(ctx, scope) {
                    Ok(t) => t,
                    Err(er) => { return Err(er); },
                };
                let et = match else_body.get_type(ctx, scope) {
                    Ok(t) => t,
                    Err(er) => { return Err(er); },
                };
                let (tt_name, phi_ty) = match ctx.get_type_from_id(scope, tt) {
                    Some(ttv) => (ttv.name.clone(), ttv.generate_type()),
                    None => {
                        return Err(TyphoonError::CompileError(String::from_str("unresolved type id")));
                    },
                };
                let et_name = match ctx.get_type_from_id(scope, et) {
                    Some(etv) => etv.name.clone(),
                    None => {
                        return Err(TyphoonError::CompileError(String::from_str("unresolved type id")));
                    },
                };
                if !tt_name.eq(&et_name) {
                    return Err(TyphoonError::TypeMismatch(tt_name, et_name));
                }
                let ct = match condition.get_type(ctx, scope) {
                    Ok(t) => t,
                    Err(er) => { return Err(er); },
                };
                let cond_bty = match ctx.get_type_from_id(scope, ct) {
                    Some(ctv) => ctv.generate_type(),
                    None => {
                        return Err(TyphoonError::CompileError(String::from_str("unresolved type id")));
                    },
                };
                let (cw, cs) = match cond_bty {
                    BType::Int { width, signed } => (width, signed),
                    _ => {
                        return Err(
                            TyphoonError::CompileError(
                                String::from_str("if condition must be an integer"),
                            ),
                        );
                    },
                };
                let r1 = match condition.codegen(ctx, scope, b) {
                    Ok(v) => v,
                    Err(er) => { return Err(er); },
                };
                let cv = r1.get_value(b);
                let zero = b.emit(
                    Inst::ConstInt { ty: BType::Int { width: cw, signed: cs }, value: 0 },
                );
                let dec = b.emit(Inst::ICmpNe(cv, zero));
                let fun = match b.cur {
                    Some(p) => p.0,
                    None => {
                        proof {
                            assert(false);
                        }
                        0
                    },
                };
                let then_bb = b.append_basic_block(fun);
                let else_bb = b.append_basic_block(fun);
                let merge_bb = b.append_basic_block(fun);
                b.emit(Inst::CondBr { cond: dec, then_block: then_bb, else_block: else_bb });
                b.position_at_end(fun, then_bb);
                let r2 = match then_body.codegen(ctx, scope, b) {
                    Ok(v) => v,
                    Err(er) => { return Err(er); },
                };
                let tv = r2.get_value(b);
                b.emit(Inst::Br(merge_bb));
                b.position_at_end(fun, else_bb);
                let r3 = match else_body.codegen(ctx, scope, b) {
                    Ok(v) => v,
                    Err(er) => { return Err(er); },
                };
                let ev = r3.get_value(b);
                b.emit(Inst::Br(merge_bb));
                b.position_at_end(fun, merge_bb);
                let ph = b.emit(
                    Inst::Phi {
                        ty: phi_ty,
                        then_value: tv,
                        then_block: then_bb,
                        else_value: ev,
                        else_block: else_bb,
                    },
                );
                Ok(VariableType::Literal(ph))
            },
            Expr::Field(base, field) => {
                let bt = match base.get_type(ctx, scope) {
                    Ok(t) => t,
                    Err(er) => { return Err(er); },
                };
                let idx = match ctx.get_type_from_id(scope, bt) {
                    Some(btv) => match btv.get_type_field_idx(field) {
                        Some(idx) => idx,
                        None => { return Err(TyphoonError::UnknownField(field.clone())); },
                    },
                    None => {
                        return Err(TyphoonError::CompileError(String::from_str("unresolved type id")));
                    },
                };
                let r1 = match base.codegen(ctx, scope, b) {
                    Ok(v) => v,
                    Err(er) => { return Err(er); },
                };
                let ptr = r1.unwrap();
                let gep = b.emit(Inst::Gep { ptr, field: idx });
                Ok(VariableType::Ptr(gep))
            },
            Expr::StructAssign(name, inits) => {
                let (backend_idx, fieldvec) = match ctx.get_type_from_name(scope, name) {
                    Some(t) => match &t.strukt {
                        Some(info) => (info.backend, clone_fields(&info.detail.fields)),
                        None => {
                            return Err(
                                TyphoonError::CompileError(
                                    String::from_str("struct literal of a non-struct type"),
                                ),
                            );
                        },
                    },
                    None => { return Err(TyphoonError::UnknownType(name.clone())); },
                };
                let storage = b.emit(Inst::Alloca(BType::Struct(backend_idx)));
                proof {
                    assert(decreases_to!(*self => *inits));
                }
                match lower_init_list(ctx, scope, b, &fieldvec, storage, inits) {
                    Ok(_) => Ok(VariableType::Ptr(storage)),
                    Err(er) => Err(er),
                }
            },
            Expr::Call(name, args) => {
                let (fun_idx, param_ids) = match ctx.lookup_function(scope, name) {
                    Some(sig) => (sig.fun, copy_ids(&sig.param_type_ids)),
                    None => { return Err(TyphoonError::UndefinedVariable(name.clone())); },
                };
                if args.len() != param_ids.len() {
                    return Err(
                        TyphoonError::CompileError(String::from_str("wrong number of arguments")),
                    );
                }
                proof {
                    assert(decreases_to!(*self => *args));
                }
                let vals = match lower_arg_list(ctx, scope, b, args, &param_ids) {
                    Ok(vs) => vs,
                    Err(er) => { return Err(er); },
                };
                let v = b.emit(Inst::Call { callee: fun_idx, args: vals });
                Ok(VariableType::Literal(v))
            },
            Expr::Block(stmts, tail) => {
                let child = ctx.new_with_upper(scope, None);
                proof {
                    assert(decreases_to!(*self => *stmts));
                }
                match lower_stmt_list(ctx, child, b, stmts) {
                    Ok(_) => {},
                    Err(er) => { return Err(er); },
                }
                match tail {
                    Some(te) => te.codegen(ctx, child, b),
                    None => Ok(VariableType::Literal(ValueId::Void)),
                }
            },
            Expr::Group(inner) => inner.codegen(ctx, scope, b),
            Expr::String(_) => Err(
                TyphoonError::CompileError(String::from_str("string literals are not supported")),
            ),
        }
    }
}

/// Lowers the statements of a block, front to back.
#[verifier::loop_isolation(false)]
#[verifier::rlimit(30)]
fn lower_stmt_list(ctx: &mut TyphoonContext, scope: usize, b: &mut Builder, stmts: &Vec<
    Statement,
>) -> (r: Result<(), TyphoonError>)
    requires
        old(b)@.is_positioned(),
        scope < old(ctx)@.scopes.len(),
    ensures
        final(ctx)@ == s_lower_stmts(old(ctx)@, scope as int, old(b)@, stmts@).ctx,
        final(b)@ == s_lower_stmts(old(ctx)@, scope as int, old(b)@, stmts@).b,
        match r {
            Ok(_) => s_lower_stmts(old(ctx)@, scope as int, old(b)@, stmts@).res == Ok::<(), ErrV>(
                (),
            ),
            Err(e2) => s_lower_stmts(old(ctx)@, scope as int, old(b)@, stmts@).res == Err::<
                (),
                ErrV,
            >(e2@),
        },
        final(b)@.is_positioned(),
        final(b)@.cur->Some_0.0 == old(b)@.cur->Some_0.0,
        final(b)@.module.functions.len() == old(b)@.module.functions.len(),
        forall|f: int|
            0 <= f < old(b)@.module.functions.len() ==> old(
                b,
            )@.module.functions[f].blocks.len() <= final(b)@.module.functions[f].blocks.len(),
        final(ctx)@.scopes.len() >= old(ctx)@.scopes.len(),
    decreases stmts,
{
    let ghost c0 = ctx@;
    let ghost b0 = b@;
    proof {
        assert(stmts@.subrange(0, stmts@.len() as int) =~= stmts@);
    }
    let mut i: usize = 0;
    while i < stmts.len()
        invariant
            0 <= i <= stmts@.len(),
            b@.is_positioned(),
            b@.cur->Some_0.0 == old(b)@.cur->Some_0.0,
            b@.module.functions.len() == old(b)@.module.functions.len(),
            forall|f: int|
                0 <= f < old(b)@.module.functions.len() ==> old(
                    b,
                )@.module.functions[f].blocks.len() <= b@.module.functions[f].blocks.len(),
            scope < ctx@.scopes.len(),
            ctx@.scopes.len() >= old(ctx)@.scopes.len(),
            s_lower_stmts(c0, scope as int, b0, stmts@) == s_lower_stmts(
                ctx@,
                scope as int,
                b@,
                stmts@.subrange(i as int, stmts@.len() as int),
            ),
        decreases stmts@.len() - i,
    {
        let ghost rest = stmts@.subrange(i as int, stmts@.len() as int);
        proof {
            assert(rest[0] == stmts@[i as int]);
            assert(rest.subrange(1, rest.len() as int) =~= stmts@.subrange(
                i + 1,
                stmts@.len() as int,
            ));
            assert(decreases_to!(*stmts => stmts@[i as int]));
        }
        match stmts[i].codegen(ctx, scope, b) {
            Ok(_) => {},
            Err(er) => { return Err(er); },
        }
        i = i + 1;
    }
    proof {
        assert(stmts@.subrange(stmts@.len() as int, stmts@.len() as int).len() == 0);
    }
    Ok(())
}

/// Lowers a call's arguments in order, returning the materialized values.
#[verifier::loop_isolation(false)]
#[verifier::rlimit(30)]
fn lower_arg_list(
    ctx: &mut TyphoonContext,
    scope: usize,
    b: &mut Builder,
    args: &Vec<Expr>,
    params: &Vec<u64>,
) -> (r: Result<Vec<ValueId>, TyphoonError>)
    requires
        old(b)@.is_positioned(),
        scope < old(ctx)@.scopes.len(),
        args@.len() == params@.len(),
    ensures
        final(ctx)@ == s_lower_args(old(ctx)@, scope as int, old(b)@, args@, params@).ctx,
        final(b)@ == s_lower_args(old(ctx)@, scope as int, old(b)@, args@, params@).b,
        match r {
            Ok(vs) => s_lower_args(old(ctx)@, scope as int, old(b)@, args@, params@).res == Ok::<
                Seq<ValueId>,
                ErrV,
            >(vs@),
            Err(e2) => s_lower_args(old(ctx)@, scope as int, old(b)@, args@, params@).res == Err::<
                Seq<ValueId>,
                ErrV,
            >(e2@),
        },
        final(b)@.is_positioned(),
        final(b)@.cur->Some_0.0 == old(b)@.cur->Some_0.0,
        final(b)@.module.functions.len() == old(b)@.module.functions.len(),
        forall|f: int|
            0 <= f < old(b)@.module.functions.len() ==> old(
                b,
            )@.module.functions[f].blocks.len() <= final(b)@.module.functions[f].blocks.len(),
        final(ctx)@.scopes.len() >= old(ctx)@.scopes.len(),
    decreases args,
{
    let ghost c0 = ctx@;
    let ghost b0 = b@;
    let ghost pview = params@;
    proof {
        assert(args@.subrange(0, args@.len() as int) =~= args@);
        assert(pview.subrange(0, pview.len() as int) =~= pview);
    }
    let mut vals: Vec<ValueId> = Vec::new();
    let mut i: usize = 0;
    while i < args.len()
        invariant
            0 <= i <= args@.len(),
            args@.len() == pview.len(),
            b@.is_positioned(),
            b@.cur->Some_0.0 == old(b)@.cur->Some_0.0,
            b@.module.functions.len() == old(b)@.module.functions.len(),
            forall|f: int|
                0 <= f < old(b)@.module.functions.len() ==> old(
                    b,
                )@.module.functions[f].blocks.len() <= b@.module.functions[f].blocks.len(),
            scope < ctx@.scopes.len(),
            ctx@.scopes.len() >= old(ctx)@.scopes.len(),
            vals@.len() == i,
            ({
                let full = s_lower_args(c0, scope as int, b0, args@, pview);
                let rest = s_lower_args(
                    ctx@,
                    scope as int,
                    b@,
                    args@.subrange(i as int, args@.len() as int),
                    pview.subrange(i as int, pview.len() as int),
                );
                full.ctx == rest.ctx && full.b == rest.b && (match (full.res, rest.res) {
                    (Ok(fv), Ok(rv)) => fv == vals@ + rv,
                    (Err(a), Err(bb)) => a == bb,
                    _ => false,
                })
            }),
        decreases args@.len() - i,
    {
        let ghost rest_args = args@.subrange(i as int, args@.len() as int);
        let ghost rest_params = pview.subrange(i as int, pview.len() as int);
        proof {
            assert(rest_args[0] == args@[i as int]);
            assert(rest_params[0] == pview[i as int]);
            assert(rest_args.subrange(1, rest_args.len() as int) =~= args@.subrange(
                i + 1,
                args@.len() as int,
            ));
            assert(rest_params.subrange(1, rest_params.len() as int) =~= pview.subrange(
                i + 1,
                pview.len() as int,
            ));
        }
        let at = match args[i].get_type(ctx, scope) {
            Ok(t) => t,
            Err(er) => { return Err(er); },
        };
        let at_name = match ctx.get_type_from_id(scope, at) {
            Some(atv) => atv.name.clone(),
            None => {
                return Err(TyphoonError::CompileError(String::from_str("unresolved type id")));
            },
        };
        let pt_name = match ctx.get_type_from_id(scope, params[i]) {
            Some(ptv) => ptv.name.clone(),
            None => {
                return Err(TyphoonError::CompileError(String::from_str("unresolved type id")));
            },
        };
        if !at_name.eq(&pt_name) {
            return Err(TyphoonError::TypeMismatch(at_name, pt_name));
        }
        proof {
            assert(decreases_to!(*args => args@[i as int]));
        }
        let r1 = match args[i].codegen(ctx, scope, b) {
            Ok(v) => v,
            Err(er) => { return Err(er); },
        };
        let v = r1.get_value(b);
        let ghost vals_pre = vals@;
        vals.push(v);
        proof {
            assert(forall|rv: Seq<ValueId>| vals_pre + (seq![v] + rv) =~= vals@ + rv);
        }
        i = i + 1;
    }
    proof {
        assert(args@.subrange(args@.len() as int, args@.len() as int).len() == 0);
        assert(pview.subrange(pview.len() as int, pview.len() as int).len() == 0);
        assert(vals@ + Seq::<ValueId>::empty() =~= vals@);
    }
    Ok(vals)
}

/// Lowers a struct literal's field initializers into the given storage.
#[verifier::loop_isolation(false)]
#[verifier::rlimit(30)]
fn lower_init_list(
    ctx: &mut TyphoonContext,
    scope: usize,
    b: &mut Builder,
    fieldvec: &Vec<(Identifier, TypeName)>,
    storage: ValueId,
    inits: &Vec<(Identifier, Expr)>,
) -> (r: Result<(), TyphoonError>)
    requires
        old(b)@.is_positioned(),
        scope < old(ctx)@.scopes.len(),
    ensures
        final(ctx)@ == s_lower_inits(
            old(ctx)@,
            scope as int,
            old(b)@,
            fieldvec.deep_view(),
            storage,
            inits@,
        ).ctx,
        final(b)@ == s_lower_inits(
            old(ctx)@,
            scope as int,
            old(b)@,
            fieldvec.deep_view(),
            storage,
            inits@,
        ).b,
        match r {
            Ok(_) => s_lower_inits(
                old(ctx)@,
                scope as int,
                old(b)@,
                fieldvec.deep_view(),
                storage,
                inits@,
            ).res == Ok::<(), ErrV>(()),
            Err(e2) => s_lower_inits(
                old(ctx)@,
                scope as int,
                old(b)@,
                fieldvec.deep_view(),
                storage,
                inits@,
            ).res == Err::<(), ErrV>(e2@),
        },
        final(b)@.is_positioned(),
        final(b)@.cur->Some_0.0 == old(b)@.cur->Some_0.0,
        final(b)@.module.functions.len() == old(b)@.module.functions.len(),
        forall|f: int|
            0 <= f < old(b)@.module.functions.len() ==> old(
                b,
            )@.module.functions[f].blocks.len() <= final(b)@.module.functions[f].blocks.len(),
        final(ctx)@.scopes.len() >= old(ctx)@.scopes.len(),
    decreases inits,
{
    let ghost c0 = ctx@;
    let ghost b0 = b@;
    let ghost fieldsv = fieldvec.deep_view();
    proof {
        assert(inits@.subrange(0, inits@.len() as int) =~= inits@);
    }
    let mut i: usize = 0;
    while i < inits.len()
        invariant
            0 <= i <= inits@.len(),
            fieldvec.deep_view() == fieldsv,
            b@.is_positioned(),
            b@.cur->Some_0.0 == old(b)@.cur->Some_0.0,
            b@.module.functions.len() == old(b)@.module.functions.len(),
            forall|f: int|
                0 <= f < old(b)@.module.functions.len() ==> old(
                    b,
                )@.module.functions[f].blocks.len() <= b@.module.functions[f].blocks.len(),
            scope < ctx@.scopes.len(),
            ctx@.scopes.len() >= old(ctx)@.scopes.len(),
            s_lower_inits(c0, scope as int, b0, fieldsv, storage, inits@) == s_lower_inits(
                ctx@,
                scope as int,
                b@,
                fieldsv,
                storage,
                inits@.subrange(i as int, inits@.len() as int),
            ),
        decreases inits@.len() - i,
    {
        let ghost rest = inits@.subrange(i as int, inits@.len() as int);
        proof {
            assert(rest[0] == inits@[i as int]);
            assert(rest.subrange(1, rest.len() as int) =~= inits@.subrange(
                i + 1,
                inits@.len() as int,
            ));
        }
        let idx = match fields_idx(fieldvec, &inits[i].0) {
            Some(x) => x,
            None => { return Err(TyphoonError::UnknownField(inits[i].0.clone())); },
        };
        proof {
            assert(decreases_to!(*inits => inits@[i as int].1));
        }
        let r1 = match inits[i].1.codegen(ctx, scope, b) {
            Ok(v) => v,
            Err(er) => { return Err(er); },
        };
        let v = r1.get_value(b);
        let fp = b.emit(Inst::Gep { ptr: storage, field: idx });
        b.emit(Inst::Store { value: v, ptr: fp });
        i = i + 1;
    }
    proof {
        assert(inits@.subrange(inits@.len() as int, inits@.len() as int).len() == 0);
    }
    Ok(())
}

impl Statement {
    /// Lowers this statement, exactly as [`s_lower_stmt`] describes.
    #[verifier::loop_isolation(false)]
    #[verifier::rlimit(30)]
    pub fn codegen(&self, ctx: &mut TyphoonContext, scope: usize, b: &mut Builder) -> (r: Result<
        (),
        TyphoonError,
    >)
        requires
            old(b)@.is_positioned(),
            scope < old(ctx)@.scopes.len(),
        ensures
            final(ctx)@ == s_lower_stmt(old(ctx)@, scope as int, old(b)@, *self).ctx,
            final(b)@ == s_lower_stmt(old(ctx)@, scope as int, old(b)@, *self).b,
            match r {
                Ok(_) => s_lower_stmt(old(ctx)@, scope as int, old(b)@, *self).res == Ok::<(), ErrV>(()),
                Err(e2) => s_lower_stmt(old(ctx)@, scope as int, old(b)@, *self).res == Err::<(), ErrV>(
                    e2@,
                ),
            },
            final(b)@.is_positioned(),
            final(b)@.cur->Some_0.0 == old(b)@.cur->Some_0.0,
            final(b)@.module.functions.len() == old(b)@.module.functions.len(),
            forall|f: int|
                0 <= f < old(b)@.module.functions.len() ==> old(
                    b,
                )@.module.functions[f].blocks.len() <= final(b)@.module.functions[f].blocks.len(),
            final(ctx)@.scopes.len() >= old(ctx)@.scopes.len(),
        decreases self,
    {
        match self {
            Statement::Declare(name, tyname, init) => {
                let t_init = match init.get_type(ctx, scope) {
                    Ok(t) => t,
                    Err(er) => { return Err(er); },
                };
                let (d_name, d_is_prim, d_bty) = match ctx.get_type_from_name(scope, tyname) {
                    Some(d) => (d.name.clone(), d.is_primitive(), d.generate_type()),
                    None => { return Err(TyphoonError::UnknownType(tyname.clone())); },
                };
                let i_name = match ctx.get_type_from_id(scope, t_init) {
                    Some(t) => t.name.clone(),
                    None => {
                        return Err(TyphoonError::CompileError(String::from_str("unresolved type id")));
                    },
                };
                if !i_name.eq(&d_name) {
                    return Err(TyphoonError::TypeMismatch(i_name, d_name));
                }
                let r1 = match init.codegen(ctx, scope, b) {
                    Ok(v) => v,
                    Err(er) => { return Err(er); },
                };
                if d_is_prim {
                    let v = r1.get_value(b);
                    let ptr = b.emit(Inst::Alloca(d_bty));
                    b.emit(Inst::Store { value: v, ptr });
                    ctx.new_assign(scope, name.clone(), ptr, t_init);
                    Ok(())
                } else {
                    let ptr = r1.unwrap();
                    ctx.new_assign(scope, name.clone(), ptr, t_init);
                    Ok(())
                }
            },
            Statement::Assignment(name, expr) => {
                let bind = match ctx.get_variable(scope, name) {
                    Some(x) => x,
                    None => { return Err(TyphoonError::UndefinedVariable(name.clone())); },
                };
                let r1 = match expr.codegen(ctx, scope, b) {
                    Ok(v) => v,
                    Err(er) => { return Err(er); },
                };
                let v = r1.get_value(b);
                b.emit(Inst::Store { value: v, ptr: bind.storage });
                Ok(())
            },
            Statement::Expr(expr) => {
                match expr.codegen(ctx, scope, b) {
                    Ok(_) => Ok(()),
                    Err(er) => Err(er),
                }
            },
            Statement::Return(expr) => {
                let fr = match ctx.enclosing_function(scope) {
                    Some(f) => f,
                    None => {
                        return Err(
                            TyphoonError::CompileError(String::from_str("return outside of a function")),
                        );
                    },
                };
                let t = match expr.get_type(ctx, scope) {
                    Ok(t) => t,
                    Err(er) => { return Err(er); },
                };
                let r_name = match ctx.get_type_from_id(scope, fr.ret_type_id) {
                    Some(rtv) => rtv.name.clone(),
                    None => {
                        return Err(TyphoonError::CompileError(String::from_str("unresolved type id")));
                    },
                };
                let e_name = match ctx.get_type_from_id(scope, t) {
                    Some(x) => x.name.clone(),
                    None => {
                        return Err(TyphoonError::CompileError(String::from_str("unresolved type id")));
                    },
                };
                if !e_name.eq(&r_name) {
                    return Err(TyphoonError::TypeMismatch(e_name, r_name));
                }
                let r1 = match expr.codegen(ctx, scope, b) {
                    Ok(v) => v,
                    Err(er) => { return Err(er); },
                };
                let v = r1.get_value(b);
                if r_name.eq(&String::from_str("")) {
                    b.emit(Inst::RetVoid);
                } else {
                    b.emit(Inst::Ret(v));
                }
                Ok(())
            },
        }
    }
}

// ---------------------------------------------------------------------------
// The module and function driver.
// ---------------------------------------------------------------------------

/// Whether a function body is a block whose last statement is an explicit
/// `return` (and that has no trailing expression).  A non-void function
/// whose body fails this test is rejected instead of silently falling off
/// its end.
pub open spec fn s_ends_with_return(e: Expr) -> bool {
    match e {
        Expr::Block(stmts, tail) => tail is None && stmts@.len() > 0 && (stmts@.last()
            matches Statement::Return(_)),
        _ => false,
    }
}

/// The backend types and type ids of a parameter list, each name resolved
/// in scope.
pub open spec fn s_resolve_param_types(c: CtxV, s: int, argts: Seq<(Identifier, crate::ast::Type)>) -> Result<
    (Seq<BType>, Seq<u64>),
    ErrV,
>
    decreases argts.len(),
{
    if argts.len() == 0 {
        Ok((Seq::empty(), Seq::empty()))
    } else {
        match s_lookup_type(c, s, argts[0].1.name@) {
            None => Err(ErrV::UnknownType(argts[0].1.name@)),
            Some(t) => match s_resolve_param_types(c, s, argts.subrange(1, argts.len() as int)) {
                Err(e) => Err(e),
                Ok((btys, tids)) => Ok(
                    (seq![s_generate_type(t)] + btys, seq![t.type_id] + tids),
                ),
            },
        }
    }
}

/// The backend types of a struct's field list, each name resolved in scope.
pub open spec fn s_resolve_field_types(c: CtxV, s: int, fields: Seq<(Seq<char>, Seq<char>)>) -> Result<
    Seq<BType>,
    ErrV,
>
    decreases fields.len(),
{
    if fields.len() == 0 {
        Ok(Seq::empty())
    } else {
        match s_lookup_type(c, s, fields[0].1) {
            None => Err(ErrV::UnknownType(fields[0].1)),
            Some(t) => match s_resolve_field_types(c, s, fields.subrange(1, fields.len() as int)) {
                Err(e) => Err(e),
                Ok(btys) => Ok(seq![s_generate_type(t)] + btys),
            },
        }
    }
}

/// Lowering of one function declaration: resolve the signature, add the
/// backend function, register it, create the function's scope and entry
/// block, and lower the body inside it.  A non-void function whose body
/// does not end in an explicit `return` is rejected before anything is
/// emitted.
pub open spec fn s_fun_codegen(c: CtxV, s: int, bv: BuilderV, f: FunctionDeclare) -> StmtOut {
    match s_lookup_type(c, s, f.return_type.name@) {
        None => StmtOut { ctx: c, b: bv, res: Err(ErrV::UnknownType(f.return_type.name@)) },
        Some(rt) => match s_resolve_param_types(c, s, f.args@) {
            Err(e) => StmtOut { ctx: c, b: bv, res: Err(e) },
            Ok((btys, tids)) => if !s_ends_with_return(*f.stats) && rt.name != ""@ {
                StmtOut {
                    ctx: c,
                    b: bv,
                    res: Err(ErrV::CompileError("function body does not end with a return"@)),
                }
            } else {
                let (bv1, fun_idx) = s_add_function(bv, f.name@, btys, s_generate_type(rt));
                let c1 = s_bind_function(
                    c,
                    s,
                    f.name@,
                    FunSigV { fun: fun_idx, param_type_ids: tids, ret_type_id: rt.type_id },
                );
                let (c2, child) = s_child_scope(
                    c1,
                    s as usize,
                    Some(FunRef { fun: fun_idx, ret_type_id: rt.type_id }),
                );
                let (bv2, entry) = s_append_basic_block(bv1, fun_idx as int);
                let bv3 = s_position(bv2, fun_idx, entry);
                let o = s_lower_expr(c2, child as int, bv3, *f.stats);
                match o.res {
                    Err(e) => StmtOut { ctx: o.ctx, b: o.b, res: Err(e) },
                    Ok(_) => if s_ends_with_return(*f.stats) {
                        StmtOut { ctx: o.ctx, b: o.b, res: Ok(()) }
                    } else {
                        let (bv4, _r) = s_emit(o.b, InstV::RetVoid);
                        StmtOut { ctx: o.ctx, b: bv4, res: Ok(()) }
                    },
                }
            },
        },
    }
}

/// Lowering of one struct declaration: build the backend structural type
/// from the name-sorted field list and register the compiled type.
pub open spec fn s_struct_codegen(
    c: CtxV,
    s: int,
    bv: BuilderV,
    name: Seq<char>,
    fields: Seq<(Seq<char>, Seq<char>)>,
) -> StmtOut {
    match s_resolve_field_types(c, s, fields) {
        Err(e) => StmtOut { ctx: c, b: bv, res: Err(e) },
        Ok(btys) => {
            let (bv1, st_idx) = s_define_struct_type(bv, name, btys);
            let (c1, r) = s_define_struct(c, s, name, fields, st_idx);
            match r {
                Ok(_) => StmtOut { ctx: c1, b: bv1, res: Ok(()) },
                Err(e) => StmtOut { ctx: c1, b: bv1, res: Err(e) },
            }
        },
    }
}

/// Lowering of one module item.
pub open spec fn s_lower_item(c: CtxV, s: int, bv: BuilderV, item: ModuleItem) -> StmtOut {
    match item {
        ModuleItem::FunctionDeclare(f) => s_fun_codegen(c, s, bv, f),
        ModuleItem::StructDeclare(d) => s_struct_codegen(c, s, bv, d.name@, d.fields.deep_view()),
    }
}

/// Lowering of a module's items in declaration order, stopping at the first
/// error.
pub open spec fn s_lower_items(c: CtxV, s: int, bv: BuilderV, items: Seq<ModuleItem>) -> StmtOut
    decreases items.len(),
{
    if items.len() == 0 {
        StmtOut { ctx: c, b: bv, res: Ok(()) }
    } else {
        let o = s_lower_item(c, s, bv, items[0]);
        match o.res {
            Err(e) => StmtOut { ctx: o.ctx, b: o.b, res: Err(e) },
            Ok(_) => s_lower_items(o.ctx, s, o.b, items.subrange(1, items.len() as int)),
        }
    }
}

/// The backend module a whole module lowers to — a function of the module
/// value alone.  Lowering starts from a fresh root scope holding the
/// built-in primitive types and an empty backend module.
pub open spec fn s_codegen(m: Module) -> Result<ModuleV, ErrV> {
    let c0 = s_root_ctx();
    let bv0 = BuilderV {
        module: ModuleV { name: "typhoon"@, structs: Seq::empty(), functions: Seq::empty() },
        cur: None,
    };
    let o = s_lower_items(c0, 0, bv0, m.items@);
    match o.res {
        Err(e) => Err(e),
        Ok(_) => Ok(o.b.module),
    }
}

/// Whether this body is a block ending in an explicit `return`.
pub fn ends_with_return(e: &Expr) -> (r: bool)
    ensures
        r == s_ends_with_return(*e),
{
    match e {
        Expr::Block(stmts, tail) => {
            if stmts.len() == 0 {
                return false;
            }
            let last_is_return = match &stmts[stmts.len() - 1] {
                Statement::Return(_) => true,
                _ => false,
            };
            match tail {
                Some(_) => false,
                None => last_is_return,
            }
        },
        _ => false,
    }
}

/// Resolves a parameter list to backend types and type ids.
#[verifier::loop_isolation(false)]
fn resolve_params(ctx: &TyphoonContext, scope: usize, argts: &Vec<(Identifier, crate::ast::Type)>) -> (r:
    Result<(Vec<BType>, Vec<u64>), TyphoonError>)
    ensures
        match r {
            Ok(p) => s_resolve_param_types(ctx@, scope as int, argts@) == Ok::<
                (Seq<BType>, Seq<u64>),
                ErrV,
            >((p.0@, p.1@)),
            Err(e2) => s_resolve_param_types(ctx@, scope as int, argts@) == Err::<
                (Seq<BType>, Seq<u64>),
                ErrV,
            >(e2@),
        },
{
    let mut btys: Vec<BType> = Vec::new();
    let mut tids: Vec<u64> = Vec::new();
    proof {
        assert(argts@.subrange(0, argts@.len() as int) =~= argts@);
    }
    let mut i: usize = 0;
    while i < argts.len()
        invariant
            0 <= i <= argts@.len(),
            btys@.len() == i,
            tids@.len() == i,
            ({
                let full = s_resolve_param_types(ctx@, scope as int, argts@);
                let rest = s_resolve_param_types(
                    ctx@,
                    scope as int,
                    argts@.subrange(i as int, argts@.len() as int),
                );
                match (full, rest) {
                    (Ok(fp), Ok(rp)) => fp.0 == btys@ + rp.0 && fp.1 == tids@ + rp.1,
                    (Err(a), Err(bb)) => a == bb,
                    _ => false,
                }
            }),
        decreases argts@.len() - i,
    {
        let ghost rest = argts@.subrange(i as int, argts@.len() as int);
        proof {
            assert(rest[0] == argts@[i as int]);
            assert(rest.subrange(1, rest.len() as int) =~= argts@.subrange(
                i + 1,
                argts@.len() as int,
            ));
        }
        match ctx.get_type_from_name(scope, &argts[i].1.name) {
            Some(t) => {
                let bty = t.generate_type();
                let tid = t.type_id;
                let ghost bpre = btys@;
                let ghost tpre = tids@;
                btys.push(bty);
                tids.push(tid);
                proof {
                    assert(forall|rb: Seq<BType>| bpre + (seq![bty] + rb) =~= btys@ + rb);
                    assert(forall|rt2: Seq<u64>| tpre + (seq![tid] + rt2) =~= tids@ + rt2);
                }
            },
            None => { return Err(TyphoonError::UnknownType(argts[i].1.name.clone())); },
        }
        i = i + 1;
    }
    proof {
        assert(argts@.subrange(argts@.len() as int, argts@.len() as int).len() == 0);
        assert(btys@ + Seq::<BType>::empty() =~= btys@);
        assert(tids@ + Seq::<u64>::empty() =~= tids@);
    }
    Ok((btys, tids))
}

/// Resolves a struct's field list to backend types.
#[verifier::loop_isolation(false)]
fn resolve_fields(ctx: &TyphoonContext, scope: usize, fields: &Vec<(Identifier, TypeName)>) -> (r:
    Result<Vec<BType>, TyphoonError>)
    ensures
        match r {
            Ok(p) => s_resolve_field_types(ctx@, scope as int, fields.deep_view()) == Ok::<
                Seq<BType>,
                ErrV,
            >(p@),
            Err(e2) => s_resolve_field_types(ctx@, scope as int, fields.deep_view()) == Err::<
                Seq<BType>,
                ErrV,
            >(e2@),
        },
{
    let ghost fv = fields.deep_view();
    let mut btys: Vec<BType> = Vec::new();
    proof {
        assert(fv.subrange(0, fv.len() as int) =~= fv);
        assert(fv.len() == fields@.len());
    }
    let mut i: usize = 0;
    while i < fields.len()
        invariant
            0 <= i <= fv.len(),
            fv.len() == fields@.len(),
            btys@.len() == i,
            ({
                let full = s_resolve_field_types(ctx@, scope as int, fv);
                let rest = s_resolve_field_types(
                    ctx@,
                    scope as int,
                    fv.subrange(i as int, fv.len() as int),
                );
                match (full, rest) {
                    (Ok(fp), Ok(rp)) => fp == btys@ + rp,
                    (Err(a), Err(bb)) => a == bb,
                    _ => false,
                }
            }),
        decreases fv.len() - i,
    {
        let ghost rest = fv.subrange(i as int, fv.len() as int);
        proof {
            assert(rest[0] == fv[i as int]);
            assert(fv[i as int] == fields@[i as int].deep_view());
            assert(rest.subrange(1, rest.len() as int) =~= fv.subrange(i + 1, fv.len() as int));
        }
        match ctx.get_type_from_name(scope, &fields[i].1) {
            Some(t) => {
                let bty = t.generate_type();
                let ghost bpre = btys@;
                btys.push(bty);
                proof {
                    assert(forall|rb: Seq<BType>| bpre + (seq![bty] + rb) =~= btys@ + rb);
                }
            },
            None => { return Err(TyphoonError::UnknownType(fields[i].1.clone())); },
        }
        i = i + 1;
    }
    proof {
        assert(fv.subrange(fv.len() as int, fv.len() as int).len() == 0);
        assert(btys@ + Seq::<BType>::empty() =~= btys@);
    }
    Ok(btys)
}

/// A deep copy of a struct declaration.
fn clone_detail(d: &StructDetail) -> (r: StructDetail)
    ensures
        r.name@ == d.name@,
        r.fields.deep_view() == d.fields.deep_view(),
{
    StructDetail { name: d.name.clone(), fields: clone_fields(&d.fields) }
}

impl FunctionDeclare {
    /// Lowers this function declaration into the module under construction,
    /// exactly as [`s_fun_codegen`] describes.
    pub fn codegen(&self, ctx: &mut TyphoonContext, scope: usize, b: &mut Builder) -> (r: Result<
        (),
        TyphoonError,
    >)
        requires
            scope < old(ctx)@.scopes.len(),
        ensures
            final(ctx)@ == s_fun_codegen(old(ctx)@, scope as int, old(b)@, *self).ctx,
            final(b)@ == s_fun_codegen(old(ctx)@, scope as int, old(b)@, *self).b,
            match r {
                Ok(_) => s_fun_codegen(old(ctx)@, scope as int, old(b)@, *self).res == Ok::<
                    (),
                    ErrV,
                >(()),
                Err(e2) => s_fun_codegen(old(ctx)@, scope as int, old(b)@, *self).res == Err::<
                    (),
                    ErrV,
                >(e2@),
            },
            final(ctx)@.scopes.len() >= old(ctx)@.scopes.len(),
    {
        let (rt_name, rt_tid, rt_bty) = match ctx.get_type_from_name(scope, &self.return_type.name)
            {
            Some(rt) => (rt.name.clone(), rt.type_id, rt.generate_type()),
            None => { return Err(TyphoonError::UnknownType(self.return_type.name.clone())); },
        };
        let (btys, tids) = match resolve_params(ctx, scope, &self.args) {
            Ok(p) => p,
            Err(er) => { return Err(er); },
        };
        let ends = ends_with_return(&self.stats);
        let is_void = rt_name.eq(&String::from_str(""));
        if !ends && !is_void {
            return Err(
                TyphoonError::CompileError(
                    String::from_str("function body does not end with a return"),
                ),
            );
        }
        let fun_idx = b.add_function(self.name.clone(), btys, rt_bty);
        ctx.bind_function(
            scope,
            self.name.clone(),
            FunSig { fun: fun_idx, param_type_ids: tids, ret_type_id: rt_tid },
        );
        let child = ctx.new_with_upper(scope, Some(FunRef { fun: fun_idx, ret_type_id: rt_tid }));
        let entry = b.append_basic_block(fun_idx);
        b.position_at_end(fun_idx, entry);
        match self.stats.codegen(ctx, child, b) {
            Ok(_) => {},
            Err(er) => { return Err(er); },
        }
        if !ends {
            b.emit(Inst::RetVoid);
        }
        Ok(())
    }
}

impl ModuleItem {
    /// Lowers one module item, exactly as [`s_lower_item`] describes.
    pub fn codegen(&self, ctx: &mut TyphoonContext, scope: usize, b: &mut Builder) -> (r: Result<
        (),
        TyphoonError,
    >)
        requires
            scope < old(ctx)@.scopes.len(),
        ensures
            final(ctx)@ == s_lower_item(old(ctx)@, scope as int, old(b)@, *self).ctx,
            final(b)@ == s_lower_item(old(ctx)@, scope as int, old(b)@, *self).b,
            match r {
                Ok(_) => s_lower_item(old(ctx)@, scope as int, old(b)@, *self).res == Ok::<
                    (),
                    ErrV,
                >(()),
                Err(e2) => s_lower_item(old(ctx)@, scope as int, old(b)@, *self).res == Err::<
                    (),
                    ErrV,
                >(e2@),
            },
            final(ctx)@.scopes.len() >= old(ctx)@.scopes.len(),
    {
        match self {
            ModuleItem::FunctionDeclare(f) => f.codegen(ctx, scope, b),
            ModuleItem::StructDeclare(d) => {
                let btys = match resolve_fields(ctx, scope, &d.fields) {
                    Ok(p) => p,
                    Err(er) => { return Err(er); },
                };
                let st_idx = b.define_struct_type(d.name.clone(), btys);
                match ctx.define_struct(scope, clone_detail(d), st_idx) {
                    Ok(_) => Ok(()),
                    Err(er) => Err(er),
                }
            },
        }
    }
}

impl Module {
    /// Lowers the whole module to a backend module.  The result is a
    /// function of the module value alone — lowering the same module twice,
    /// each time from a fresh root scope, yields view-identical backend
    /// modules.
    #[verifier::loop_isolation(false)]
    pub fn codegen(&self) -> (r: Result<BackendModule, TyphoonError>)
        ensures
            match r {
                Ok(m) => s_codegen(*self) == Ok::<ModuleV, ErrV>(m@),
                Err(e2) => s_codegen(*self) == Err::<ModuleV, ErrV>(e2@),
            },
    {
        let mut ctx = TyphoonContext::new();
        let mut b = Builder::new(String::from_str("typhoon"));
        let ghost c0 = ctx@;
        let ghost b0 = b@;
        proof {
            assert(self.items@.subrange(0, self.items@.len() as int) =~= self.items@);
        }
        let mut i: usize = 0;
        while i < self.items.len()
            invariant
                0 <= i <= self.items@.len(),
                0 < ctx@.scopes.len(),
                s_lower_items(c0, 0, b0, self.items@) == s_lower_items(
                    ctx@,
                    0,
                    b@,
                    self.items@.subrange(i as int, self.items@.len() as int),
                ),
            decreases self.items@.len() - i,
        {
            let ghost rest = self.items@.subrange(i as int, self.items@.len() as int);
            proof {
                assert(rest[0] == self.items@[i as int]);
                assert(rest.subrange(1, rest.len() as int) =~= self.items@.subrange(
                    i + 1,
                    self.items@.len() as int,
                ));
            }
            match self.items[i].codegen(&mut ctx, 0, &mut b) {
                Ok(_) => {},
                Err(er) => { return Err(er); },
            }
            i = i + 1;
        }
        proof {
            assert(self.items@.subrange(self.items@.len() as int, self.items@.len() as int).len()
                == 0);
        }
        Ok(b.module)
    }
}

} // verus!
