//! The scoped type and variable registry.
//!
//! Scopes live in an arena owned by [`TyphoonContext`]; each scope stores the
//! index of its parent, so a child can never outlive the chain it hangs on.
//! Lookups are read-through: a miss in the current scope walks the parent
//! chain; a write always targets the named scope only.  Type identity is a
//! registry-assigned integer id, used for table lookups; type *equality* is
//! nominal — by display name — throughout.

use vstd::prelude::*;
use crate::ast::{Identifier, Opcode, StructDetail};
use crate::backend::{BType, ValueId};
use crate::error::{ErrV, TyphoonError};

verus! {

/// What a variable name is bound to: its backing storage and the id of its
/// type.
#[derive(Debug, PartialEq, Eq, Clone, Copy, Structural)]
pub struct VarBind {
    pub storage: ValueId,
    pub type_id: u64,
}

/// The backend function a scope lowers into, with its declared return type.
#[derive(Debug, PartialEq, Eq, Clone, Copy, Structural)]
pub struct FunRef {
    pub fun: usize,
    pub ret_type_id: u64,
}

/// The callable signature a function name is bound to.
#[derive(Debug, Clone)]
pub struct FunSig {
    pub fun: usize,
    pub param_type_ids: Vec<u64>,
    pub ret_type_id: u64,
}

#[verifier::ext_equal]
pub struct FunSigV {
    pub fun: usize,
    pub param_type_ids: Seq<u64>,
    pub ret_type_id: u64,
}

impl View for FunSig {
    type V = FunSigV;

    open spec fn view(&self) -> FunSigV {
        FunSigV {
            fun: self.fun,
            param_type_ids: self.param_type_ids@,
            ret_type_id: self.ret_type_id,
        }
    }
}

/// The structural half of a compiled struct type: its closed field table and
/// the backend structural type built from it.
#[derive(Debug, Clone)]
pub struct StructInfo {
    pub detail: StructDetail,
    pub backend: usize,
}

#[verifier::ext_equal]
pub struct StructInfoV {
    pub name: Seq<char>,
    pub fields: Seq<(Seq<char>, Seq<char>)>,
    pub backend: usize,
}

impl View for StructInfo {
    type V = StructInfoV;

    open spec fn view(&self) -> StructInfoV {
        StructInfoV {
            name: self.detail.name@,
            fields: self.detail.fields.deep_view(),
            backend: self.backend,
        }
    }
}

/// A type as the registry knows it: a display name (the identity that
/// matters), a generated id (a lookup key, never an identity), an operand
/// table for binary expressions, and — for struct types — the field table.
#[derive(Debug, Clone)]
pub struct CompiledType {
    pub name: String,
    pub type_id: u64,
    /// Maps (operator, right-hand type id) to the result type id.
    pub operands: Vec<((Opcode, u64), u64)>,
    pub strukt: Option<StructInfo>,
}

#[verifier::ext_equal]
pub struct TypeV {
    pub name: Seq<char>,
    pub type_id: u64,
    pub operands: Seq<((Opcode, u64), u64)>,
    pub strukt: Option<StructInfoV>,
}

impl View for CompiledType {
    type V = TypeV;

    open spec fn view(&self) -> TypeV {
        TypeV {
            name: self.name@,
            type_id: self.type_id,
            operands: self.operands@,
            strukt: match self.strukt {
                Some(ref s) => Some(s@),
                None => None,
            },
        }
    }
}

/// The operand-table entry for `(opcode, rhs)`, if any.
pub open spec fn s_operand_lookup(
    ops: Seq<((Opcode, u64), u64)>,
    opcode: Opcode,
    rhs: u64,
) -> Option<u64>
    decreases ops.len(),
{
    if ops.len() == 0 {
        None
    } else if ops[0].0.0 == opcode && ops[0].0.1 == rhs {
        Some(ops[0].1)
    } else {
        s_operand_lookup(ops.skip(1), opcode, rhs)
    }
}

/// The index of `field` in a struct's field table, if present.
pub open spec fn s_field_idx(fields: Seq<(Seq<char>, Seq<char>)>, field: Seq<char>) -> Option<int>
    decreases fields.len(),
{
    if fields.len() == 0 {
        None
    } else if fields[0].0 == field {
        Some(0int)
    } else {
        match s_field_idx(fields.skip(1), field) {
            Some(i) => Some(i + 1),
            None => None,
        }
    }
}

/// A found field index lies inside the table and names the field searched
/// for.
pub proof fn lemma_s_field_idx(fields: Seq<(Seq<char>, Seq<char>)>, field: Seq<char>)
    ensures
        match s_field_idx(fields, field) {
            Some(i) => 0 <= i < fields.len() && fields[i].0 == field,
            None => true,
        },
    decreases fields.len(),
{
    if fields.len() > 0 && fields[0].0 != field {
        lemma_s_field_idx(fields.skip(1), field);
    }
}

/// Nominal type equality: two compiled types are the same type exactly when
/// their display names match.  Generated ids, operand tables and field
/// tables play no part.
pub open spec fn s_types_equal(a: TypeV, b: TypeV) -> bool {
    a.name == b.name
}

/// The backend type a compiled type lowers to: its structural type for
/// structs, an integer type chosen by name for the built-in primitives, void
/// for the empty name.  An unrecognized primitive name falls back to a
/// 32-bit integer.
pub open spec fn s_generate_type(t: TypeV) -> BType {
    match t.strukt {
        Some(s) => BType::Struct(s.backend),
        None => if t.name == "i8"@ {
            BType::Int { width: 8, signed: true }
        } else if t.name == "i16"@ {
            BType::Int { width: 16, signed: true }
        } else if t.name == "u8"@ {
            BType::Int { width: 8, signed: false }
        } else if t.name == "u16"@ {
            BType::Int { width: 16, signed: false }
        } else if t.name == "u32"@ {
            BType::Int { width: 32, signed: false }
        } else if t.name == ""@ {
            BType::Void
        } else {
            BType::Int { width: 32, signed: true }
        },
    }
}

impl CompiledType {
    /// Nominal equality: two types are the same type exactly when their
    /// names match; ids play no part.
    pub fn equals(&self, other: &CompiledType) -> (r: bool)
        ensures
            r == s_types_equal(self@, other@),
    {
        self.name.eq(&other.name)
    }

    /// Whether this is a primitive (non-struct) type.
    pub fn is_primitive(&self) -> (r: bool)
        ensures
            r == (self@.strukt is None),
    {
        self.strukt.is_none()
    }

    /// Looks up the result type of applying `opcode` with a right operand of
    /// type `rhs` to a value of this type.
    pub fn get_operand_type(&self, opcode: Opcode, rhs: u64) -> (r: Option<u64>)
        ensures
            r == s_operand_lookup(self@.operands, opcode, rhs),
    {
        let ghost all = self@.operands;
        proof {
            assert(all.skip(0) =~= all);
        }
        let mut j: usize = 0;
        while j < self.operands.len()
            invariant
                0 <= j <= self.operands.len(),
                all == self@.operands,
                s_operand_lookup(all, opcode, rhs) == s_operand_lookup(
                    all.skip(j as int),
                    opcode,
                    rhs,
                ),
            decreases self.operands.len() - j,
        {
            let ghost pre = all.skip(j as int);
            proof {
                assert(pre[0] == all[j as int]);
            }
            let entry = &self.operands[j];
            if entry.0.0 == opcode && entry.0.1 == rhs {
                return Some(entry.1);
            }
            proof {
                assert(pre.skip(1) =~= all.skip(j + 1));
            }
            j = j + 1;
        }
        proof {
            assert(all.skip(j as int).len() == 0);
        }
        None
    }

    /// Whether the operand table has an entry for `(opcode, rhs)`.
    pub fn can_be_operand(&self, opcode: Opcode, rhs: u64) -> (r: bool)
        ensures
            r == (s_operand_lookup(self@.operands, opcode, rhs) is Some),
    {
        self.get_operand_type(opcode, rhs).is_some()
    }

    /// The position of `field` in this struct type's field table.
    pub fn get_type_field_idx(&self, field: &String) -> (r: Option<usize>)
        ensures
            match self@.strukt {
                Some(s) => match s_field_idx(s.fields, field@) {
                    Some(i) => r == Some(i as usize),
                    None => r is None,
                },
                None => r is None,
            },
    {
        let info = match &self.strukt {
            Some(info) => info,
            None => { return None; },
        };
        let fields = &info.detail.fields;
        let ghost all = self@.strukt->Some_0.fields;
        proof {
            assert(all.skip(0) =~= all);
        }
        let mut j: usize = 0;
        while j < fields.len()
            invariant
                0 <= j <= fields.len(),
                all == fields.deep_view(),
                all.len() == fields.len(),
                self@.strukt is Some,
                self@.strukt->Some_0.fields == all,
                s_field_idx(all, field@) == (match s_field_idx(all.skip(j as int), field@) {
                    Some(i) => Some(i + j),
                    None => None::<int>,
                }),
            decreases fields.len() - j,
        {
            let ghost pre = all.skip(j as int);
            proof {
                assert(pre[0] == all[j as int]);
                assert(all[j as int].0 == fields@[j as int].0@);
            }
            if fields[j].0.eq(field) {
                proof {
                    assert(s_field_idx(pre, field@) == Some(0int));
                }
                return Some(j);
            }
            proof {
                assert(pre.skip(1) =~= all.skip(j + 1));
            }
            j = j + 1;
        }
        proof {
            assert(all.skip(j as int).len() == 0);
        }
        None
    }

    /// The name of the type of `field`, read from this struct type's field
    /// table.
    pub fn get_field_type_name(&self, field: &String) -> (r: Option<&String>)
        ensures
            match self@.strukt {
                Some(s) => match s_field_idx(s.fields, field@) {
                    Some(i) => r matches Some(n) && n@ == s.fields[i].1,
                    None => r is None,
                },
                None => r is None,
            },
    {
        let idx = match self.get_type_field_idx(field) {
            Some(idx) => idx,
            None => { return None; },
        };
        let info = match &self.strukt {
            Some(info) => info,
            None => { return None; },
        };
        let flen = info.detail.fields.len();
        proof {
            let s = self@.strukt->Some_0;
            lemma_s_field_idx(s.fields, field@);
            assert(s.fields == info.detail.fields.deep_view());
            assert(s.fields.len() == flen);
            assert(s_field_idx(s.fields, field@)->Some_0 == idx as int);
            assert(info.detail.fields.deep_view()[idx as int] == info.detail.fields@[idx as int].deep_view());
            assert(info.detail.fields@[idx as int].deep_view().1 == info.detail.fields@[idx as int].1@);
        }
        Some(&info.detail.fields[idx].1)
    }

    /// The backend type this type lowers to.
    pub fn generate_type(&self) -> (r: BType)
        ensures
            r == s_generate_type(self@),
    {
        match &self.strukt {
            Some(info) => BType::Struct(info.backend),
            None => {
                if self.name.eq(&String::from_str("i8")) {
                    BType::Int { width: 8, signed: true }
                } else if self.name.eq(&String::from_str("i16")) {
                    BType::Int { width: 16, signed: true }
                } else if self.name.eq(&String::from_str("u8")) {
                    BType::Int { width: 8, signed: false }
                } else if self.name.eq(&String::from_str("u16")) {
                    BType::Int { width: 16, signed: false }
                } else if self.name.eq(&String::from_str("u32")) {
                    BType::Int { width: 32, signed: false }
                } else if self.name.eq(&String::from_str("")) {
                    BType::Void
                } else {
                    BType::Int { width: 32, signed: true }
                }
            },
        }
    }
}

/// One lexical scope.
#[derive(Debug)]
pub struct ScopeData {
    /// The parent scope's arena index; `None` only for the root.
    pub upper: Option<usize>,
    pub variables: Vec<(String, VarBind)>,
    pub functions: Vec<(String, FunSig)>,
    pub types: Vec<CompiledType>,
    /// The backend function this scope lowers into, if any.
    pub function: Option<FunRef>,
}

#[verifier::ext_equal]
pub struct ScopeV {
    pub upper: Option<usize>,
    pub variables: Seq<(Seq<char>, VarBind)>,
    pub functions: Seq<(Seq<char>, FunSigV)>,
    pub types: Seq<TypeV>,
    pub function: Option<FunRef>,
}

impl View for ScopeData {
    type V = ScopeV;

    open spec fn view(&self) -> ScopeV {
        ScopeV {
            upper: self.upper,
            variables: self.variables@.map_values(|p: (String, VarBind)| (p.0@, p.1)),
            functions: self.functions@.map_values(|p: (String, FunSig)| (p.0@, p.1@)),
            types: self.types@.map_values(|t: CompiledType| t@),
            function: self.function,
        }
    }
}

/// The whole compilation context: the scope arena and the next fresh type
/// id.
#[derive(Debug)]
pub struct TyphoonContext {
    pub scopes: Vec<ScopeData>,
    pub next_type_id: u64,
}

#[verifier::ext_equal]
pub struct CtxV {
    pub scopes: Seq<ScopeV>,
    pub next_type_id: u64,
}

impl View for TyphoonContext {
    type V = CtxV;

    open spec fn view(&self) -> CtxV {
        CtxV {
            scopes: self.scopes@.map_values(|s: ScopeData| s@),
            next_type_id: self.next_type_id,
        }
    }
}

// ---------------------------------------------------------------------------
// Spec-level lookups.
// ---------------------------------------------------------------------------

/// The first binding for `name` in one scope's variable table.
pub open spec fn s_vars_find(vars: Seq<(Seq<char>, VarBind)>, name: Seq<char>) -> Option<VarBind>
    decreases vars.len(),
{
    if vars.len() == 0 {
        None
    } else if vars[0].0 == name {
        Some(vars[0].1)
    } else {
        s_vars_find(vars.skip(1), name)
    }
}

/// One scope's variable table after binding `name`: an existing binding is
/// overwritten in place, otherwise the binding is appended.
pub open spec fn s_vars_put(
    vars: Seq<(Seq<char>, VarBind)>,
    name: Seq<char>,
    b: VarBind,
) -> Seq<(Seq<char>, VarBind)>
    decreases vars.len(),
{
    if vars.len() == 0 {
        seq![(name, b)]
    } else if vars[0].0 == name {
        seq![(name, b)] + vars.skip(1)
    } else {
        seq![vars[0]] + s_vars_put(vars.skip(1), name, b)
    }
}

/// The first signature for `name` in one scope's function table.
pub open spec fn s_funs_find(funs: Seq<(Seq<char>, FunSigV)>, name: Seq<char>) -> Option<FunSigV>
    decreases funs.len(),
{
    if funs.len() == 0 {
        None
    } else if funs[0].0 == name {
        Some(funs[0].1)
    } else {
        s_funs_find(funs.skip(1), name)
    }
}

/// One scope's function table after binding `name`.
pub open spec fn s_funs_put(
    funs: Seq<(Seq<char>, FunSigV)>,
    name: Seq<char>,
    sig: FunSigV,
) -> Seq<(Seq<char>, FunSigV)>
    decreases funs.len(),
{
    if funs.len() == 0 {
        seq![(name, sig)]
    } else if funs[0].0 == name {
        seq![(name, sig)] + funs.skip(1)
    } else {
        seq![funs[0]] + s_funs_put(funs.skip(1), name, sig)
    }
}

/// The first type called `name` in one scope's type table.
pub open spec fn s_types_find(types: Seq<TypeV>, name: Seq<char>) -> Option<TypeV>
    decreases types.len(),
{
    if types.len() == 0 {
        None
    } else if types[0].name == name {
        Some(types[0])
    } else {
        s_types_find(types.skip(1), name)
    }
}

/// The first type with id `id` in one scope's type table.
pub open spec fn s_types_find_id(types: Seq<TypeV>, id: u64) -> Option<TypeV>
    decreases types.len(),
{
    if types.len() == 0 {
        None
    } else if types[0].type_id == id {
        Some(types[0])
    } else {
        s_types_find_id(types.skip(1), id)
    }
}

/// One scope's type table after registering `t`: an existing type of the
/// same name is overwritten in place, otherwise `t` is appended.
pub open spec fn s_types_put(types: Seq<TypeV>, t: TypeV) -> Seq<TypeV>
    decreases types.len(),
{
    if types.len() == 0 {
        seq![t]
    } else if types[0].name == t.name {
        seq![t] + types.skip(1)
    } else {
        seq![types[0]] + s_types_put(types.skip(1), t)
    }
}

/// Whether `s` names a scope of `c`, and its parent link points strictly
/// downwards (parents are always created before their children).
pub open spec fn s_scope_ok(c: CtxV, s: int) -> bool {
    0 <= s < c.scopes.len() && match c.scopes[s].upper {
        Some(p) => p < s,
        None => true,
    }
}

/// Chain lookup of a type by name: nearest enclosing scope wins.
pub open spec fn s_lookup_type(c: CtxV, s: int, name: Seq<char>) -> Option<TypeV>
    decreases s,
{
    if 0 <= s < c.scopes.len() {
        match s_types_find(c.scopes[s].types, name) {
            Some(t) => Some(t),
            None => match c.scopes[s].upper {
                Some(p) => if p < s {
                    s_lookup_type(c, p as int, name)
                } else {
                    None
                },
                None => None,
            },
        }
    } else {
        None
    }
}

/// Chain lookup of a type by id.
pub open spec fn s_lookup_type_by_id(c: CtxV, s: int, id: u64) -> Option<TypeV>
    decreases s,
{
    if 0 <= s < c.scopes.len() {
        match s_types_find_id(c.scopes[s].types, id) {
            Some(t) => Some(t),
            None => match c.scopes[s].upper {
                Some(p) => if p < s {
                    s_lookup_type_by_id(c, p as int, id)
                } else {
                    None
                },
                None => None,
            },
        }
    } else {
        None
    }
}

/// Chain lookup of a variable binding.
pub open spec fn s_lookup_var(c: CtxV, s: int, name: Seq<char>) -> Option<VarBind>
    decreases s,
{
    if 0 <= s < c.scopes.len() {
        match s_vars_find(c.scopes[s].variables, name) {
            Some(b) => Some(b),
            None => match c.scopes[s].upper {
                Some(p) => if p < s {
                    s_lookup_var(c, p as int, name)
                } else {
                    None
                },
                None => None,
            },
        }
    } else {
        None
    }
}

/// Chain lookup of a function signature.
pub open spec fn s_lookup_fun(c: CtxV, s: int, name: Seq<char>) -> Option<FunSigV>
    decreases s,
{
    if 0 <= s < c.scopes.len() {
        match s_funs_find(c.scopes[s].functions, name) {
            Some(f) => Some(f),
            None => match c.scopes[s].upper {
                Some(p) => if p < s {
                    s_lookup_fun(c, p as int, name)
                } else {
                    None
                },
                None => None,
            },
        }
    } else {
        None
    }
}

/// The nearest enclosing scope's backend function, if any.
pub open spec fn s_enclosing_function(c: CtxV, s: int) -> Option<FunRef>
    decreases s,
{
    if 0 <= s < c.scopes.len() {
        match c.scopes[s].function {
            Some(f) => Some(f),
            None => match c.scopes[s].upper {
                Some(p) => if p < s {
                    s_enclosing_function(c, p as int)
                } else {
                    None
                },
                None => None,
            },
        }
    } else {
        None
    }
}

/// The context after binding a variable in scope `s` (all other scopes are
/// untouched).
pub open spec fn s_new_assign(c: CtxV, s: int, name: Seq<char>, b: VarBind) -> CtxV {
    let sc = c.scopes[s];
    CtxV {
        scopes: c.scopes.update(s, ScopeV { variables: s_vars_put(sc.variables, name, b), ..sc }),
        ..c
    }
}

/// The context after binding a function signature in scope `s`.
pub open spec fn s_bind_function(c: CtxV, s: int, name: Seq<char>, sig: FunSigV) -> CtxV {
    let sc = c.scopes[s];
    CtxV {
        scopes: c.scopes.update(s, ScopeV { functions: s_funs_put(sc.functions, name, sig), ..sc }),
        ..c
    }
}

/// The context after allocating a child scope of `upper`, and the child's
/// index.
pub open spec fn s_child_scope(c: CtxV, upper: usize, function: Option<FunRef>) -> (CtxV, usize) {
    (
        CtxV {
            scopes: c.scopes.push(
                ScopeV {
                    upper: Some(upper),
                    variables: Seq::empty(),
                    functions: Seq::empty(),
                    types: Seq::empty(),
                    function,
                },
            ),
            ..c
        },
        c.scopes.len() as usize,
    )
}

/// The context after registering a struct type in scope `s`, and the type's
/// fresh id — or an error when the id space is exhausted.
pub open spec fn s_define_struct(
    c: CtxV,
    s: int,
    name: Seq<char>,
    fields: Seq<(Seq<char>, Seq<char>)>,
    backend: usize,
) -> (CtxV, Result<u64, ErrV>) {
    if c.next_type_id == u64::MAX {
        (c, Err(ErrV::CompileError("type id space exhausted"@)))
    } else {
        let t = TypeV {
            name: name,
            type_id: c.next_type_id,
            operands: Seq::empty(),
            strukt: Some(StructInfoV { name: name, fields: fields, backend: backend }),
        };
        let sc = c.scopes[s];
        (
            CtxV {
                scopes: c.scopes.update(s, ScopeV { types: s_types_put(sc.types, t), ..sc }),
                next_type_id: (c.next_type_id + 1) as u64,
            },
            Ok(c.next_type_id),
        )
    }
}

/// The operand table of a built-in primitive: {add, sub, mul, div} between
/// two values of the same type, producing that type.  No implicit widening
/// and no mixed-type arithmetic.
pub open spec fn s_prim_type(name: Seq<char>, id: u64) -> TypeV {
    TypeV {
        name: name,
        type_id: id,
        operands: seq![
            ((Opcode::Add, id), id),
            ((Opcode::Sub, id), id),
            ((Opcode::Mul, id), id),
            ((Opcode::Div, id), id),
        ],
        strukt: None,
    }
}

/// The void/unit type, registered under the empty name with id 0.
pub open spec fn s_void_type() -> TypeV {
    TypeV { name: ""@, type_id: 0, operands: Seq::empty(), strukt: None }
}

/// The root context: one scope holding the built-in primitive types.
pub open spec fn s_root_ctx() -> CtxV {
    CtxV {
        scopes: seq![
            ScopeV {
                upper: None,
                variables: Seq::empty(),
                functions: Seq::empty(),
                types: seq![
                    s_void_type(),
                    s_prim_type("i8"@, 1),
                    s_prim_type("i16"@, 2),
                    s_prim_type("i32"@, 3),
                    s_prim_type("u8"@, 4),
                    s_prim_type("u16"@, 5),
                    s_prim_type("u32"@, 6),
                ],
                function: None,
            },
        ],
        next_type_id: 7,
    }
}

fn make_prim(name: String, id: u64) -> (t: CompiledType)
    ensures
        t@ == s_prim_type(name@, id),
{
    let mut operands: Vec<((Opcode, u64), u64)> = Vec::new();
    operands.push(((Opcode::Add, id), id));
    operands.push(((Opcode::Sub, id), id));
    operands.push(((Opcode::Mul, id), id));
    operands.push(((Opcode::Div, id), id));
    let t = CompiledType { name, type_id: id, operands, strukt: None };
    proof {
        assert(t@ =~~= s_prim_type(t.name@, id));
    }
    t
}

fn find_type_by_name<'a>(types: &'a Vec<CompiledType>, name: &String) -> (r: Option<
    &'a CompiledType,
>)
    ensures
        match r {
            Some(t) => s_types_find(types@.map_values(|t: CompiledType| t@), name@) == Some(t@),
            None => s_types_find(types@.map_values(|t: CompiledType| t@), name@) is None,
        },
{
    let ghost all = types@.map_values(|t: CompiledType| t@);
    proof {
        assert(all.skip(0) =~= all);
    }
    let mut j: usize = 0;
    while j < types.len()
        invariant
            0 <= j <= types.len(),
            all == types@.map_values(|t: CompiledType| t@),
            all.len() == types.len(),
            s_types_find(all, name@) == s_types_find(all.skip(j as int), name@),
        decreases types.len() - j,
    {
        let ghost pre = all.skip(j as int);
        proof {
            assert(pre[0] == all[j as int]);
        }
        if types[j].name.eq(name) {
            return Some(&types[j]);
        }
        proof {
            assert(pre.skip(1) =~= all.skip(j + 1));
        }
        j = j + 1;
    }
    proof {
        assert(all.skip(j as int).len() == 0);
    }
    None
}

fn find_type_by_id<'a>(types: &'a Vec<CompiledType>, id: u64) -> (r: Option<&'a CompiledType>)
    ensures
        match r {
            Some(t) => s_types_find_id(types@.map_values(|t: CompiledType| t@), id) == Some(t@),
            None => s_types_find_id(types@.map_values(|t: CompiledType| t@), id) is None,
        },
{
    let ghost all = types@.map_values(|t: CompiledType| t@);
    proof {
        assert(all.skip(0) =~= all);
    }
    let mut j: usize = 0;
    while j < types.len()
        invariant
            0 <= j <= types.len(),
            all == types@.map_values(|t: CompiledType| t@),
            all.len() == types.len(),
            s_types_find_id(all, id) == s_types_find_id(all.skip(j as int), id),
        decreases types.len() - j,
    {
        let ghost pre = all.skip(j as int);
        proof {
            assert(pre[0] == all[j as int]);
        }
        if types[j].type_id == id {
            return Some(&types[j]);
        }
        proof {
            assert(pre.skip(1) =~= all.skip(j + 1));
        }
        j = j + 1;
    }
    proof {
        assert(all.skip(j as int).len() == 0);
    }
    None
}

fn find_var(vars: &Vec<(String, VarBind)>, name: &String) -> (r: Option<VarBind>)
    ensures
        r == s_vars_find(vars@.map_values(|p: (String, VarBind)| (p.0@, p.1)), name@),
{
    let ghost all = vars@.map_values(|p: (String, VarBind)| (p.0@, p.1));
    proof {
        assert(all.skip(0) =~= all);
    }
    let mut j: usize = 0;
    while j < vars.len()
        invariant
            0 <= j <= vars.len(),
            all == vars@.map_values(|p: (String, VarBind)| (p.0@, p.1)),
            all.len() == vars.len(),
            s_vars_find(all, name@) == s_vars_find(all.skip(j as int), name@),
        decreases vars.len() - j,
    {
        let ghost pre = all.skip(j as int);
        proof {
            assert(pre[0] == all[j as int]);
        }
        if vars[j].0.eq(name) {
            return Some(vars[j].1);
        }
        proof {
            assert(pre.skip(1) =~= all.skip(j + 1));
        }
        j = j + 1;
    }
    proof {
        assert(all.skip(j as int).len() == 0);
    }
    None
}

fn find_fun<'a>(funs: &'a Vec<(String, FunSig)>, name: &String) -> (r: Option<&'a FunSig>)
    ensures
        match r {
            Some(f) => s_funs_find(funs@.map_values(|p: (String, FunSig)| (p.0@, p.1@)), name@)
                == Some(f@),
            None => s_funs_find(funs@.map_values(|p: (String, FunSig)| (p.0@, p.1@)), name@)
                is None,
        },
{
    let ghost all = funs@.map_values(|p: (String, FunSig)| (p.0@, p.1@));
    proof {
        assert(all.skip(0) =~= all);
    }
    let mut j: usize = 0;
    while j < funs.len()
        invariant
            0 <= j <= funs.len(),
            all == funs@.map_values(|p: (String, FunSig)| (p.0@, p.1@)),
            all.len() == funs.len(),
            s_funs_find(all, name@) == s_funs_find(all.skip(j as int), name@),
        decreases funs.len() - j,
    {
        let ghost pre = all.skip(j as int);
        proof {
            assert(pre[0] == all[j as int]);
        }
        if funs[j].0.eq(name) {
            return Some(&funs[j].1);
        }
        proof {
            assert(pre.skip(1) =~= all.skip(j + 1));
        }
        j = j + 1;
    }
    proof {
        assert(all.skip(j as int).len() == 0);
    }
    None
}

fn vars_put(vars: &mut Vec<(String, VarBind)>, name: String, b: VarBind)
    ensures
        final(vars)@.map_values(|p: (String, VarBind)| (p.0@, p.1)) == s_vars_put(
            old(vars)@.map_values(|p: (String, VarBind)| (p.0@, p.1)),
            name@,
            b,
        ),
{
    let ghost orig = vars@.map_values(|p: (String, VarBind)| (p.0@, p.1));
    proof {
        assert(orig.skip(0) =~= orig);
        assert(orig.take(0) + s_vars_put(orig.skip(0), name@, b) =~= s_vars_put(orig, name@, b));
    }
    let mut j: usize = 0;
    while j < vars.len()
        invariant
            0 <= j <= vars.len(),
            old(vars)@.map_values(|p: (String, VarBind)| (p.0@, p.1)) == orig,
            vars@.map_values(|p: (String, VarBind)| (p.0@, p.1)) == orig,
            orig.len() == vars.len(),
            s_vars_put(orig, name@, b) == orig.take(j as int) + s_vars_put(
                orig.skip(j as int),
                name@,
                b,
            ),
        decreases vars.len() - j,
    {
        let ghost pre = orig.skip(j as int);
        proof {
            assert(pre[0] == orig[j as int]);
        }
        if vars[j].0.eq(&name) {
            let ghost tail = pre.skip(1);
            vars.remove(j);
            vars.insert(j, (name, b));
            proof {
                assert(s_vars_put(pre, name@, b) =~= seq![(name@, b)] + tail);
                assert(vars@.map_values(|p: (String, VarBind)| (p.0@, p.1)) =~= orig.take(
                    j as int,
                ) + (seq![(name@, b)] + tail));
            }
            return ;
        }
        proof {
            assert(pre.skip(1) =~= orig.skip(j + 1));
            assert(s_vars_put(pre, name@, b) == seq![pre[0]] + s_vars_put(pre.skip(1), name@, b));
            assert(orig.take(j as int) + s_vars_put(pre, name@, b) =~= orig.take(j + 1)
                + s_vars_put(orig.skip(j + 1), name@, b));
        }
        j = j + 1;
    }
    vars.push((name, b));
    proof {
        let pre = orig.skip(j as int);
        assert(pre.len() == 0);
        assert(s_vars_put(pre, name@, b) =~= seq![(name@, b)]);
        assert(vars@.map_values(|p: (String, VarBind)| (p.0@, p.1)) =~= orig.take(j as int)
            + seq![(name@, b)]);
    }
}

fn funs_put(funs: &mut Vec<(String, FunSig)>, name: String, sig: FunSig)
    ensures
        final(funs)@.map_values(|p: (String, FunSig)| (p.0@, p.1@)) == s_funs_put(
            old(funs)@.map_values(|p: (String, FunSig)| (p.0@, p.1@)),
            name@,
            sig@,
        ),
{
    let ghost orig = funs@.map_values(|p: (String, FunSig)| (p.0@, p.1@));
    let ghost sv = sig@;
    proof {
        assert(orig.skip(0) =~= orig);
        assert(orig.take(0) + s_funs_put(orig.skip(0), name@, sv) =~= s_funs_put(orig, name@, sv));
    }
    let mut j: usize = 0;
    while j < funs.len()
        invariant
            0 <= j <= funs.len(),
            old(funs)@.map_values(|p: (String, FunSig)| (p.0@, p.1@)) == orig,
            funs@.map_values(|p: (String, FunSig)| (p.0@, p.1@)) == orig,
            orig.len() == funs.len(),
            sv == sig@,
            s_funs_put(orig, name@, sv) == orig.take(j as int) + s_funs_put(
                orig.skip(j as int),
                name@,
                sv,
            ),
        decreases funs.len() - j,
    {
        let ghost pre = orig.skip(j as int);
        proof {
            assert(pre[0] == orig[j as int]);
        }
        if funs[j].0.eq(&name) {
            let ghost tail = pre.skip(1);
            funs.remove(j);
            funs.insert(j, (name, sig));
            proof {
                assert(s_funs_put(pre, name@, sv) =~= seq![(name@, sv)] + tail);
                assert(funs@.map_values(|p: (String, FunSig)| (p.0@, p.1@)) =~= orig.take(
                    j as int,
                ) + (seq![(name@, sv)] + tail));
            }
            return ;
        }
        proof {
            assert(pre.skip(1) =~= orig.skip(j + 1));
            assert(s_funs_put(pre, name@, sv) == seq![pre[0]] + s_funs_put(pre.skip(1), name@, sv));
            assert(orig.take(j as int) + s_funs_put(pre, name@, sv) =~= orig.take(j + 1)
                + s_funs_put(orig.skip(j + 1), name@, sv));
        }
        j = j + 1;
    }
    funs.push((name, sig));
    proof {
        let pre = orig.skip(j as int);
        assert(pre.len() == 0);
        assert(s_funs_put(pre, name@, sv) =~= seq![(name@, sv)]);
        assert(funs@.map_values(|p: (String, FunSig)| (p.0@, p.1@)) =~= orig.take(j as int)
            + seq![(name@, sv)]);
    }
}

fn types_put(types: &mut Vec<CompiledType>, t: CompiledType)
    ensures
        final(types)@.map_values(|x: CompiledType| x@) == s_types_put(
            old(types)@.map_values(|x: CompiledType| x@),
            t@,
        ),
{
    let ghost orig = types@.map_values(|x: CompiledType| x@);
    let ghost tv = t@;
    proof {
        assert(orig.skip(0) =~= orig);
        assert(orig.take(0) + s_types_put(orig.skip(0), tv) =~= s_types_put(orig, tv));
    }
    let mut j: usize = 0;
    while j < types.len()
        invariant
            0 <= j <= types.len(),
            old(types)@.map_values(|x: CompiledType| x@) == orig,
            types@.map_values(|x: CompiledType| x@) == orig,
            orig.len() == types.len(),
            tv == t@,
            s_types_put(orig, tv) == orig.take(j as int) + s_types_put(orig.skip(j as int), tv),
        decreases types.len() - j,
    {
        let ghost pre = orig.skip(j as int);
        proof {
            assert(pre[0] == orig[j as int]);
        }
        if types[j].name.eq(&t.name) {
            let ghost tail = pre.skip(1);
            types.remove(j);
            types.insert(j, t);
            proof {
                assert(s_types_put(pre, tv) =~= seq![tv] + tail);
                assert(types@.map_values(|x: CompiledType| x@) =~= orig.take(j as int) + (seq![tv]
                    + tail));
            }
            return ;
        }
        proof {
            assert(pre.skip(1) =~= orig.skip(j + 1));
            assert(s_types_put(pre, tv) == seq![pre[0]] + s_types_put(pre.skip(1), tv));
            assert(orig.take(j as int) + s_types_put(pre, tv) =~= orig.take(j + 1) + s_types_put(
                orig.skip(j + 1),
                tv,
            ));
        }
        j = j + 1;
    }
    types.push(t);
    proof {
        let pre = orig.skip(j as int);
        assert(pre.len() == 0);
        assert(s_types_put(pre, tv) =~= seq![tv]);
        assert(types@.map_values(|x: CompiledType| x@) =~= orig.take(j as int) + seq![tv]);
    }
}

impl TyphoonContext {
    /// The root context of a fresh compilation, pre-populated with the
    /// built-in primitive types.
    pub fn new() -> (c: TyphoonContext)
        ensures
            c@ == s_root_ctx(),
    {
        let mut types: Vec<CompiledType> = Vec::new();
        types.push(
            CompiledType {
                name: String::from_str(""),
                type_id: 0,
                operands: Vec::new(),
                strukt: None,
            },
        );
        types.push(make_prim(String::from_str("i8"), 1));
        types.push(make_prim(String::from_str("i16"), 2));
        types.push(make_prim(String::from_str("i32"), 3));
        types.push(make_prim(String::from_str("u8"), 4));
        types.push(make_prim(String::from_str("u16"), 5));
        types.push(make_prim(String::from_str("u32"), 6));
        let root = ScopeData {
            upper: None,
            variables: Vec::new(),
            functions: Vec::new(),
            types,
            function: None,
        };
        let mut scopes: Vec<ScopeData> = Vec::new();
        scopes.push(root);
        let c = TyphoonContext { scopes, next_type_id: 7 };
        proof {
            assert(c@.scopes[0].types =~~= s_root_ctx().scopes[0].types);
            assert(c@.scopes[0] =~~= s_root_ctx().scopes[0]);
            assert(c@ =~~= s_root_ctx());
        }
        c
    }

    /// Allocates a child scope hanging under `upper`; lookups that miss in
    /// the child tunnel through to the parent.
    pub fn new_with_upper(&mut self, upper: usize, function: Option<FunRef>) -> (s: usize)
        requires
            upper < old(self)@.scopes.len(),
        ensures
            (final(self)@, s) == s_child_scope(old(self)@, upper, function),
            s_scope_ok(final(self)@, s as int),
    {
        let s = self.scopes.len();
        self.scopes.push(
            ScopeData {
                upper: Some(upper),
                variables: Vec::new(),
                functions: Vec::new(),
                types: Vec::new(),
                function,
            },
        );
        proof {
            assert(self@.scopes =~~= s_child_scope(old(self)@, upper, function).0.scopes);
            assert(self@ =~~= s_child_scope(old(self)@, upper, function).0);
        }
        s
    }

    /// Chain lookup of a type by name: the nearest enclosing scope wins.
    pub fn get_type_from_name(&self, scope: usize, name: &String) -> (r: Option<&CompiledType>)
        ensures
            match r {
                Some(t) => s_lookup_type(self@, scope as int, name@) == Some(t@),
                None => s_lookup_type(self@, scope as int, name@) is None,
            },
        decreases scope,
    {
        if scope >= self.scopes.len() {
            return None;
        }
        match find_type_by_name(&self.scopes[scope].types, name) {
            Some(t) => Some(t),
            None => match self.scopes[scope].upper {
                Some(p) => if p < scope {
                    self.get_type_from_name(p, name)
                } else {
                    None
                },
                None => None,
            },
        }
    }

    /// Chain lookup of a type by its registry-assigned id.
    pub fn get_type_from_id(&self, scope: usize, id: u64) -> (r: Option<&CompiledType>)
        ensures
            match r {
                Some(t) => s_lookup_type_by_id(self@, scope as int, id) == Some(t@),
                None => s_lookup_type_by_id(self@, scope as int, id) is None,
            },
        decreases scope,
    {
        if scope >= self.scopes.len() {
            return None;
        }
        match find_type_by_id(&self.scopes[scope].types, id) {
            Some(t) => Some(t),
            None => match self.scopes[scope].upper {
                Some(p) => if p < scope {
                    self.get_type_from_id(p, id)
                } else {
                    None
                },
                None => None,
            },
        }
    }

    /// Chain lookup of a variable binding.
    pub fn get_variable(&self, scope: usize, name: &String) -> (r: Option<VarBind>)
        ensures
            r == s_lookup_var(self@, scope as int, name@),
        decreases scope,
    {
        if scope >= self.scopes.len() {
            return None;
        }
        match find_var(&self.scopes[scope].variables, name) {
            Some(b) => Some(b),
            None => match self.scopes[scope].upper {
                Some(p) => if p < scope {
                    self.get_variable(p, name)
                } else {
                    None
                },
                None => None,
            },
        }
    }

    /// Chain lookup of a function signature.
    pub fn lookup_function(&self, scope: usize, name: &String) -> (r: Option<&FunSig>)
        ensures
            match r {
                Some(f) => s_lookup_fun(self@, scope as int, name@) == Some(f@),
                None => s_lookup_fun(self@, scope as int, name@) is None,
            },
        decreases scope,
    {
        if scope >= self.scopes.len() {
            return None;
        }
        match find_fun(&self.scopes[scope].functions, name) {
            Some(f) => Some(f),
            None => match self.scopes[scope].upper {
                Some(p) => if p < scope {
                    self.lookup_function(p, name)
                } else {
                    None
                },
                None => None,
            },
        }
    }

    /// The backend function of the nearest enclosing scope bound to one.
    pub fn enclosing_function(&self, scope: usize) -> (r: Option<FunRef>)
        ensures
            r == s_enclosing_function(self@, scope as int),
        decreases scope,
    {
        if scope >= self.scopes.len() {
            return None;
        }
        match self.scopes[scope].function {
            Some(f) => Some(f),
            None => match self.scopes[scope].upper {
                Some(p) => if p < scope {
                    self.enclosing_function(p)
                } else {
                    None
                },
                None => None,
            },
        }
    }

    /// Binds a variable in the given scope only; ancestors are never
    /// touched.  Re-binding a name in the same scope overwrites; binding it
    /// in a child scope shadows.
    pub fn new_assign(&mut self, scope: usize, name: Identifier, storage: ValueId, type_id: u64)
        requires
            scope < old(self)@.scopes.len(),
        ensures
            final(self)@ == s_new_assign(
                old(self)@,
                scope as int,
                name@,
                VarBind { storage, type_id },
            ),
    {
        let ghost nv = name@;
        let sref = &mut self.scopes[scope];
        vars_put(&mut sref.variables, name, VarBind { storage, type_id });
        proof {
            assert(self@.scopes =~~= s_new_assign(
                old(self)@,
                scope as int,
                nv,
                VarBind { storage, type_id },
            ).scopes);
            assert(self@ =~~= s_new_assign(
                old(self)@,
                scope as int,
                nv,
                VarBind { storage, type_id },
            ));
        }
    }

    /// Binds a function signature in the given scope only.
    pub fn bind_function(&mut self, scope: usize, name: Identifier, sig: FunSig)
        requires
            scope < old(self)@.scopes.len(),
        ensures
            final(self)@ == s_bind_function(old(self)@, scope as int, name@, sig@),
    {
        let ghost nv = name@;
        let ghost sv = sig@;
        let sref = &mut self.scopes[scope];
        funs_put(&mut sref.functions, name, sig);
        proof {
            assert(self@.scopes =~~= s_bind_function(old(self)@, scope as int, nv, sv).scopes);
            assert(self@ =~~= s_bind_function(old(self)@, scope as int, nv, sv));
        }
    }

    /// Registers a struct type (field table plus its backend structural
    /// type) in the given scope under a fresh id, and returns the id.
    /// Defining the same name twice in one scope overwrites; across scopes
    /// it shadows.
    pub fn define_struct(&mut self, scope: usize, detail: StructDetail, backend: usize) -> (r:
        Result<u64, TyphoonError>)
        requires
            scope < old(self)@.scopes.len(),
        ensures
            final(self)@ == s_define_struct(
                old(self)@,
                scope as int,
                detail.name@,
                detail.fields.deep_view(),
                backend,
            ).0,
            match r {
                Ok(id) => s_define_struct(
                    old(self)@,
                    scope as int,
                    detail.name@,
                    detail.fields.deep_view(),
                    backend,
                ).1 == Ok::<u64, ErrV>(id),
                Err(e) => s_define_struct(
                    old(self)@,
                    scope as int,
                    detail.name@,
                    detail.fields.deep_view(),
                    backend,
                ).1 == Err::<u64, ErrV>(e@),
            },
    {
        let ghost dn = detail.name@;
        let ghost df = detail.fields.deep_view();
        if self.next_type_id == u64::MAX {
            return Err(TyphoonError::CompileError(String::from_str("type id space exhausted")));
        }
        let id = self.next_type_id;
        self.next_type_id = self.next_type_id + 1;
        let name = detail.name.clone();
        let t = CompiledType {
            name,
            type_id: id,
            operands: Vec::new(),
            strukt: Some(StructInfo { detail, backend }),
        };
        proof {
            assert(t@ =~~= (TypeV {
                name: dn,
                type_id: id,
                operands: Seq::empty(),
                strukt: Some(StructInfoV { name: dn, fields: df, backend: backend }),
            }));
        }
        let sref = &mut self.scopes[scope];
        types_put(&mut sref.types, t);
        proof {
            let expect = s_define_struct(old(self)@, scope as int, dn, df, backend).0;
            assert(self@.scopes =~~= expect.scopes);
            assert(self@ =~~= expect);
        }
        Ok(id)
    }
}

/// Something that can live in backing storage.  Front ends may use this as a
/// marker for storable entities; the registry itself never calls it.
pub trait Storable {
    fn store();

    fn load();
}

} // verus!
