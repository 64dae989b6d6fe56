//! The instruction model that lowering emits into.
//!
//! The lowering engine is specified and verified against this model: a
//! backend module is a list of named structural types and a list of
//! functions, each function an ordered list of basic blocks holding
//! instructions.  A separate, unverified translation may hand the finished
//! module to a native code generator; the engine itself never depends on one.
//!
//! Values are identified by position: the result of the `k`-th instruction of
//! block `b` is `ValueId::Inst(b, k)`, so fresh names are unique by
//! construction.  The builder keeps a cursor (the current insertion point) as
//! explicit state; every emission appends to the block under the cursor.

use vstd::prelude::*;

verus! {

/// A backend type: an integer of a given width and signedness, the void
/// type, or a structural type registered in the module (by index).
#[derive(Debug, PartialEq, Eq, Clone, Copy, Structural)]
pub enum BType {
    Int { width: u32, signed: bool },
    Void,
    Struct(usize),
}

/// The operation of a two-operand arithmetic or bitwise instruction.
#[derive(Debug, PartialEq, Eq, Clone, Copy, Structural)]
pub enum BinKind {
    Add,
    Sub,
    Mul,
    SDiv,
    And,
    Or,
    Xor,
    Shl,
    AShr,
}

/// A handle to a computed value inside one function.
#[derive(Debug, PartialEq, Eq, Clone, Copy, Structural)]
pub enum ValueId {
    /// The void value.
    Void,
    /// The result of instruction `k` of basic block `b`, as `Inst(b, k)`.
    Inst(usize, usize),
}

/// One instruction.  Block and function references are indices into the
/// enclosing function's block list and the module's function list.
#[derive(Debug, Clone, PartialEq)]
pub enum Inst {
    /// A two-operand arithmetic or bitwise operation.
    Bin(BinKind, ValueId, ValueId),
    /// Integer "not equal" comparison, yielding a one-bit decision value.
    ICmpNe(ValueId, ValueId),
    /// An integer constant; `value` holds the two's-complement bits.
    ConstInt { ty: BType, value: u64 },
    /// Fresh stack storage for one value of the given type.
    Alloca(BType),
    /// Store `value` into the storage named by `ptr`.
    Store { value: ValueId, ptr: ValueId },
    /// Load from the storage named by `ptr`.
    Load { ptr: ValueId },
    /// The address of field `field` of the struct stored at `ptr`.
    Gep { ptr: ValueId, field: usize },
    /// Unconditional branch.
    Br(usize),
    /// Conditional branch on a one-bit decision value.
    CondBr { cond: ValueId, then_block: usize, else_block: usize },
    /// The join of two values produced along divergent branches.
    Phi {
        ty: BType,
        then_value: ValueId,
        then_block: usize,
        else_value: ValueId,
        else_block: usize,
    },
    /// Call of another function of the module, arguments in order.
    Call { callee: usize, args: Vec<ValueId> },
    /// Return a value.
    Ret(ValueId),
    /// Return from a void function.
    RetVoid,
}

/// The ghost image of an instruction.
pub enum InstV {
    Bin(BinKind, ValueId, ValueId),
    ICmpNe(ValueId, ValueId),
    ConstInt { ty: BType, value: u64 },
    Alloca(BType),
    Store { value: ValueId, ptr: ValueId },
    Load { ptr: ValueId },
    Gep { ptr: ValueId, field: usize },
    Br(usize),
    CondBr { cond: ValueId, then_block: usize, else_block: usize },
    Phi {
        ty: BType,
        then_value: ValueId,
        then_block: usize,
        else_value: ValueId,
        else_block: usize,
    },
    Call { callee: usize, args: Seq<ValueId> },
    Ret(ValueId),
    RetVoid,
}

impl View for Inst {
    type V = InstV;

    open spec fn view(&self) -> InstV {
        match self {
            Inst::Bin(k, a, b) => InstV::Bin(*k, *a, *b),
            Inst::ICmpNe(a, b) => InstV::ICmpNe(*a, *b),
            Inst::ConstInt { ty, value } => InstV::ConstInt { ty: *ty, value: *value },
            Inst::Alloca(t) => InstV::Alloca(*t),
            Inst::Store { value, ptr } => InstV::Store { value: *value, ptr: *ptr },
            Inst::Load { ptr } => InstV::Load { ptr: *ptr },
            Inst::Gep { ptr, field } => InstV::Gep { ptr: *ptr, field: *field },
            Inst::Br(b) => InstV::Br(*b),
            Inst::CondBr { cond, then_block, else_block } => InstV::CondBr {
                cond: *cond,
                then_block: *then_block,
                else_block: *else_block,
            },
            Inst::Phi { ty, then_value, then_block, else_value, else_block } => InstV::Phi {
                ty: *ty,
                then_value: *then_value,
                then_block: *then_block,
                else_value: *else_value,
                else_block: *else_block,
            },
            Inst::Call { callee, args } => InstV::Call { callee: *callee, args: args@ },
            Inst::Ret(v) => InstV::Ret(*v),
            Inst::RetVoid => InstV::RetVoid,
        }
    }
}

/// A named structural type: an ordered list of field types.
#[derive(Debug, Clone, PartialEq)]
pub struct StructTy {
    pub name: String,
    pub field_types: Vec<BType>,
}

#[verifier::ext_equal]
pub struct StructTyV {
    pub name: Seq<char>,
    pub field_types: Seq<BType>,
}

impl View for StructTy {
    type V = StructTyV;

    open spec fn view(&self) -> StructTyV {
        StructTyV { name: self.name@, field_types: self.field_types@ }
    }
}

/// One function of the backend module.
#[derive(Debug, PartialEq)]
pub struct BFunction {
    pub name: String,
    pub params: Vec<BType>,
    pub ret: BType,
    pub blocks: Vec<Vec<Inst>>,
}

#[verifier::ext_equal]
pub struct FunV {
    pub name: Seq<char>,
    pub params: Seq<BType>,
    pub ret: BType,
    pub blocks: Seq<Seq<InstV>>,
}

/// The ghost image of a block list.
pub open spec fn blocks_view(blocks: Seq<Vec<Inst>>) -> Seq<Seq<InstV>> {
    blocks.map_values(|b: Vec<Inst>| b@.map_values(|i: Inst| i@))
}

impl View for BFunction {
    type V = FunV;

    open spec fn view(&self) -> FunV {
        FunV {
            name: self.name@,
            params: self.params@,
            ret: self.ret,
            blocks: blocks_view(self.blocks@),
        }
    }
}

/// A complete backend module.
#[derive(Debug, PartialEq)]
pub struct BackendModule {
    pub name: String,
    pub structs: Vec<StructTy>,
    pub functions: Vec<BFunction>,
}

#[verifier::ext_equal]
pub struct ModuleV {
    pub name: Seq<char>,
    pub structs: Seq<StructTyV>,
    pub functions: Seq<FunV>,
}

impl View for BackendModule {
    type V = ModuleV;

    open spec fn view(&self) -> ModuleV {
        ModuleV {
            name: self.name@,
            structs: self.structs@.map_values(|s: StructTy| s@),
            functions: self.functions@.map_values(|f: BFunction| f@),
        }
    }
}

/// The instruction builder: a module under construction plus the current
/// insertion point `(function, block)`.
#[derive(Debug)]
pub struct Builder {
    pub module: BackendModule,
    pub cur: Option<(usize, usize)>,
}

#[verifier::ext_equal]
pub struct BuilderV {
    pub module: ModuleV,
    pub cur: Option<(usize, usize)>,
}

impl View for Builder {
    type V = BuilderV;

    open spec fn view(&self) -> BuilderV {
        BuilderV { module: self.module@, cur: self.cur }
    }
}

impl BuilderV {
    /// The cursor names an existing block of an existing function.
    pub open spec fn is_positioned(self) -> bool {
        match self.cur {
            Some((f, b)) => f < self.module.functions.len() && b
                < self.module.functions[f as int].blocks.len(),
            None => false,
        }
    }
}

/// The builder after registering a structural type, and the type's index.
pub open spec fn s_define_struct_type(
    bv: BuilderV,
    name: Seq<char>,
    field_types: Seq<BType>,
) -> (BuilderV, usize) {
    (
        BuilderV {
            module: ModuleV {
                structs: bv.module.structs.push(StructTyV { name, field_types }),
                ..bv.module
            },
            ..bv
        },
        bv.module.structs.len() as usize,
    )
}

/// The builder after adding an empty function, and the function's index.
pub open spec fn s_add_function(
    bv: BuilderV,
    name: Seq<char>,
    params: Seq<BType>,
    ret: BType,
) -> (BuilderV, usize) {
    (
        BuilderV {
            module: ModuleV {
                functions: bv.module.functions.push(
                    FunV { name, params, ret, blocks: Seq::empty() },
                ),
                ..bv.module
            },
            ..bv
        },
        bv.module.functions.len() as usize,
    )
}

/// The builder after appending an empty basic block to function `fun`, and
/// the block's index.
pub open spec fn s_append_basic_block(bv: BuilderV, fun: int) -> (BuilderV, usize) {
    let f = bv.module.functions[fun];
    (
        BuilderV {
            module: ModuleV {
                functions: bv.module.functions.update(
                    fun,
                    FunV { blocks: f.blocks.push(Seq::empty()), ..f },
                ),
                ..bv.module
            },
            ..bv
        },
        f.blocks.len() as usize,
    )
}

/// The builder after appending `inst` at the cursor, and the fresh handle of
/// the instruction's result.
pub open spec fn s_emit(bv: BuilderV, inst: InstV) -> (BuilderV, ValueId) {
    let (fi, bi) = bv.cur->Some_0;
    let f = bv.module.functions[fi as int];
    let blk = f.blocks[bi as int];
    (
        BuilderV {
            module: ModuleV {
                functions: bv.module.functions.update(
                    fi as int,
                    FunV { blocks: f.blocks.update(bi as int, blk.push(inst)), ..f },
                ),
                ..bv.module
            },
            ..bv
        },
        ValueId::Inst(bi, blk.len() as usize),
    )
}

impl Builder {
    /// A fresh builder holding an empty module of the given name, with no
    /// insertion point yet.
    pub fn new(name: String) -> (b: Builder)
        ensures
            b@ == (BuilderV {
                module: ModuleV {
                    name: name@,
                    structs: Seq::empty(),
                    functions: Seq::empty(),
                },
                cur: None,
            }),
    {
        let b = Builder {
            module: BackendModule { name, structs: Vec::new(), functions: Vec::new() },
            cur: None,
        };
        proof {
            assert(b.module@.structs =~~= Seq::<StructTyV>::empty());
            assert(b.module@.functions =~~= Seq::<FunV>::empty());
            assert(b@ =~~= (BuilderV {
                module: ModuleV {
                    name: b.module.name@,
                    structs: Seq::empty(),
                    functions: Seq::empty(),
                },
                cur: None,
            }));
        }
        b
    }

    /// Registers a named structural type with an ordered field-type list.
    pub fn define_struct_type(&mut self, name: String, field_types: Vec<BType>) -> (idx: usize)
        ensures
            (final(self)@, idx) == s_define_struct_type(old(self)@, name@, field_types@),
    {
        let idx = self.module.structs.len();
        self.module.structs.push(StructTy { name, field_types });
        proof {
            assert(self.module@.structs =~~= old(self).module@.structs.push(
                StructTyV { name: name@, field_types: field_types@ },
            ));
            assert(self.module@.functions =~~= old(self).module@.functions);
            assert(self@ =~~= s_define_struct_type(old(self)@, name@, field_types@).0);
        }
        idx
    }

    /// Adds a function with the given signature and no blocks yet.
    pub fn add_function(&mut self, name: String, params: Vec<BType>, ret: BType) -> (idx: usize)
        ensures
            (final(self)@, idx) == s_add_function(old(self)@, name@, params@, ret),
    {
        let idx = self.module.functions.len();
        self.module.functions.push(BFunction { name, params, ret, blocks: Vec::new() });
        proof {
            assert(blocks_view(Seq::empty()) =~~= Seq::<Seq<InstV>>::empty());
            assert(self.module@.functions =~~= old(self).module@.functions.push(
                FunV { name: name@, params: params@, ret, blocks: Seq::empty() },
            ));
            assert(self.module@.structs =~~= old(self).module@.structs);
            assert(self@ =~~= s_add_function(old(self)@, name@, params@, ret).0);
        }
        idx
    }

    /// Appends an empty basic block to function `fun`.
    pub fn append_basic_block(&mut self, fun: usize) -> (blk: usize)
        requires
            fun < old(self)@.module.functions.len(),
        ensures
            (final(self)@, blk) == s_append_basic_block(old(self)@, fun as int),
    {
        let blk = self.module.functions[fun].blocks.len();
        let fref = &mut self.module.functions[fun];
        fref.blocks.push(Vec::new());
        proof {
            let fv = old(self).module@.functions[fun as int];
            assert(self.module.functions@[fun as int]@ =~~= (FunV {
                blocks: fv.blocks.push(Seq::empty()),
                ..fv
            }));
            assert(self.module@.functions =~~= old(self).module@.functions.update(
                fun as int,
                FunV { blocks: fv.blocks.push(Seq::empty()), ..fv },
            ));
            assert(self.module@.structs =~~= old(self).module@.structs);
            assert(self@ =~~= s_append_basic_block(old(self)@, fun as int).0);
        }
        blk
    }

    /// Moves the insertion point to the end of the given block.
    pub fn position_at_end(&mut self, fun: usize, block: usize)
        requires
            fun < old(self)@.module.functions.len(),
            block < old(self)@.module.functions[fun as int].blocks.len(),
        ensures
            final(self)@ == (BuilderV { cur: Some((fun, block)), ..old(self)@ }),
            final(self)@.is_positioned(),
    {
        self.cur = Some((fun, block));
        proof {
            assert(self@ =~~= (BuilderV { cur: Some((fun, block)), ..old(self)@ }));
        }
    }

    /// Appends one instruction at the insertion point and returns the handle
    /// of its result.
    pub fn emit(&mut self, inst: Inst) -> (v: ValueId)
        requires
            old(self)@.is_positioned(),
        ensures
            (final(self)@, v) == s_emit(old(self)@, inst@),
            final(self)@.is_positioned(),
            final(self)@.cur == old(self)@.cur,
    {
        let (fi, bi) = match self.cur {
            Some(p) => p,
            None => {
                proof {
                    assert(false);
                }
                (0, 0)
            },
        };
        let ghost iv = inst@;
        let blk_len = self.module.functions[fi].blocks[bi].len();
        let fref = &mut self.module.functions[fi];
        let bref = &mut fref.blocks[bi];
        bref.push(inst);
        proof {
            let fv = old(self).module@.functions[fi as int];
            let blkv = fv.blocks[bi as int];
            assert(self.module.functions@[fi as int].blocks@[bi as int]@.map_values(
                |i: Inst| i@,
            ) =~~= blkv.push(iv));
            assert(self.module.functions@[fi as int]@.blocks =~~= fv.blocks.update(
                bi as int,
                blkv.push(iv),
            ));
            assert(self.module.functions@[fi as int]@ =~~= (FunV {
                blocks: fv.blocks.update(bi as int, blkv.push(iv)),
                ..fv
            }));
            assert(self.module@.functions =~~= old(self).module@.functions.update(
                fi as int,
                FunV { blocks: fv.blocks.update(bi as int, blkv.push(iv)), ..fv },
            ));
            assert(self.module@.structs =~~= old(self).module@.structs);
            assert(self@ =~~= s_emit(old(self)@, iv).0);
        }
        ValueId::Inst(bi, blk_len)
    }
}

} // verus!
