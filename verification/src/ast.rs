//! The in-memory program representation consumed by the lowering engine.
//!
//! A front end produces a [`Module`]: an ordered list of struct and function
//! declarations.  Expressions and statements are plain data; all behaviour
//! lives in the lowering engine.  Names are exact strings and are never
//! alpha-renamed: shadowing is resolved purely by lexical scope.

use vstd::prelude::*;

verus! {

/// A name; equality is exact string match.
pub type Identifier = String;

/// The name of a type, as written in the source.
pub type TypeName = String;

/// A reference to a type by name.  The empty name stands for the void/unit
/// type.  A type reference carries no structural information; structure lives
/// in the registry.
#[derive(Debug, Clone)]
pub struct Type {
    pub name: Identifier,
}

impl Type {
    /// A reference to the type called `name`.
    pub fn new(name: Identifier) -> (t: Type)
        ensures
            t.name@ == name@,
    {
        Type { name }
    }

    /// The void/unit type reference (the empty name).
    pub fn void() -> (t: Type)
        ensures
            t.name@ == Seq::<char>::empty(),
    {
        Type { name: String::new() }
    }
}

/// A numeric literal with an explicit bit width and signedness, fixed by the
/// front end.
#[derive(Debug, Clone, Copy)]
pub enum Number {
    Integer8(i8),
    Integer16(i16),
    Integer32(i32),
    UnSignInteger8(u8),
    UnSignInteger16(u16),
    UnSignInteger32(u32),
}

/// The operator tag of a binary expression.
#[derive(Debug, PartialEq, Eq, Hash, Clone, Copy, Structural)]
pub enum Opcode {
    Add,
    Sub,
    Mul,
    Div,
    Mod,
    Pow,
    Or,
    And,
    Xor,
    LShift,
    RShift,
}

/// An expression.  Both arms of an `If` are expressions and must resolve to
/// nominally equal types before the conditional is lowered.
#[derive(Debug)]
pub enum Expr {
    /// A struct literal: type name plus field initializers.  Field order in
    /// the literal is irrelevant; resolution is by name.
    StructAssign(Identifier, Vec<(Identifier, Expr)>),
    /// A variable reference.
    Identifier(Identifier),
    /// Field access: `base.field`.
    Field(Box<Expr>, Identifier),
    /// A numeric literal.
    Number(Number),
    /// A string literal (carried by the front end; lowering rejects it).
    String(String),
    /// A binary operation.
    BinOperation(Opcode, Box<Expr>, Box<Expr>),
    /// A conditional expression; both branches must type-unify.
    If { condition: Box<Expr>, then_body: Box<Expr>, else_body: Box<Expr> },
    /// A call of a named function.
    Call(Identifier, Vec<Expr>),
    /// A block: ordered statements and an optional trailing expression.
    Block(Vec<Statement>, Option<Box<Expr>>),
    /// A parenthesized group.
    Group(Box<Expr>),
    /// Unary negation of a numeric literal (signed kinds only).
    Negative(Box<Number>),
}

/// A statement inside a block.
#[derive(Debug)]
pub enum Statement {
    /// `let name: T = expr;`
    Declare(Identifier, TypeName, Box<Expr>),
    /// `name = expr;` — stores into an existing binding.
    Assignment(Identifier, Box<Expr>),
    /// A bare expression, lowered for effect.
    Expr(Box<Expr>),
    /// `return expr;`
    Return(Box<Expr>),
}

/// A function declaration: name, ordered parameters, return type and a body
/// expression (normally a block ending in a `return`).
#[derive(Debug)]
pub struct FunctionDeclare {
    pub name: Identifier,
    pub args: Vec<(Identifier, Type)>,
    pub return_type: Type,
    pub stats: Box<Expr>,
}

impl FunctionDeclare {
    pub fn new(name: Identifier, args: Vec<(Identifier, Type)>, return_type: Type, stats: Box<
        Expr,
    >) -> (f: FunctionDeclare)
        ensures
            f.name@ == name@,
            f.args == args,
            f.return_type == return_type,
            f.stats == stats,
    {
        FunctionDeclare { name, args, return_type, stats }
    }
}

/// Lexicographic order on character sequences, by code point.
pub open spec fn seq_str_lt(a: Seq<char>, b: Seq<char>) -> bool
    decreases a.len(),
{
    if b.len() == 0 {
        false
    } else if a.len() == 0 {
        true
    } else if a[0] != b[0] {
        (a[0] as u32) < (b[0] as u32)
    } else {
        seq_str_lt(a.skip(1), b.skip(1))
    }
}

proof fn lemma_seq_str_lt_skip(a: Seq<char>, b: Seq<char>, i: int)
    requires
        0 <= i <= a.len(),
        i <= b.len(),
        forall|j: int| 0 <= j < i ==> a[j] == b[j],
    ensures
        seq_str_lt(a, b) == seq_str_lt(a.skip(i), b.skip(i)),
    decreases i,
{
    if i > 0 {
        assert(a.skip(1).skip(i - 1) =~= a.skip(i));
        assert(b.skip(1).skip(i - 1) =~= b.skip(i));
        assert(forall|j: int| 0 <= j < i - 1 ==> a.skip(1)[j] == b.skip(1)[j]);
        lemma_seq_str_lt_skip(a.skip(1), b.skip(1), i - 1);
    } else {
        assert(a.skip(0) =~= a);
        assert(b.skip(0) =~= b);
    }
}

/// Compares two names lexicographically by code point.
pub fn str_lt(a: &String, b: &String) -> (r: bool)
    ensures
        r == seq_str_lt(a@, b@),
{
    let alen = a.as_str().unicode_len();
    let blen = b.as_str().unicode_len();
    let min: usize = if alen < blen {
        alen
    } else {
        blen
    };
    let mut i: usize = 0;
    while i < min
        invariant
            0 <= i <= min,
            min <= alen,
            min <= blen,
            alen == a@.len(),
            blen == b@.len(),
            forall|j: int| 0 <= j < i ==> a@[j] == b@[j],
        decreases min - i,
    {
        let ca = a.as_str().get_char(i);
        let cb = b.as_str().get_char(i);
        if ca != cb {
            proof {
                lemma_seq_str_lt_skip(a@, b@, i as int);
            }
            return (ca as u32) < (cb as u32);
        }
        i = i + 1;
    }
    proof {
        lemma_seq_str_lt_skip(a@, b@, min as int);
    }
    alen < blen
}

/// The field table of `StructDetail` after inserting one binding: an existing
/// key is overwritten in place, a new key is placed before the first greater
/// key.
pub open spec fn sd_insert(
    s: Seq<(Seq<char>, Seq<char>)>,
    k: Seq<char>,
    v: Seq<char>,
) -> Seq<(Seq<char>, Seq<char>)>
    decreases s.len(),
{
    if s.len() == 0 {
        seq![(k, v)]
    } else if k == s[0].0 {
        seq![(k, v)] + s.skip(1)
    } else if seq_str_lt(k, s[0].0) {
        seq![(k, v)] + s
    } else {
        seq![s[0]] + sd_insert(s.skip(1), k, v)
    }
}

/// The field table built from a list of bindings, later entries overwriting
/// earlier ones with the same key.
pub open spec fn sd_collect(items: Seq<(Seq<char>, Seq<char>)>) -> Seq<(Seq<char>, Seq<char>)>
    decreases items.len(),
{
    if items.len() == 0 {
        Seq::empty()
    } else {
        sd_insert(sd_collect(items.drop_last()), items.last().0, items.last().1)
    }
}

/// A struct declaration: a name and a closed field table.
///
/// The table is kept sorted by field name (with unique keys), so the struct's
/// field layout is determined by the names alone, not by the order the fields
/// were written in.
#[derive(Debug, Clone)]
pub struct StructDetail {
    pub name: Identifier,
    pub fields: Vec<(Identifier, TypeName)>,
}

fn fields_insert(fields: &mut Vec<(Identifier, TypeName)>, k: Identifier, v: TypeName)
    ensures
        final(fields).deep_view() == sd_insert(old(fields).deep_view(), k@, v@),
{
    let ghost orig = fields.deep_view();
    proof {
        assert(orig.skip(0) =~= orig);
        assert(orig.take(0) + sd_insert(orig.skip(0), k@, v@) =~= sd_insert(orig, k@, v@));
    }
    let mut j: usize = 0;
    while j < fields.len()
        invariant
            0 <= j <= fields.len(),
            old(fields).deep_view() == orig,
            fields.deep_view() == orig,
            fields.deep_view().len() == fields.len(),
            sd_insert(orig, k@, v@) == orig.take(j as int) + sd_insert(
                orig.skip(j as int),
                k@,
                v@,
            ),
        decreases fields.len() - j,
    {
        let ghost pre = orig.skip(j as int);
        proof {
            assert(pre[0] == orig[j as int]);
            assert(orig[j as int] == fields@[j as int].deep_view());
            assert(orig[j as int].0 == fields@[j as int].0@);
        }
        if k.eq(&fields[j].0) {
            let ghost tail = pre.skip(1);
            fields.remove(j);
            fields.insert(j, (k, v));
            proof {
                assert(sd_insert(pre, k@, v@) =~= seq![(k@, v@)] + tail);
                assert(fields.deep_view() =~= orig.take(j as int) + (seq![(k@, v@)] + tail));
                assert(fields.deep_view() == sd_insert(orig, k@, v@));
                assert(orig == old(fields).deep_view());
            }
            return ;
        } else if str_lt(&k, &fields[j].0) {
            fields.insert(j, (k, v));
            proof {
                assert(sd_insert(pre, k@, v@) =~= seq![(k@, v@)] + pre);
                assert(fields.deep_view() =~= orig.take(j as int) + (seq![(k@, v@)] + pre));
            }
            return ;
        } else {
            proof {
                assert(pre.skip(1) =~= orig.skip(j + 1));
                assert(sd_insert(pre, k@, v@) == seq![pre[0]] + sd_insert(pre.skip(1), k@, v@));
                assert(orig.take(j as int) + sd_insert(pre, k@, v@) =~= orig.take(j + 1)
                    + sd_insert(orig.skip(j + 1), k@, v@));
            }
            j = j + 1;
        }
    }
    fields.push((k, v));
    proof {
        let pre = orig.skip(j as int);
        assert(pre.len() == 0);
        assert(sd_insert(pre, k@, v@) =~= seq![(k@, v@)]);
        assert(fields.deep_view() =~= orig.take(j as int) + seq![(k@, v@)]);
    }
}

impl StructDetail {
    /// Builds the field table from the written field list.  A field name
    /// given twice keeps the later type; the resulting table is sorted by
    /// name.
    pub fn new(name: String, items: Vec<(Identifier, TypeName)>) -> (s: StructDetail)
        ensures
            s.name@ == name@,
            s.fields.deep_view() == sd_collect(items.deep_view()),
    {
        let mut fields: Vec<(Identifier, TypeName)> = Vec::new();
        let mut i: usize = 0;
        while i < items.len()
            invariant
                0 <= i <= items.len(),
                items.deep_view().len() == items.len(),
                fields.deep_view() == sd_collect(items.deep_view().take(i as int)),
            decreases items.len() - i,
        {
            let k = items[i].0.clone();
            let v = items[i].1.clone();
            fields_insert(&mut fields, k, v);
            proof {
                let pfx = items.deep_view().take(i + 1);
                assert(pfx.drop_last() =~= items.deep_view().take(i as int));
                assert(pfx.last() == items.deep_view()[i as int]);
            }
            i = i + 1;
        }
        proof {
            assert(items.deep_view().take(i as int) =~= items.deep_view());
        }
        StructDetail { name, fields }
    }
}

/// One top-level item of a module.
#[derive(Debug)]
pub enum ModuleItem {
    FunctionDeclare(FunctionDeclare),
    StructDeclare(StructDetail),
}

/// A whole compilation unit: items in declaration order.
#[derive(Debug)]
pub struct Module {
    pub items: Vec<ModuleItem>,
}

impl Module {
    pub fn new(items: Vec<ModuleItem>) -> (m: Module)
        ensures
            m.items == items,
    {
        Module { items }
    }
}

} // verus!
