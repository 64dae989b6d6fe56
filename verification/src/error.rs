//! The compile-time error taxonomy.
//!
//! Every lowering failure is fatal to the compilation unit: there is no
//! partial-result recovery.  Each variant records the names needed for a
//! diagnostic; rendering to text is left to the caller.

use vstd::prelude::*;

verus! {

/// A compile-time failure of the lowering engine or of the surrounding
/// pipeline.
#[derive(Debug, Clone)]
pub enum TyphoonError {
    /// The front end could not parse the source (surfaced by the pipeline;
    /// the lowering engine itself never produces it).
    ParserError(String),
    /// An identifier lookup missed through the whole scope chain.
    UndefinedVariable(String),
    /// A referenced type name is absent from the scope chain.
    UnknownType(String),
    /// Declared-vs-inferred type inequality at a `let`, `return` or
    /// conditional-branch unification; carries (inferred, declared).
    TypeMismatch(String, String),
    /// An operator applied to a type pair absent from the left type's
    /// operand table; carries (operator, left type, right type).
    InvalidOperand(crate::ast::Opcode, String, String),
    /// A struct literal or field access names a field not in the struct's
    /// field table.
    UnknownField(String),
    /// Any other condition that aborts compilation, with a message.
    CompileError(String),
}

/// The ghost image of an error: payload strings as character sequences.
pub enum ErrV {
    ParserError(Seq<char>),
    UndefinedVariable(Seq<char>),
    UnknownType(Seq<char>),
    TypeMismatch(Seq<char>, Seq<char>),
    InvalidOperand(crate::ast::Opcode, Seq<char>, Seq<char>),
    UnknownField(Seq<char>),
    CompileError(Seq<char>),
}

impl View for TyphoonError {
    type V = ErrV;

    open spec fn view(&self) -> ErrV {
        match self {
            TyphoonError::ParserError(s) => ErrV::ParserError(s@),
            TyphoonError::UndefinedVariable(s) => ErrV::UndefinedVariable(s@),
            TyphoonError::UnknownType(s) => ErrV::UnknownType(s@),
            TyphoonError::TypeMismatch(a, b) => ErrV::TypeMismatch(a@, b@),
            TyphoonError::InvalidOperand(op, a, b) => ErrV::InvalidOperand(*op, a@, b@),
            TyphoonError::UnknownField(s) => ErrV::UnknownField(s@),
            TyphoonError::CompileError(s) => ErrV::CompileError(s@),
        }
    }
}

impl TyphoonError {
    /// A short, stable description of the error kind, for diagnostics.
    pub fn kind(&self) -> (r: &'static str)
        ensures
            r@ == self.kind_spec(),
    {
        match self {
            TyphoonError::ParserError(_) => "parser error",
            TyphoonError::UndefinedVariable(_) => "undefined variable",
            TyphoonError::UnknownType(_) => "unknown type",
            TyphoonError::TypeMismatch(_, _) => "type mismatch",
            TyphoonError::InvalidOperand(_, _, _) => "invalid operand",
            TyphoonError::UnknownField(_) => "unknown field",
            TyphoonError::CompileError(_) => "compile error",
        }
    }

    /// The description returned by [`Self::kind`].
    pub open spec fn kind_spec(&self) -> Seq<char> {
        match self {
            TyphoonError::ParserError(_) => "parser error"@,
            TyphoonError::UndefinedVariable(_) => "undefined variable"@,
            TyphoonError::UnknownType(_) => "unknown type"@,
            TyphoonError::TypeMismatch(_, _) => "type mismatch"@,
            TyphoonError::InvalidOperand(_, _, _) => "invalid operand"@,
            TyphoonError::UnknownField(_) => "unknown field"@,
            TyphoonError::CompileError(_) => "compile error"@,
        }
    }
}

} // verus!
