//! C declarations and expressions as the registry spells them.
use vstd::prelude::*;
use crate::names::{CMacroName, CommandName, FuncPointerName, TypeName};

verus! {

/// The length of a C array: a named constant or a literal.
pub enum CArrayLen {
    Named(String),
    Literal(u128),
}

/// A C type as written in a declaration.
pub enum CType {
    Base { name: String },
    Ptr { implicit_for_decay: bool, is_const: bool, pointee: Box<CType> },
    Array { element: Box<CType>, len: CArrayLen },
    Func,
}

/// Whether a C type holds no function type anywhere.
pub open spec fn has_no_func(c: CType) -> bool
    decreases c,
{
    match c {
        CType::Base { .. } => true,
        CType::Ptr { pointee, .. } => has_no_func(*pointee),
        CType::Array { element, .. } => has_no_func(*element),
        CType::Func => false,
    }
}

/// A C declaration: a name and its type.
pub struct CDecl {
    pub name: String,
    pub ty: CType,
}

/// A function pointer type of the registry.
pub struct FuncPointer {
    pub name: FuncPointerName,
    pub params: Vec<CDecl>,
    pub return_type: Option<CType>,
}

/// A parameter of a command, with the structure types that may be passed through it.
pub struct CommandParam {
    pub c_decl: CDecl,
    pub struct_impls_traits: Vec<TypeName>,
}

/// A command of the registry.
pub struct Command {
    pub name: CommandName,
    pub params: Vec<CommandParam>,
    pub return_type: Option<CType>,
}

/// One item of a C constant expression.
pub enum CExprItem {
    Punct(char),
    NumericLiteral(String),
    U32ArgVar(String),
    StringLiteral(String),
    MacroCall { macro_name: CMacroName, args: Vec<Vec<CExprItem>> },
}

} // verus!
