//! The items of the registry that the analysis keeps, and lookups into them.
use vstd::prelude::*;
use crate::decl::{CPrimaryType, Ty};
use crate::function::Command;
use crate::names::{CMacroName, CommandName, ConstantName, EnumeratorName, TypeName};
use crate::require::{LibraryName, RequiredBy};
use crate::xml::CExprItem;

verus! {

/// The type of an API constant.
#[derive(Debug, Clone, Copy, PartialEq, Eq, Structural)]
pub enum ConstantType {
    Integer(CPrimaryType),
    String,
}

/// An API constant and the expression that defines it.
pub struct Constant {
    pub required_by: RequiredBy,
    pub name: ConstantName,
    pub ty: ConstantType,
    pub value: Vec<CExprItem>,
}

/// What the analysis knows of a type: the library that requires it, and whether its
/// Rust type takes a lifetime parameter.
pub struct TypeItem {
    pub library: LibraryName,
    pub has_lifetime: bool,
}

/// A C preprocessor macro of the registry, with its parameters and its body.
pub struct CMacro {
    pub required_by: RequiredBy,
    pub name: CMacroName,
    pub args: Vec<String>,
    pub cexpr: Vec<CExprItem>,
}

impl CMacro {
    pub fn has_args(&self) -> (r: bool)
        ensures
            r == (self.args@.len() > 0),
    {
        self.args.len() > 0
    }
}

/// A second name of a command.
pub struct CommandAlias {
    pub name: CommandName,
    pub required_by: RequiredBy,
    pub alias: CommandName,
}

/// A command, or a second name of one.
pub enum CommandItem {
    Alias(CommandAlias),
    Command(Command),
}

/// The items that the analysis keeps, each under its name.
pub struct Items {
    pub types: Vec<(TypeName, TypeItem)>,
    pub constants: Vec<(ConstantName, Constant)>,
    pub cmacros: Vec<(CMacroName, CMacro)>,
    pub commands: Vec<(CommandName, CommandItem)>,
    pub base_types: Vec<BaseType>,
    pub enums: Vec<Enum>,
    pub bitmasks: Vec<BitMask>,
}

} // verus!

verus! {

/// A type alias of the registry.
pub struct BaseType {
    pub required_by: RequiredBy,
    pub name: TypeName,
    pub ty: Ty,
}

/// The value of an enumerator of an enum.
pub enum EnumValue {
    Variant(i32),
    Expr(Vec<CExprItem>),
    Alias(EnumeratorName),
}

pub struct EnumItem {
    pub required_by: RequiredBy,
    pub value: EnumValue,
}

/// An enum of the registry with its enumerators, in registry order.
pub struct Enum {
    pub required_by: RequiredBy,
    pub name: TypeName,
    pub items: Vec<(EnumeratorName, EnumItem)>,
}

#[derive(Debug, Clone, Copy, PartialEq, Eq, Structural)]
pub enum BitWidth {
    Bits32,
    Bits64,
}

/// The value of a bit of a bitmask.
pub enum BitValue {
    BitPos(u8),
    Expr(Vec<CExprItem>),
    Alias(EnumeratorName),
}

pub struct BitItem {
    pub required_by: RequiredBy,
    pub value: BitValue,
}

/// A bitmask type of the registry, with the type of its bits and the bits, in registry
/// order.
pub struct BitMask {
    pub required_by: RequiredBy,
    pub name: TypeName,
    pub bitwidth: BitWidth,
    pub bits_name: Option<TypeName>,
    pub items: Vec<(EnumeratorName, BitItem)>,
}

} // verus!
