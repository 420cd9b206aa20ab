//! Names of registry items. A name is identified by its spelling in the registry,
//! which is also its view.
use vstd::prelude::*;
use crate::ident::{shouty_snake_case, to_shouty_snek_case};
use crate::require::LibraryName;
use crate::text::{push_str, remove_prefix, replace, replace_all, without_prefix};

verus! {

/// A name of the registry: it can hand out its spelling.
pub trait RegistryName: View<V = Seq<char>> + Sized {
    fn original(&self) -> (r: &str)
        ensures
            r@ == self@,
    ;

    fn copy_name(&self) -> (r: Self)
        ensures
            r@ == self@,
    ;
}

/// The name of a parameter or struct member.
pub struct VariableName {
    pub original: String,
}

/// The name of a type of the registry.
pub struct TypeName {
    pub original: String,
}

/// The name of a function pointer type of the registry.
pub struct FuncPointerName {
    pub original: String,
}

/// The name of an API constant.
pub struct ConstantName {
    pub original: String,
}

/// The name of a command.
pub struct CommandName {
    pub original: String,
}

/// The name of a C preprocessor macro of the registry.
pub struct CMacroName {
    pub original: String,
}

/// The name of an enumerator (a value of an enum or a bit of a bitmask).
pub struct EnumeratorName {
    pub original: String,
}

impl View for VariableName {
    type V = Seq<char>;

    open spec fn view(&self) -> Seq<char> {
        self.original@
    }
}

impl View for TypeName {
    type V = Seq<char>;

    open spec fn view(&self) -> Seq<char> {
        self.original@
    }
}

impl View for FuncPointerName {
    type V = Seq<char>;

    open spec fn view(&self) -> Seq<char> {
        self.original@
    }
}

impl View for ConstantName {
    type V = Seq<char>;

    open spec fn view(&self) -> Seq<char> {
        self.original@
    }
}

impl View for CommandName {
    type V = Seq<char>;

    open spec fn view(&self) -> Seq<char> {
        self.original@
    }
}

impl View for CMacroName {
    type V = Seq<char>;

    open spec fn view(&self) -> Seq<char> {
        self.original@
    }
}

impl View for EnumeratorName {
    type V = Seq<char>;

    open spec fn view(&self) -> Seq<char> {
        self.original@
    }
}

impl RegistryName for VariableName {
    fn original(&self) -> (r: &str) {
        self.original.as_str()
    }

    fn copy_name(&self) -> (r: Self) {
        VariableName { original: self.original.clone() }
    }
}

impl RegistryName for TypeName {
    fn original(&self) -> (r: &str) {
        self.original.as_str()
    }

    fn copy_name(&self) -> (r: Self) {
        TypeName { original: self.original.clone() }
    }
}

impl RegistryName for FuncPointerName {
    fn original(&self) -> (r: &str) {
        self.original.as_str()
    }

    fn copy_name(&self) -> (r: Self) {
        FuncPointerName { original: self.original.clone() }
    }
}

impl RegistryName for ConstantName {
    fn original(&self) -> (r: &str) {
        self.original.as_str()
    }

    fn copy_name(&self) -> (r: Self) {
        ConstantName { original: self.original.clone() }
    }
}

impl RegistryName for CommandName {
    fn original(&self) -> (r: &str) {
        self.original.as_str()
    }

    fn copy_name(&self) -> (r: Self) {
        CommandName { original: self.original.clone() }
    }
}

impl RegistryName for CMacroName {
    fn original(&self) -> (r: &str) {
        self.original.as_str()
    }

    fn copy_name(&self) -> (r: Self) {
        CMacroName { original: self.original.clone() }
    }
}

impl RegistryName for EnumeratorName {
    fn original(&self) -> (r: &str) {
        self.original.as_str()
    }

    fn copy_name(&self) -> (r: Self) {
        EnumeratorName { original: self.original.clone() }
    }
}

impl VariableName {
    pub fn new(s: &str) -> (r: VariableName)
        ensures
            r@ == s@,
    {
        VariableName { original: s.to_owned() }
    }
}

impl TypeName {
    pub fn new(s: &str) -> (r: TypeName)
        ensures
            r@ == s@,
    {
        TypeName { original: s.to_owned() }
    }
}

impl FuncPointerName {
    pub fn new(s: &str) -> (r: FuncPointerName)
        ensures
            r@ == s@,
    {
        FuncPointerName { original: s.to_owned() }
    }
}

impl ConstantName {
    pub fn new(s: &str) -> (r: ConstantName)
        ensures
            r@ == s@,
    {
        ConstantName { original: s.to_owned() }
    }
}

impl CommandName {
    pub fn new(s: &str) -> (r: CommandName)
        ensures
            r@ == s@,
    {
        CommandName { original: s.to_owned() }
    }
}

impl CMacroName {
    pub fn new(s: &str) -> (r: CMacroName)
        ensures
            r@ == s@,
    {
        CMacroName { original: s.to_owned() }
    }
}

impl EnumeratorName {
    pub fn new(s: &str) -> (r: EnumeratorName)
        ensures
            r@ == s@,
    {
        EnumeratorName { original: s.to_owned() }
    }
}

} // verus!

verus! {

/// The prefix that names of a library carry and that generated Rust names drop.
pub open spec fn type_prefix(library: LibraryName) -> Seq<char> {
    match library {
        LibraryName::Vk => "Vk"@,
        LibraryName::Video => "StdVideo"@,
    }
}

/// A type name without its library prefix.
pub open spec fn type_trimmed(name: Seq<char>, library: LibraryName) -> Seq<char> {
    without_prefix(name, type_prefix(library))
}

/// A constant or macro name without `VK_`.
pub open spec fn constant_trimmed(name: Seq<char>) -> Seq<char> {
    without_prefix(name, "VK_"@)
}

/// A command name without `vk`.
pub open spec fn command_trimmed(name: Seq<char>) -> Seq<char> {
    without_prefix(name, "vk"@)
}

/// An enumerator name without `VK_` and without the name of its type in upper snake case
/// (`FlagBits` left out) followed by `_`.
pub open spec fn enumerator_stripped(name: Seq<char>, owner: Seq<char>, library: LibraryName) -> Seq<char> {
    let type_words = shouty_snake_case(replace_all(type_trimmed(owner, library), "FlagBits"@, ""@));
    without_prefix(without_prefix(name, "VK_"@), type_words + "_"@)
}

impl TypeName {
    pub fn prefix_trimmed(&self, library: LibraryName) -> (r: String)
        ensures
            r@ == type_trimmed(self@, library),
    {
        match library {
            LibraryName::Vk => remove_prefix(self.original.as_str(), "Vk"),
            LibraryName::Video => remove_prefix(self.original.as_str(), "StdVideo"),
        }
    }
}

impl ConstantName {
    pub fn prefix_trimmed(&self) -> (r: String)
        ensures
            r@ == constant_trimmed(self@),
    {
        remove_prefix(self.original.as_str(), "VK_")
    }
}

impl CMacroName {
    pub fn prefix_trimmed(&self) -> (r: String)
        ensures
            r@ == constant_trimmed(self@),
    {
        remove_prefix(self.original.as_str(), "VK_")
    }
}

impl CommandName {
    pub fn prefix_trimmed(&self) -> (r: String)
        ensures
            r@ == command_trimmed(self@),
    {
        remove_prefix(self.original.as_str(), "vk")
    }
}

impl EnumeratorName {
    pub fn stripped(&self, owner: &TypeName, library: LibraryName) -> (r: String)
        ensures
            r@ == enumerator_stripped(self@, owner@, library),
    {
        let trimmed = owner.prefix_trimmed(library);
        proof {
            reveal_strlit("FlagBits");
        }
        let without_bits = replace(trimmed.as_str(), "FlagBits", "");
        let mut words = to_shouty_snek_case(without_bits.as_str());
        push_str(&mut words, "_");
        let name = remove_prefix(self.original.as_str(), "VK_");
        remove_prefix(name.as_str(), words.as_str())
    }
}

} // verus!
