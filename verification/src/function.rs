//! Function pointer types and commands, with their declarations classified.
use vstd::prelude::*;
use crate::decl::{Decl, DeclView, Ty, TyView, ty_of_c};
use crate::names::{CommandName, FuncPointerName, RegistryName, TypeName};
use crate::require::{RequireMap, RequiredBy, RequiredByView, find_key, lemma_index_of_key, lookup};
use crate::xml::{self, CDecl, CType, has_no_func};

verus! {

pub struct FuncPointer {
    pub required_by: RequiredBy,
    pub name: FuncPointerName,
    pub params: Vec<Decl>,
    pub return_type: Option<Ty>,
}

pub ghost struct FuncPointerView {
    pub required_by: RequiredByView,
    pub name: Seq<char>,
    pub params: Seq<DeclView>,
    pub return_type: Option<TyView>,
}

impl View for FuncPointer {
    type V = FuncPointerView;

    open spec fn view(&self) -> FuncPointerView {
        FuncPointerView {
            required_by: self.required_by@,
            name: self.name@,
            params: self.params@.map_values(|d: Decl| d@),
            return_type: match self.return_type {
                Some(t) => Some(t@),
                None => None,
            },
        }
    }
}

pub struct CommandParam {
    pub decl: Decl,
    pub struct_impls_traits: Vec<Ty>,
}

pub ghost struct CommandParamView {
    pub decl: DeclView,
    pub struct_impls_traits: Seq<TyView>,
}

impl View for CommandParam {
    type V = CommandParamView;

    open spec fn view(&self) -> CommandParamView {
        CommandParamView { decl: self.decl@, struct_impls_traits: self.struct_impls_traits@.map_values(|t: Ty| t@) }
    }
}

pub struct Command {
    pub required_by: RequiredBy,
    pub name: CommandName,
    pub params: Vec<CommandParam>,
    pub return_type: Option<Ty>,
}

pub ghost struct CommandView {
    pub required_by: RequiredByView,
    pub name: Seq<char>,
    pub params: Seq<CommandParamView>,
    pub return_type: Option<TyView>,
}

impl View for Command {
    type V = CommandView;

    open spec fn view(&self) -> CommandView {
        CommandView {
            required_by: self.required_by@,
            name: self.name@,
            params: self.params@.map_values(|p: CommandParam| p@),
            return_type: match self.return_type {
                Some(t) => Some(t@),
                None => None,
            },
        }
    }
}

impl FuncPointer {
    /// The name of the function pointer type.
    pub fn name(&self) -> (r: FuncPointerName)
        ensures
            r@ == self.name@,
    {
        self.name.copy_name()
    }
}

impl Command {
    /// The name of the command.
    pub fn name(&self) -> (r: CommandName)
        ensures
            r@ == self.name@,
    {
        self.name.copy_name()
    }
}

/// The declaration that a C declaration makes, classified.
pub open spec fn decl_of_c(rm: RequireMap, d: CDecl) -> DeclView {
    DeclView { name: d.name@, ty: ty_of_c(rm, d.ty) }
}

/// The type that an optional C return type denotes.
pub open spec fn return_of_c(rm: RequireMap, t: Option<CType>) -> Option<TyView> {
    match t {
        Some(t) => Some(ty_of_c(rm, t)),
        None => None,
    }
}

pub open spec fn return_has_no_func(t: Option<CType>) -> bool {
    t matches Some(t) ==> has_no_func(t)
}

/// The function pointer type that the registry declares, classified.
pub open spec fn func_pointer_of(rm: RequireMap, x: xml::FuncPointer, required_by: RequiredByView) -> FuncPointerView {
    FuncPointerView {
        required_by: required_by,
        name: x.name@,
        params: x.params@.map_values(|d: CDecl| decl_of_c(rm, d)),
        return_type: return_of_c(rm, x.return_type),
    }
}

/// The command that the registry declares, classified.
pub open spec fn command_of(rm: RequireMap, x: xml::Command, required_by: RequiredByView) -> CommandView {
    CommandView {
        required_by: required_by,
        name: x.name@,
        params: x.params@.map_values(|p: xml::CommandParam| CommandParamView {
            decl: decl_of_c(rm, p.c_decl),
            struct_impls_traits: p.struct_impls_traits@.map_values(|n: TypeName| TyView::SpecType(n@)),
        }),
        return_type: return_of_c(rm, x.return_type),
    }
}

fn return_from_c(require_map: &RequireMap, t: &Option<CType>) -> (r: Option<Ty>)
    requires
        return_has_no_func(*t),
    ensures
        match r {
            Some(r) => Some(r@) == return_of_c(*require_map, *t),
            None => return_of_c(*require_map, *t) is None,
        },
{
    match t {
        Some(c_type) => Some(Ty::from_c(require_map, c_type)),
        None => None,
    }
}

fn decls_from_c(require_map: &RequireMap, params: &Vec<CDecl>) -> (r: Vec<Decl>)
    requires
        forall|i: int| 0 <= i < params@.len() ==> has_no_func(#[trigger] params@[i].ty),
    ensures
        r@.map_values(|d: Decl| d@) == params@.map_values(|d: CDecl| decl_of_c(*require_map, d)),
{
    let mut r: Vec<Decl> = Vec::new();
    let mut i: usize = 0;
    while i < params.len()
        invariant
            i <= params.len(),
            r@.len() == i,
            forall|j: int| 0 <= j < params@.len() ==> has_no_func(#[trigger] params@[j].ty),
            forall|j: int| 0 <= j < i ==> (#[trigger] r@[j])@ == decl_of_c(*require_map, params@[j]),
        decreases params.len() - i,
    {
        r.push(Decl::from_c(require_map, &params[i]));
        i += 1;
    }
    assert(r@.map_values(|d: Decl| d@) =~= params@.map_values(|d: CDecl| decl_of_c(*require_map, d)));
    r
}

impl FuncPointer {
    /// The function pointer type that `xml` declares, if the registry requires it.
    pub fn new(require_map: &RequireMap, xml: &xml::FuncPointer) -> (r: Option<FuncPointer>)
        requires
            lookup(require_map.func_pointer@, xml.name@) is Some ==> {
                &&& forall|i: int| 0 <= i < xml.params@.len() ==> has_no_func(#[trigger] xml.params@[i].ty)
                &&& return_has_no_func(xml.return_type)
            },
        ensures
            r is Some <==> lookup(require_map.func_pointer@, xml.name@) is Some,
            r matches Some(f) ==> f@ == func_pointer_of(*require_map, *xml, lookup(require_map.func_pointer@, xml.name@).unwrap()@),
    {
        proof {
            lemma_index_of_key(require_map.func_pointer@, xml.name@);
        }
        let i = find_key(&require_map.func_pointer, xml.name.original())?;
        let required_by = require_map.func_pointer[i].1.copy();
        Some(FuncPointer {
            required_by,
            name: xml.name.copy_name(),
            params: decls_from_c(require_map, &xml.params),
            return_type: return_from_c(require_map, &xml.return_type),
        })
    }
}

fn struct_types(names: &Vec<TypeName>) -> (r: Vec<Ty>)
    ensures
        r@.map_values(|t: Ty| t@) == names@.map_values(|n: TypeName| TyView::SpecType(n@)),
{
    let mut r: Vec<Ty> = Vec::new();
    let mut i: usize = 0;
    while i < names.len()
        invariant
            i <= names.len(),
            r@.len() == i,
            forall|j: int| 0 <= j < i ==> (#[trigger] r@[j])@ == TyView::SpecType(names@[j]@),
        decreases names.len() - i,
    {
        r.push(Ty::SpecType(names[i].copy_name()));
        i += 1;
    }
    assert(r@.map_values(|t: Ty| t@) =~= names@.map_values(|n: TypeName| TyView::SpecType(n@)));
    r
}

impl Command {
    /// The command that `xml` declares, if the registry requires it.
    pub fn new(require_map: &RequireMap, xml: &xml::Command) -> (r: Option<Command>)
        requires
            lookup(require_map.command@, xml.name@) is Some ==> {
                &&& forall|i: int| 0 <= i < xml.params@.len() ==> has_no_func(#[trigger] xml.params@[i].c_decl.ty)
                &&& return_has_no_func(xml.return_type)
            },
        ensures
            r is Some <==> lookup(require_map.command@, xml.name@) is Some,
            r matches Some(c) ==> c@ == command_of(*require_map, *xml, lookup(require_map.command@, xml.name@).unwrap()@),
    {
        proof {
            lemma_index_of_key(require_map.command@, xml.name@);
        }
        let i = find_key(&require_map.command, xml.name.original())?;
        let required_by = require_map.command[i].1.copy();
        let mut params: Vec<CommandParam> = Vec::new();
        let mut k: usize = 0;
        while k < xml.params.len()
            invariant
                k <= xml.params.len(),
                params@.len() == k,
                forall|j: int| 0 <= j < xml.params@.len() ==> has_no_func(#[trigger] xml.params@[j].c_decl.ty),
                forall|j: int| 0 <= j < k ==> (#[trigger] params@[j])@ == (CommandParamView {
                    decl: decl_of_c(*require_map, xml.params@[j].c_decl),
                    struct_impls_traits: xml.params@[j].struct_impls_traits@.map_values(|n: TypeName| TyView::SpecType(n@)),
                }),
            decreases xml.params.len() - k,
        {
            let param = &xml.params[k];
            params.push(CommandParam {
                decl: Decl::from_c(require_map, &param.c_decl),
                struct_impls_traits: struct_types(&param.struct_impls_traits),
            });
            k += 1;
        }
        let r = Command {
            required_by,
            name: xml.name.copy_name(),
            params,
            return_type: return_from_c(require_map, &xml.return_type),
        };
        assert(r@.params =~= command_of(*require_map, *xml, required_by@).params);
        Some(r)
    }
}

} // verus!
