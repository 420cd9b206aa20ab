//! Types of declarations, as classified from their C spelling.
use vstd::prelude::*;
use vstd::layout::{size_of, align_of};
use crate::text::str_eq;
use crate::names::{RegistryName, VariableName, TypeName, FuncPointerName, ConstantName};
use crate::require::{RequireMap, lookup, find_key, lemma_index_of_key};
use crate::xml::{CArrayLen, CType, CDecl, CExprItem, has_no_func};
use crate::items::Items;
use crate::decimal::{parse_usize, parse_usize_spec};

verus! {

#[derive(Debug, Clone, Copy, PartialEq, Eq, Structural)]
pub enum Mutability {
    Not,
    Mut,
}

#[derive(Debug, Clone, Copy, PartialEq, Eq, Structural)]
pub enum CPrimaryType {
    Void,
    Char,
    Int,
    Float,
    Double,
    Int8,
    UInt8,
    Int16,
    UInt16,
    Int32,
    UInt32,
    Int64,
    UInt64,
    Size,
}

/// The primary C type that a C type name denotes, if it denotes one.
pub open spec fn primary_type_of(s: Seq<char>) -> Option<CPrimaryType> {
    if s == "void"@ {
        Some(CPrimaryType::Void)
    } else if s == "char"@ {
        Some(CPrimaryType::Char)
    } else if s == "int"@ {
        Some(CPrimaryType::Int)
    } else if s == "float"@ {
        Some(CPrimaryType::Float)
    } else if s == "double"@ {
        Some(CPrimaryType::Double)
    } else if s == "int8_t"@ {
        Some(CPrimaryType::Int8)
    } else if s == "uint8_t"@ {
        Some(CPrimaryType::UInt8)
    } else if s == "int16_t"@ {
        Some(CPrimaryType::Int16)
    } else if s == "uint16_t"@ {
        Some(CPrimaryType::UInt16)
    } else if s == "int32_t"@ {
        Some(CPrimaryType::Int32)
    } else if s == "uint32_t"@ {
        Some(CPrimaryType::UInt32)
    } else if s == "int64_t"@ {
        Some(CPrimaryType::Int64)
    } else if s == "uint64_t"@ {
        Some(CPrimaryType::UInt64)
    } else if s == "size_t"@ {
        Some(CPrimaryType::Size)
    } else {
        None
    }
}

impl CPrimaryType {
    pub fn from_str(s: &str) -> (r: Option<CPrimaryType>)
        ensures
            r == primary_type_of(s@),
    {
        if str_eq(s, "void") {
            Some(CPrimaryType::Void)
        } else if str_eq(s, "char") {
            Some(CPrimaryType::Char)
        } else if str_eq(s, "int") {
            Some(CPrimaryType::Int)
        } else if str_eq(s, "float") {
            Some(CPrimaryType::Float)
        } else if str_eq(s, "double") {
            Some(CPrimaryType::Double)
        } else if str_eq(s, "int8_t") {
            Some(CPrimaryType::Int8)
        } else if str_eq(s, "uint8_t") {
            Some(CPrimaryType::UInt8)
        } else if str_eq(s, "int16_t") {
            Some(CPrimaryType::Int16)
        } else if str_eq(s, "uint16_t") {
            Some(CPrimaryType::UInt16)
        } else if str_eq(s, "int32_t") {
            Some(CPrimaryType::Int32)
        } else if str_eq(s, "uint32_t") {
            Some(CPrimaryType::UInt32)
        } else if str_eq(s, "int64_t") {
            Some(CPrimaryType::Int64)
        } else if str_eq(s, "uint64_t") {
            Some(CPrimaryType::UInt64)
        } else if str_eq(s, "size_t") {
            Some(CPrimaryType::Size)
        } else {
            None
        }
    }
}

} // verus!

verus! {

/// The length of an array type: a named constant or a literal.
pub enum ArrayLen {
    Constant(ConstantName),
    Literal(u128),
}

pub ghost enum ArrayLenView {
    Constant(Seq<char>),
    Literal(u128),
}

impl View for ArrayLen {
    type V = ArrayLenView;

    open spec fn view(&self) -> ArrayLenView {
        match self {
            ArrayLen::Constant(n) => ArrayLenView::Constant(n@),
            ArrayLen::Literal(v) => ArrayLenView::Literal(*v),
        }
    }
}

impl ArrayLen {
    pub fn copy(&self) -> (r: ArrayLen)
        ensures
            r@ == self@,
    {
        match self {
            ArrayLen::Constant(n) => ArrayLen::Constant(n.copy_name()),
            ArrayLen::Literal(v) => ArrayLen::Literal(*v),
        }
    }
}

/// Types that are written in Rust directly, with no C counterpart.
#[derive(Debug, Clone, Copy, PartialEq, Eq, Structural)]
pub enum RustType {
    CStr,
}

/// The type of a declaration, as the generated Rust code sees it.
pub enum Ty {
    SpecType(TypeName),
    SpecFuncPointer(FuncPointerName),
    CPrimary(CPrimaryType),
    RustType(RustType),
    Platform(String),
    Ptr(Box<Ty>, Mutability),
    Ref(Box<Ty>, Mutability),
    Slice(Box<Ty>, Mutability, Option<ArrayLen>),
    Array(Box<Ty>, ArrayLen),
}

pub ghost enum TyView {
    SpecType(Seq<char>),
    SpecFuncPointer(Seq<char>),
    CPrimary(CPrimaryType),
    RustType(RustType),
    Platform(Seq<char>),
    Ptr(Box<TyView>, Mutability),
    Ref(Box<TyView>, Mutability),
    Slice(Box<TyView>, Mutability, Option<ArrayLenView>),
    Array(Box<TyView>, ArrayLenView),
}

pub open spec fn option_len_view(l: Option<ArrayLen>) -> Option<ArrayLenView> {
    match l {
        Some(l) => Some(l@),
        None => None,
    }
}

pub open spec fn ty_view(t: Ty) -> TyView
    decreases t,
{
    match t {
        Ty::SpecType(n) => TyView::SpecType(n@),
        Ty::SpecFuncPointer(n) => TyView::SpecFuncPointer(n@),
        Ty::CPrimary(p) => TyView::CPrimary(p),
        Ty::RustType(r) => TyView::RustType(r),
        Ty::Platform(s) => TyView::Platform(s@),
        Ty::Ptr(inner, m) => TyView::Ptr(Box::new(ty_view(*inner)), m),
        Ty::Ref(inner, m) => TyView::Ref(Box::new(ty_view(*inner)), m),
        Ty::Slice(inner, m, l) => TyView::Slice(Box::new(ty_view(*inner)), m, option_len_view(l)),
        Ty::Array(inner, l) => TyView::Array(Box::new(ty_view(*inner)), l@),
    }
}

impl View for Ty {
    type V = TyView;

    open spec fn view(&self) -> TyView {
        ty_view(*self)
    }
}

impl Ty {
    pub fn copy(&self) -> (r: Ty)
        ensures
            r@ == self@,
        decreases self,
    {
        match self {
            Ty::SpecType(n) => Ty::SpecType(n.copy_name()),
            Ty::SpecFuncPointer(n) => Ty::SpecFuncPointer(n.copy_name()),
            Ty::CPrimary(p) => Ty::CPrimary(*p),
            Ty::RustType(r) => Ty::RustType(*r),
            Ty::Platform(s) => Ty::Platform(s.clone()),
            Ty::Ptr(inner, m) => Ty::Ptr(Box::new((**inner).copy()), *m),
            Ty::Ref(inner, m) => Ty::Ref(Box::new((**inner).copy()), *m),
            Ty::Slice(inner, m, l) => {
                let l2 = match l {
                    Some(l) => Some(l.copy()),
                    None => None,
                };
                Ty::Slice(Box::new((**inner).copy()), *m, l2)
            },
            Ty::Array(inner, l) => Ty::Array(Box::new((**inner).copy()), l.copy()),
        }
    }
}

/// A declaration: a name and its type.
pub struct Decl {
    pub name: VariableName,
    pub ty: Ty,
}

pub ghost struct DeclView {
    pub name: Seq<char>,
    pub ty: TyView,
}

impl View for Decl {
    type V = DeclView;

    open spec fn view(&self) -> DeclView {
        DeclView { name: self.name@, ty: self.ty@ }
    }
}

/// The type that a C type denotes, given what the registry requires.
pub open spec fn ty_of_c(rm: RequireMap, c: CType) -> TyView
    decreases c,
{
    match c {
        CType::Base { name } => match primary_type_of(name@) {
            Some(p) => TyView::CPrimary(p),
            None => if lookup(rm.ty@, name@) is Some {
                TyView::SpecType(name@)
            } else if lookup(rm.func_pointer@, name@) is Some {
                TyView::SpecFuncPointer(name@)
            } else {
                TyView::Platform(name@)
            },
        },
        CType::Ptr { is_const, pointee, .. } => TyView::Ptr(
            Box::new(ty_of_c(rm, *pointee)),
            if is_const {
                Mutability::Not
            } else {
                Mutability::Mut
            },
        ),
        CType::Array { element, len } => TyView::Array(
            Box::new(ty_of_c(rm, *element)),
            match len {
                CArrayLen::Named(n) => ArrayLenView::Constant(n@),
                CArrayLen::Literal(v) => ArrayLenView::Literal(v),
            },
        ),
        CType::Func => TyView::Platform(Seq::empty()),
    }
}

impl Decl {
    pub fn from_c(require_map: &RequireMap, c_decl: &CDecl) -> (r: Decl)
        requires
            has_no_func(c_decl.ty),
        ensures
            r@ == (DeclView { name: c_decl.name@, ty: ty_of_c(*require_map, c_decl.ty) }),
    {
        Decl { name: VariableName::new(c_decl.name.as_str()), ty: Ty::from_c(require_map, &c_decl.ty) }
    }
}

impl Ty {
    pub fn from_c(require_map: &RequireMap, c_type: &CType) -> (r: Ty)
        requires
            has_no_func(*c_type),
        ensures
            r@ == ty_of_c(*require_map, *c_type),
        decreases c_type,
    {
        match c_type {
            CType::Base { name } => {
                let name = name.as_str();
                if let Some(primary) = CPrimaryType::from_str(name) {
                    Ty::CPrimary(primary)
                } else if find_key(&require_map.ty, name).is_some() {
                    proof {
                        lemma_index_of_key(require_map.ty@, name@);
                    }
                    Ty::SpecType(TypeName::new(name))
                } else if find_key(&require_map.func_pointer, name).is_some() {
                    proof {
                        lemma_index_of_key(require_map.ty@, name@);
                        lemma_index_of_key(require_map.func_pointer@, name@);
                    }
                    Ty::SpecFuncPointer(FuncPointerName::new(name))
                } else {
                    proof {
                        lemma_index_of_key(require_map.ty@, name@);
                        lemma_index_of_key(require_map.func_pointer@, name@);
                    }
                    Ty::Platform(name.to_owned())
                }
            },
            CType::Ptr { implicit_for_decay: _, is_const, pointee } => Ty::Ptr(
                Box::new(Ty::from_c(require_map, pointee)),
                if *is_const {
                    Mutability::Not
                } else {
                    Mutability::Mut
                },
            ),
            CType::Array { element, len } => Ty::Array(
                Box::new(Ty::from_c(require_map, element)),
                match len {
                    CArrayLen::Named(constant) => ArrayLen::Constant(ConstantName::new(constant.as_str())),
                    CArrayLen::Literal(value) => ArrayLen::Literal(*value),
                },
            ),
            CType::Func => {
                proof {
                    assert(false);
                }
                Ty::Platform(String::new())
            },
        }
    }
}

} // verus!

verus! {

/// Whether looking a constant up for an array length finds it, with a nonempty value.
pub open spec fn length_constant_found(items: Items, len: ArrayLenView) -> bool {
    match len {
        ArrayLenView::Literal(_) => true,
        ArrayLenView::Constant(n) => lookup(items.constants@, n) matches Some(c) && c.value@.len() > 0,
    }
}

/// The first item of the expression that defines the constant of an array length.
pub open spec fn length_constant_head(items: Items, n: Seq<char>) -> CExprItem {
    lookup(items.constants@, n).unwrap().value@[0]
}

/// The number of elements that an array length gives, when its constant is a number
/// (`None` where the number cannot be read; 0 for any other expression).
pub open spec fn array_length(items: Items, len: ArrayLenView) -> Option<usize> {
    match len {
        ArrayLenView::Literal(x) => Some(x as usize),
        ArrayLenView::Constant(n) => match length_constant_head(items, n) {
            CExprItem::NumericLiteral(v) => parse_usize_spec(v@),
            CExprItem::U32ArgVar(v) => parse_usize_spec(v@),
            _ => Some(0),
        },
    }
}

/// Whether an array length is known: a literal, or a constant that is a number.
pub open spec fn has_valid_length(items: Items, len: ArrayLenView) -> bool {
    match len {
        ArrayLenView::Literal(_) => true,
        ArrayLenView::Constant(n) => match length_constant_head(items, n) {
            CExprItem::NumericLiteral(v) => parse_usize_spec(v@) is Some,
            CExprItem::U32ArgVar(v) => parse_usize_spec(v@) is Some,
            _ => false,
        },
    }
}

/// The first and second component that `get_alignment_and_size` gives: for a primary
/// type its size and its alignment (`float` and `double` as given), for an array the
/// element's first component and its second times the number of elements.
pub open spec fn layout_of(t: TyView, items: Items, float: (usize, usize), double: (usize, usize)) -> Option<(int, int)>
    decreases t,
{
    match t {
        TyView::CPrimary(p) => match p {
            CPrimaryType::Float => Some((float.0 as int, float.1 as int)),
            CPrimaryType::Double => Some((double.0 as int, double.1 as int)),
            CPrimaryType::Int8 => Some((size_of::<i8>() as int, align_of::<i8>() as int)),
            CPrimaryType::UInt8 => Some((size_of::<u8>() as int, align_of::<u8>() as int)),
            CPrimaryType::Int16 => Some((size_of::<i16>() as int, align_of::<i16>() as int)),
            CPrimaryType::UInt16 => Some((size_of::<u16>() as int, align_of::<u16>() as int)),
            CPrimaryType::Int32 => Some((size_of::<i32>() as int, align_of::<i32>() as int)),
            CPrimaryType::UInt32 => Some((size_of::<u32>() as int, align_of::<u32>() as int)),
            CPrimaryType::Int64 => Some((size_of::<i64>() as int, align_of::<i64>() as int)),
            CPrimaryType::UInt64 => Some((size_of::<u64>() as int, align_of::<u64>() as int)),
            CPrimaryType::Size => Some((size_of::<usize>() as int, align_of::<usize>() as int)),
            CPrimaryType::Int => Some((size_of::<u32>() as int, align_of::<u32>() as int)),
            _ => None,
        },
        TyView::Array(inner, len) => match layout_of(*inner, items, float, double) {
            Some((a, s)) => Some((a, s * array_length(items, len).unwrap())),
            None => None,
        },
        _ => None,
    }
}

/// The inputs on which `get_alignment_and_size` returns: every constant it reads is
/// found and is a number, and no product exceeds `usize::MAX`.
pub open spec fn layout_defined(t: TyView, items: Items, float: (usize, usize), double: (usize, usize)) -> bool
    decreases t,
{
    match t {
        TyView::Array(inner, len) => {
            &&& layout_defined(*inner, items, float, double)
            &&& (layout_of(*inner, items, float, double) matches Some((_, s)) ==> {
                &&& length_constant_found(items, len)
                &&& array_length(items, len) is Some
                &&& s * array_length(items, len).unwrap() <= usize::MAX
            })
        },
        _ => true,
    }
}

/// Whether a type is zeroable in the sense of `bytemuck`: numbers, and arrays of them
/// whose length is known.
pub open spec fn zeroable(t: TyView, items: Items) -> bool
    decreases t,
{
    match t {
        TyView::CPrimary(p) => !(p is Void || p is Char),
        TyView::Array(inner, len) => zeroable(*inner, items) && has_valid_length(items, len),
        _ => false,
    }
}

/// The inputs on which `bytemuck_is_zeroable` returns: each array length constant
/// that it reads is found, with a nonempty value.
pub open spec fn zeroable_defined(t: TyView, items: Items) -> bool
    decreases t,
{
    match t {
        TyView::Array(inner, len) => length_constant_found(items, len) && zeroable_defined(*inner, items),
        _ => true,
    }
}

/// The head item of the expression of a constant, where it is found with a nonempty value.
fn constant_head<'a>(items: &'a Items, name: &ConstantName) -> (r: &'a CExprItem)
    requires
        length_constant_found(*items, ArrayLenView::Constant(name@)),
    ensures
        *r == length_constant_head(*items, name@),
{
    proof {
        lemma_index_of_key(items.constants@, name@);
    }
    let i = find_key(&items.constants, name.original()).unwrap();
    &items.constants[i].1.value[0]
}

impl Ty {
    /// The size and alignment of a primary type or an array of them, as the generator
    /// lays them out; `float` and `double` give the layouts of the two floating point types.
    pub fn get_alignment_and_size(&self, items: &Items, float: (usize, usize), double: (usize, usize)) -> (r: Option<(usize, usize)>)
        requires
            layout_defined(self@, *items, float, double),
        ensures
            match r {
                Some((a, s)) => layout_of(self@, *items, float, double) == Some((a as int, s as int)),
                None => layout_of(self@, *items, float, double) is None,
            },
        decreases self,
    {
        match self {
            Ty::CPrimary(cprimary_type) => match cprimary_type {
                CPrimaryType::Float => Some(float),
                CPrimaryType::Double => Some(double),
                CPrimaryType::Int8 => Some((core::mem::size_of::<i8>(), core::mem::align_of::<i8>())),
                CPrimaryType::UInt8 => Some((core::mem::size_of::<u8>(), core::mem::align_of::<u8>())),
                CPrimaryType::Int16 => Some((core::mem::size_of::<i16>(), core::mem::align_of::<i16>())),
                CPrimaryType::UInt16 => Some((core::mem::size_of::<u16>(), core::mem::align_of::<u16>())),
                CPrimaryType::Int32 => Some((core::mem::size_of::<i32>(), core::mem::align_of::<i32>())),
                CPrimaryType::UInt32 => Some((core::mem::size_of::<u32>(), core::mem::align_of::<u32>())),
                CPrimaryType::Int64 => Some((core::mem::size_of::<i64>(), core::mem::align_of::<i64>())),
                CPrimaryType::UInt64 => Some((core::mem::size_of::<u64>(), core::mem::align_of::<u64>())),
                CPrimaryType::Size => Some((core::mem::size_of::<usize>(), core::mem::align_of::<usize>())),
                CPrimaryType::Int => Some((core::mem::size_of::<u32>(), core::mem::align_of::<u32>())),
                _ => None,
            },
            Ty::Array(ty, array_len) => {
                let (inner_align, inner_size) = match (**ty).get_alignment_and_size(items, float, double) {
                    Some(l) => l,
                    None => return None,
                };
                let length: usize = match array_len {
                    ArrayLen::Constant(constant_name) => {
                        let val = constant_head(items, constant_name);
                        match val {
                            CExprItem::NumericLiteral(val) => parse_usize(val.as_str()).unwrap(),
                            CExprItem::U32ArgVar(val) => parse_usize(val.as_str()).unwrap(),
                            _ => 0,
                        }
                    },
                    ArrayLen::Literal(x) => *x as usize,
                };
                Some((inner_align, inner_size * length))
            },
            _ => None,
        }
    }

    /// Whether every bit pattern of zeros is a valid value of this type.
    pub fn bytemuck_is_zeroable(&self, items: &Items) -> (r: bool)
        requires
            zeroable_defined(self@, *items),
        ensures
            r == zeroable(self@, *items),
        decreases self,
    {
        match self {
            Ty::SpecType(_) => false,
            Ty::SpecFuncPointer(_) => false,
            Ty::CPrimary(cprimary_type) => match cprimary_type {
                CPrimaryType::Void => false,
                CPrimaryType::Char => false,
                CPrimaryType::Int => true,
                CPrimaryType::Float => true,
                CPrimaryType::Double => true,
                CPrimaryType::Int8 => true,
                CPrimaryType::UInt8 => true,
                CPrimaryType::Int16 => true,
                CPrimaryType::UInt16 => true,
                CPrimaryType::Int32 => true,
                CPrimaryType::UInt32 => true,
                CPrimaryType::Int64 => true,
                CPrimaryType::UInt64 => true,
                CPrimaryType::Size => true,
            },
            Ty::RustType(rust_type) => match rust_type {
                RustType::CStr => false,
            },
            Ty::Platform(_) => false,
            Ty::Ptr(_, _) => false,
            Ty::Ref(_, _) => false,
            Ty::Slice(_, _, _) => false,
            Ty::Array(ty, array_len) => {
                let has_valid_length = match array_len {
                    ArrayLen::Constant(constant_name) => {
                        let val = constant_head(items, constant_name);
                        match val {
                            CExprItem::NumericLiteral(val) => parse_usize(val.as_str()).is_some(),
                            CExprItem::U32ArgVar(val) => parse_usize(val.as_str()).is_some(),
                            _ => false,
                        }
                    },
                    ArrayLen::Literal(_) => true,
                };
                (**ty).bytemuck_is_zeroable(items) && has_valid_length
            },
        }
    }
}

} // verus!
