use ash_gen::decl::{ArrayLen, CPrimaryType, Decl, Mutability, Ty};
use ash_gen::items::{BitMask, BaseType, CMacro, Constant, ConstantType, Enum, Items};
use ash_gen::names::{ConstantName, FuncPointerName, TypeName};
use ash_gen::require::{LibraryName, RequireLocation, RequireMap, RequiredBy};
use ash_gen::xml::{CArrayLen, CDecl, CExprItem, CType};

fn core_1_0() -> RequiredBy {
    RequiredBy { library: LibraryName::Vk, locations: vec![RequireLocation::Core { major: 1, minor: 0 }] }
}

fn require_map() -> RequireMap {
    RequireMap {
        ty: vec![(TypeName::new("VkExtent2D"), core_1_0())],
        func_pointer: vec![(FuncPointerName::new("PFN_vkVoidFunction"), core_1_0())],
        command: vec![],
    }
}

fn constant(name: &str, value: Vec<CExprItem>) -> (ConstantName, Constant) {
    (
        ConstantName::new(name),
        Constant {
            required_by: core_1_0(),
            name: ConstantName::new(name),
            ty: ConstantType::Integer(CPrimaryType::UInt32),
            value,
        },
    )
}

fn items_with(constants: Vec<(ConstantName, Constant)>) -> Items {
    let base_types: Vec<BaseType> = vec![];
    let enums: Vec<Enum> = vec![];
    let bitmasks: Vec<BitMask> = vec![];
    let cmacros: Vec<(ash_gen::names::CMacroName, CMacro)> = vec![];
    Items { types: vec![], constants, cmacros, commands: vec![], base_types, enums, bitmasks }
}

fn base(name: &str) -> CType {
    CType::Base { name: name.to_owned() }
}

fn array(element: Ty, len: ArrayLen) -> Ty {
    Ty::Array(Box::new(element), len)
}

const FLOAT: (usize, usize) = (4, 4);
const DOUBLE: (usize, usize) = (8, 8);

#[test]
fn primary_type_names_are_recognised() {
    assert_eq!(CPrimaryType::from_str("void"), Some(CPrimaryType::Void));
    assert_eq!(CPrimaryType::from_str("char"), Some(CPrimaryType::Char));
    assert_eq!(CPrimaryType::from_str("int"), Some(CPrimaryType::Int));
    assert_eq!(CPrimaryType::from_str("float"), Some(CPrimaryType::Float));
    assert_eq!(CPrimaryType::from_str("double"), Some(CPrimaryType::Double));
    assert_eq!(CPrimaryType::from_str("int8_t"), Some(CPrimaryType::Int8));
    assert_eq!(CPrimaryType::from_str("uint8_t"), Some(CPrimaryType::UInt8));
    assert_eq!(CPrimaryType::from_str("int16_t"), Some(CPrimaryType::Int16));
    assert_eq!(CPrimaryType::from_str("uint16_t"), Some(CPrimaryType::UInt16));
    assert_eq!(CPrimaryType::from_str("int32_t"), Some(CPrimaryType::Int32));
    assert_eq!(CPrimaryType::from_str("uint32_t"), Some(CPrimaryType::UInt32));
    assert_eq!(CPrimaryType::from_str("int64_t"), Some(CPrimaryType::Int64));
    assert_eq!(CPrimaryType::from_str("uint64_t"), Some(CPrimaryType::UInt64));
    assert_eq!(CPrimaryType::from_str("size_t"), Some(CPrimaryType::Size));
}

#[test]
fn other_type_names_are_not_primary() {
    assert_eq!(CPrimaryType::from_str("VkBool32"), None);
    assert_eq!(CPrimaryType::from_str(""), None);
    assert_eq!(CPrimaryType::from_str("uint32"), None);
    assert_eq!(CPrimaryType::from_str("Void"), None);
}

#[test]
fn base_c_types_are_classified() {
    let rm = require_map();
    assert!(matches!(Ty::from_c(&rm, &base("uint32_t")), Ty::CPrimary(CPrimaryType::UInt32)));
    match Ty::from_c(&rm, &base("VkExtent2D")) {
        Ty::SpecType(n) => assert_eq!(n.original, "VkExtent2D"),
        _ => panic!("expected a registry type"),
    }
    match Ty::from_c(&rm, &base("PFN_vkVoidFunction")) {
        Ty::SpecFuncPointer(n) => assert_eq!(n.original, "PFN_vkVoidFunction"),
        _ => panic!("expected a function pointer type"),
    }
    match Ty::from_c(&rm, &base("Display")) {
        Ty::Platform(raw) => assert_eq!(raw, "Display"),
        _ => panic!("expected a platform type"),
    }
}

#[test]
fn pointer_and_array_c_types_are_classified() {
    let rm = require_map();
    let const_char_ptr = CType::Ptr { implicit_for_decay: false, is_const: true, pointee: Box::new(base("char")) };
    match Ty::from_c(&rm, &const_char_ptr) {
        Ty::Ptr(inner, m) => {
            assert_eq!(m, Mutability::Not);
            assert!(matches!(*inner, Ty::CPrimary(CPrimaryType::Char)));
        },
        _ => panic!("expected a pointer"),
    }
    let mut_ptr = CType::Ptr { implicit_for_decay: false, is_const: false, pointee: Box::new(base("VkExtent2D")) };
    match Ty::from_c(&rm, &mut_ptr) {
        Ty::Ptr(inner, m) => {
            assert_eq!(m, Mutability::Mut);
            assert!(matches!(*inner, Ty::SpecType(_)));
        },
        _ => panic!("expected a pointer"),
    }
    let float_array = CType::Array { element: Box::new(base("float")), len: CArrayLen::Literal(4) };
    match Ty::from_c(&rm, &float_array) {
        Ty::Array(inner, ArrayLen::Literal(4)) => assert!(matches!(*inner, Ty::CPrimary(CPrimaryType::Float))),
        _ => panic!("expected an array of four"),
    }
    let named_array = CType::Array { element: Box::new(base("uint8_t")), len: CArrayLen::Named("VK_UUID_SIZE".to_owned()) };
    match Ty::from_c(&rm, &named_array) {
        Ty::Array(_, ArrayLen::Constant(n)) => assert_eq!(n.original, "VK_UUID_SIZE"),
        _ => panic!("expected an array of a named length"),
    }
}

#[test]
fn declarations_keep_their_names() {
    let rm = require_map();
    let d = Decl::from_c(&rm, &CDecl { name: "extent".to_owned(), ty: base("VkExtent2D") });
    assert_eq!(d.name.original, "extent");
    assert!(matches!(d.ty, Ty::SpecType(_)));
}

#[test]
fn primary_types_have_their_layouts() {
    let items = items_with(vec![]);
    let u32_ty = Ty::CPrimary(CPrimaryType::UInt32);
    assert_eq!(u32_ty.get_alignment_and_size(&items, FLOAT, DOUBLE), Some((4, 4)));
    assert_eq!(Ty::CPrimary(CPrimaryType::Int8).get_alignment_and_size(&items, FLOAT, DOUBLE), Some((1, 1)));
    assert_eq!(Ty::CPrimary(CPrimaryType::UInt64).get_alignment_and_size(&items, FLOAT, DOUBLE), Some((8, 8)));
    assert_eq!(Ty::CPrimary(CPrimaryType::Int).get_alignment_and_size(&items, FLOAT, DOUBLE), Some((4, 4)));
    assert_eq!(
        Ty::CPrimary(CPrimaryType::Size).get_alignment_and_size(&items, FLOAT, DOUBLE),
        Some((core::mem::size_of::<usize>(), core::mem::align_of::<usize>()))
    );
    assert_eq!(Ty::CPrimary(CPrimaryType::Float).get_alignment_and_size(&items, (4, 2), DOUBLE), Some((4, 2)));
    assert_eq!(Ty::CPrimary(CPrimaryType::Double).get_alignment_and_size(&items, FLOAT, (8, 4)), Some((8, 4)));
}

#[test]
fn types_without_layout_give_none() {
    let items = items_with(vec![]);
    assert_eq!(Ty::CPrimary(CPrimaryType::Void).get_alignment_and_size(&items, FLOAT, DOUBLE), None);
    assert_eq!(Ty::CPrimary(CPrimaryType::Char).get_alignment_and_size(&items, FLOAT, DOUBLE), None);
    assert_eq!(Ty::SpecType(TypeName::new("VkExtent2D")).get_alignment_and_size(&items, FLOAT, DOUBLE), None);
    let ptr = Ty::Ptr(Box::new(Ty::CPrimary(CPrimaryType::UInt32)), Mutability::Not);
    assert_eq!(ptr.get_alignment_and_size(&items, FLOAT, DOUBLE), None);
    let char_array = array(Ty::CPrimary(CPrimaryType::Char), ArrayLen::Literal(8));
    assert_eq!(char_array.get_alignment_and_size(&items, FLOAT, DOUBLE), None);
}

#[test]
fn arrays_multiply_the_size_and_keep_the_first_component() {
    let items = items_with(vec![
        constant("VK_UUID_SIZE", vec![CExprItem::NumericLiteral("16".to_owned())]),
        constant("VK_MAX_NAME", vec![CExprItem::U32ArgVar("256".to_owned())]),
        constant("VK_ODD", vec![CExprItem::Punct('('), CExprItem::NumericLiteral("3".to_owned())]),
    ]);
    let lit = array(Ty::CPrimary(CPrimaryType::UInt16), ArrayLen::Literal(3));
    assert_eq!(lit.get_alignment_and_size(&items, FLOAT, DOUBLE), Some((2, 6)));
    let uuid = array(Ty::CPrimary(CPrimaryType::UInt8), ArrayLen::Constant(ConstantName::new("VK_UUID_SIZE")));
    assert_eq!(uuid.get_alignment_and_size(&items, FLOAT, DOUBLE), Some((1, 16)));
    let name = array(Ty::CPrimary(CPrimaryType::UInt32), ArrayLen::Constant(ConstantName::new("VK_MAX_NAME")));
    assert_eq!(name.get_alignment_and_size(&items, FLOAT, DOUBLE), Some((4, 1024)));
    let odd = array(Ty::CPrimary(CPrimaryType::UInt32), ArrayLen::Constant(ConstantName::new("VK_ODD")));
    assert_eq!(odd.get_alignment_and_size(&items, FLOAT, DOUBLE), Some((4, 0)));
    let nested = array(lit, ArrayLen::Literal(2));
    assert_eq!(nested.get_alignment_and_size(&items, FLOAT, DOUBLE), Some((2, 12)));
    let floats = array(Ty::CPrimary(CPrimaryType::Float), ArrayLen::Literal(4));
    assert_eq!(floats.get_alignment_and_size(&items, FLOAT, DOUBLE), Some((4, 16)));
}

#[test]
fn numbers_are_zeroable() {
    let items = items_with(vec![]);
    for p in [
        CPrimaryType::Int,
        CPrimaryType::Float,
        CPrimaryType::Double,
        CPrimaryType::Int8,
        CPrimaryType::UInt8,
        CPrimaryType::Int16,
        CPrimaryType::UInt16,
        CPrimaryType::Int32,
        CPrimaryType::UInt32,
        CPrimaryType::Int64,
        CPrimaryType::UInt64,
        CPrimaryType::Size,
    ] {
        assert!(Ty::CPrimary(p).bytemuck_is_zeroable(&items));
    }
    assert!(!Ty::CPrimary(CPrimaryType::Void).bytemuck_is_zeroable(&items));
    assert!(!Ty::CPrimary(CPrimaryType::Char).bytemuck_is_zeroable(&items));
}

#[test]
fn other_types_are_not_zeroable() {
    let items = items_with(vec![]);
    assert!(!Ty::SpecType(TypeName::new("VkExtent2D")).bytemuck_is_zeroable(&items));
    assert!(!Ty::SpecFuncPointer(FuncPointerName::new("PFN_vkVoidFunction")).bytemuck_is_zeroable(&items));
    assert!(!Ty::Platform("Display".to_owned()).bytemuck_is_zeroable(&items));
    assert!(!Ty::RustType(ash_gen::decl::RustType::CStr).bytemuck_is_zeroable(&items));
    assert!(!Ty::Ptr(Box::new(Ty::CPrimary(CPrimaryType::UInt8)), Mutability::Mut).bytemuck_is_zeroable(&items));
    assert!(!Ty::Ref(Box::new(Ty::CPrimary(CPrimaryType::UInt8)), Mutability::Not).bytemuck_is_zeroable(&items));
    assert!(!Ty::Slice(Box::new(Ty::CPrimary(CPrimaryType::UInt8)), Mutability::Not, None).bytemuck_is_zeroable(&items));
}

#[test]
fn arrays_are_zeroable_when_their_length_is_a_number() {
    let items = items_with(vec![
        constant("VK_UUID_SIZE", vec![CExprItem::NumericLiteral("16".to_owned())]),
        constant("VK_ODD", vec![CExprItem::Punct('('), CExprItem::NumericLiteral("3".to_owned())]),
        constant("VK_BAD", vec![CExprItem::NumericLiteral("16U".to_owned())]),
    ]);
    assert!(array(Ty::CPrimary(CPrimaryType::UInt8), ArrayLen::Literal(4)).bytemuck_is_zeroable(&items));
    assert!(array(Ty::CPrimary(CPrimaryType::UInt8), ArrayLen::Constant(ConstantName::new("VK_UUID_SIZE"))).bytemuck_is_zeroable(&items));
    assert!(!array(Ty::CPrimary(CPrimaryType::UInt8), ArrayLen::Constant(ConstantName::new("VK_ODD"))).bytemuck_is_zeroable(&items));
    assert!(!array(Ty::CPrimary(CPrimaryType::UInt8), ArrayLen::Constant(ConstantName::new("VK_BAD"))).bytemuck_is_zeroable(&items));
    assert!(!array(Ty::CPrimary(CPrimaryType::Char), ArrayLen::Literal(4)).bytemuck_is_zeroable(&items));
}

#[test]
fn zeroable_types_have_a_layout() {
    let items = items_with(vec![constant("VK_UUID_SIZE", vec![CExprItem::NumericLiteral("16".to_owned())])]);
    let candidates = vec![
        Ty::CPrimary(CPrimaryType::UInt32),
        Ty::CPrimary(CPrimaryType::Double),
        array(Ty::CPrimary(CPrimaryType::UInt8), ArrayLen::Constant(ConstantName::new("VK_UUID_SIZE"))),
        array(array(Ty::CPrimary(CPrimaryType::Int16), ArrayLen::Literal(2)), ArrayLen::Literal(3)),
    ];
    for t in &candidates {
        assert!(t.bytemuck_is_zeroable(&items));
        assert!(t.get_alignment_and_size(&items, FLOAT, DOUBLE).is_some());
    }
}
