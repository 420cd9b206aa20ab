use ash_gen::decl::{ArrayLen, CPrimaryType, Decl, Mutability, RustType, Ty};
use ash_gen::generator::{Context, check_escape_ident, escape_ident, refpage_doc, trim_p_pps};
use ash_gen::ident::{check_format_ident, check_ident, check_raw_ident, format_ident};
use ash_gen::items::{BaseType, BitMask, CMacro, Enum, Items, TypeItem};
use ash_gen::names::{CMacroName, CommandName, ConstantName, EnumeratorName, FuncPointerName, TypeName, VariableName};
use ash_gen::require::{LibraryName, RequireLocation, RequiredBy};
use ash_gen::to_rust::{Lifetime, RustTranslator};

fn core_1_0() -> RequiredBy {
    RequiredBy { library: LibraryName::Vk, locations: vec![RequireLocation::Core { major: 1, minor: 0 }] }
}

fn context() -> Context {
    let base_types: Vec<BaseType> = vec![];
    let enums: Vec<Enum> = vec![];
    let bitmasks: Vec<BitMask> = vec![];
    Context {
        items: Items {
            types: vec![
                (TypeName::new("VkExtent2D"), TypeItem { library: LibraryName::Vk, has_lifetime: false }),
                (TypeName::new("VkInstanceCreateInfo"), TypeItem { library: LibraryName::Vk, has_lifetime: true }),
                (TypeName::new("VkCullModeFlagBits"), TypeItem { library: LibraryName::Vk, has_lifetime: false }),
                (TypeName::new("StdVideoH264ProfileIdc"), TypeItem { library: LibraryName::Video, has_lifetime: false }),
            ],
            constants: vec![],
            cmacros: vec![
                (
                    CMacroName::new("VK_MAKE_API_VERSION"),
                    CMacro {
                        required_by: core_1_0(),
                        name: CMacroName::new("VK_MAKE_API_VERSION"),
                        args: vec!["variant".to_owned(), "major".to_owned()],
                        cexpr: vec![],
                    },
                ),
                (
                    CMacroName::new("VK_HEADER_VERSION"),
                    CMacro { required_by: core_1_0(), name: CMacroName::new("VK_HEADER_VERSION"), args: vec![], cexpr: vec![] },
                ),
            ],
            commands: vec![],
            base_types,
            enums,
            bitmasks,
        },
    }
}

#[test]
fn manual_page_links() {
    assert_eq!(
        refpage_doc("VkInstance", "An instance"),
        "[Vulkan Manual Page](https://docs.vulkan.org/refpages/latest/refpages/source/VkInstance.html) \u{b7} An instance"
    );
    assert_eq!(
        refpage_doc("vkCreateInstance", "x"),
        "[Vulkan Manual Page](https://docs.vulkan.org/refpages/latest/refpages/source/vkCreateInstance.html) \u{b7} x"
    );
    assert_eq!(refpage_doc("StdVideoH264", "Video"), "<s>Vulkan Manual Page</s> \u{b7} Video");
    assert_eq!(refpage_doc("v", "short"), "<s>Vulkan Manual Page</s> \u{b7} short");
}

#[test]
fn keywords_get_an_underscore() {
    assert_eq!(escape_ident("type"), "_type");
    assert_eq!(escape_ident("next"), "next");
    assert_eq!(escape_ident("2d"), "_2d");
    assert_eq!(escape_ident("r#type"), "r#type");
    assert_eq!(escape_ident(""), "_");
    assert!(check_escape_ident("type"));
    assert!(check_escape_ident("next"));
    assert!(check_escape_ident(""));
    assert!(!check_escape_ident("a-b"));
}

#[test]
fn pointer_prefixes_are_trimmed() {
    assert_eq!(trim_p_pps("p_next"), "next");
    assert_eq!(trim_p_pps("pp_enabled_layer_names"), "enabled_layer_names");
    assert_eq!(trim_p_pps("p_p_data"), "data");
    assert_eq!(trim_p_pps("p_pp_data"), "data");
    assert_eq!(trim_p_pps("pp_usage_counts"), "usage_counts_ptrs");
    assert_eq!(trim_p_pps("pp_geometries"), "geometries_ptrs");
    assert_eq!(trim_p_pps("flags"), "flags");
}

#[test]
fn identifiers_that_proc_macro2_accepts() {
    assert!(check_ident("khr"));
    assert!(check_ident("_"));
    assert!(check_ident("a1"));
    assert!(!check_ident("123"));
    assert!(!check_ident("1a"));
    assert!(!check_ident(""));
    assert!(!check_ident("a-b"));
    assert!(check_raw_ident("type"));
    assert!(!check_raw_ident("self"));
    assert!(!check_raw_ident("_"));
    assert!(check_format_ident("r#type"));
    assert!(!check_format_ident("r#crate"));
    assert!(check_format_ident("nvx"));
    assert_eq!(format_ident("r#type"), "r#type");
    assert_eq!(format_ident("khr"), "khr");
}

#[test]
fn variable_names_become_snake_case() {
    let ctx = context();
    assert_eq!(ctx.var_name_to_rust(&VariableName::new("pNext")), "p_next");
    assert_eq!(ctx.var_name_to_rust(&VariableName::new("sType")), "s_type");
    assert_eq!(ctx.var_name_to_rust(&VariableName::new("type")), "_type");
    assert_eq!(ctx.trimmed_var_name_to_rust(&VariableName::new("pNext")), "next");
    assert_eq!(ctx.trimmed_var_name_to_rust(&VariableName::new("ppEnabledLayerNames")), "enabled_layer_names");
    assert_eq!(ctx.trimmed_var_name_to_rust(&VariableName::new("ppGeometries")), "geometries_ptrs");
}

#[test]
fn type_names_lose_their_prefix() {
    let ctx = context();
    let ph = Lifetime::placeholder();
    let a = Lifetime { text: "'a".to_owned() };
    assert_eq!(ctx.type_to_rust(&TypeName::new("VkExtent2D"), false, &ph), "Extent2D");
    assert_eq!(ctx.type_to_rust(&TypeName::new("VkExtent2D"), true, &ph), "crate::vk::Extent2D");
    assert_eq!(ctx.type_to_rust(&TypeName::new("VkInstanceCreateInfo"), true, &a), "crate::vk::InstanceCreateInfo<'a>");
    assert_eq!(ctx.type_to_rust(&TypeName::new("VkInstanceCreateInfo"), false, &ph), "InstanceCreateInfo<'_>");
    assert_eq!(ctx.type_to_rust(&TypeName::new("VkCullModeFlagBits"), false, &ph), "CullModeFlags");
    assert_eq!(ctx.type_to_rust2(&TypeName::new("VkCullModeFlagBits"), false, &ph), "CullModeFlagBits");
    assert_eq!(ctx.type_to_rust(&TypeName::new("StdVideoH264ProfileIdc"), false, &ph), "H264ProfileIdc");
    assert!(ctx.check_type(&TypeName::new("VkExtent2D"), true));
    assert!(!ctx.check_type(&TypeName::new("VkUnknown"), true));
}

#[test]
fn enumerators_lose_their_type_prefix() {
    let ctx = context();
    let owner = TypeName::new("VkCullModeFlagBits");
    assert_eq!(ctx.enumerator_to_rust(&EnumeratorName::new("VK_CULL_MODE_FRONT_BIT"), &owner, false), "FRONT_BIT");
    assert_eq!(
        ctx.enumerator_to_rust(&EnumeratorName::new("VK_CULL_MODE_FRONT_AND_BACK"), &owner, true),
        "crate::vk::CullModeFlags::FRONT_AND_BACK"
    );
    let stripped = EnumeratorName::new("VK_CULL_MODE_NONE").stripped(&owner, LibraryName::Vk);
    assert_eq!(stripped, "NONE");
}

#[test]
fn paths_of_functions_constants_and_macros() {
    let ctx = context();
    assert_eq!(ctx.func_pointer_to_rust(&FuncPointerName::new("PFN_vkVoidFunction"), true), "crate::vk::PFN_vkVoidFunction");
    assert_eq!(ctx.command_to_rust(&CommandName::new("vkCreateInstance"), false), "PFN_vkCreateInstance");
    assert_eq!(ctx.command_to_rust(&CommandName::new("vkCreateInstance"), true), "crate::vk::PFN_vkCreateInstance");
    assert_eq!(ctx.constant_to_rust(&ConstantName::new("VK_UUID_SIZE"), true), "crate::vk::UUID_SIZE");
    assert_eq!(ctx.cmacro_to_rust(&CMacroName::new("VK_MAKE_API_VERSION"), false), "MAKE_API_VERSION");
    assert_eq!(ctx.cmacro_to_rust(&CMacroName::new("VK_HEADER_VERSION"), true), "crate::vk::header_version");
    assert!(ctx.check_cmacro(&CMacroName::new("VK_HEADER_VERSION")));
    assert!(!ctx.check_cmacro(&CMacroName::new("VK_MISSING")));
    assert_eq!(ctx.platform_type_to_rust("Display", true), "crate::platform_types::Display");
    assert_eq!(ctx.platform_type_to_rust("Display", false), "Display");
    assert_eq!(ctx.rust_type_to_rust(&RustType::CStr), "core::ffi::CStr");
    assert_eq!(ctx.primary_type_to_rust(CPrimaryType::Size), "usize");
    assert_eq!(ctx.primary_type_to_rust(CPrimaryType::Void), "core::ffi::c_void");
}

#[test]
fn qualified_paths_are_the_unqualified_ones_behind_the_module() {
    let ctx = context();
    let ph = Lifetime::placeholder();
    let t = TypeName::new("VkInstanceCreateInfo");
    assert_eq!(ctx.type_to_rust(&t, true, &ph), format!("crate::vk::{}", ctx.type_to_rust(&t, false, &ph)));
    let c = ConstantName::new("VK_UUID_SIZE");
    assert_eq!(ctx.constant_to_rust(&c, true), format!("crate::vk::{}", ctx.constant_to_rust(&c, false)));
    let m = CMacroName::new("VK_HEADER_VERSION");
    assert_eq!(ctx.cmacro_to_rust(&m, true), format!("crate::vk::{}", ctx.cmacro_to_rust(&m, false)));
}

#[test]
fn types_are_written_as_rust() {
    let ctx = context();
    let a = Lifetime { text: "'a".to_owned() };
    let u32_ty = Ty::CPrimary(CPrimaryType::UInt32);
    assert_eq!(u32_ty.to_rust(&ctx, &a), "u32");
    let ptr = Ty::Ptr(Box::new(Ty::CPrimary(CPrimaryType::Char)), Mutability::Not);
    assert_eq!(ptr.to_rust(&ctx, &a), "* const core::ffi::c_char");
    let mut_ptr = Ty::Ptr(Box::new(Ty::SpecType(TypeName::new("VkExtent2D"))), Mutability::Mut);
    assert_eq!(mut_ptr.to_rust(&ctx, &a), "* mut crate::vk::Extent2D");
    let r = Ty::Ref(Box::new(Ty::SpecType(TypeName::new("VkInstanceCreateInfo"))), Mutability::Not);
    assert_eq!(r.to_rust(&ctx, &a), "& 'a  crate::vk::InstanceCreateInfo<'a>");
    let s = Ty::Slice(Box::new(Ty::CPrimary(CPrimaryType::UInt8)), Mutability::Mut, Some(ArrayLen::Literal(4)));
    assert_eq!(s.to_rust(&ctx, &a), "& 'a mut [u8 ; 4]");
    let s2 = Ty::Slice(Box::new(Ty::CPrimary(CPrimaryType::UInt8)), Mutability::Not, None);
    assert_eq!(s2.to_rust(&ctx, &a), "& 'a  [u8 ]");
    let arr = Ty::Array(Box::new(Ty::CPrimary(CPrimaryType::Float)), ArrayLen::Constant(ConstantName::new("VK_UUID_SIZE")));
    assert_eq!(arr.to_rust(&ctx, &a), "[core::ffi::c_float; crate::vk::UUID_SIZE as _]");
    let lit = Ty::Array(Box::new(Ty::CPrimary(CPrimaryType::Int8)), ArrayLen::Literal(16));
    assert_eq!(lit.to_rust(&ctx, &a), "[i8; 16 as _]");
    assert_eq!(ArrayLen::Literal(256).to_rust(&ctx), "256");
    assert_eq!(Ty::Platform("Display".to_owned()).to_rust(&ctx, &a), "crate::platform_types::Display");
    assert_eq!(Ty::RustType(RustType::CStr).to_rust(&ctx, &a), "core::ffi::CStr");
    let fp = Ty::SpecFuncPointer(FuncPointerName::new("PFN_vkVoidFunction"));
    assert_eq!(fp.to_rust(&ctx, &a), "crate::vk::PFN_vkVoidFunction");
}

#[test]
fn declarations_are_written_as_name_and_type() {
    let ctx = context();
    let d = Decl { name: VariableName::new("pNext"), ty: Ty::Ptr(Box::new(Ty::CPrimary(CPrimaryType::Void)), Mutability::Not) };
    assert_eq!(d.to_rust(&ctx, &Lifetime::placeholder()), "p_next : * const core::ffi::c_void");
}
