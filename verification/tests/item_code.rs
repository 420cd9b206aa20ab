use ash_gen::decl::{CPrimaryType, Decl, Mutability, Ty};
use ash_gen::function::{Command, CommandParam};
use ash_gen::generator::{Context, generate};
use ash_gen::items::{
    BaseType, BitItem, BitMask, BitValue, BitWidth, CMacro, CommandAlias, CommandItem, Constant, ConstantType, Enum, EnumItem, EnumValue,
    Items, TypeItem,
};
use ash_gen::loader::FunctionType;
use ash_gen::names::{CMacroName, CommandName, ConstantName, EnumeratorName, FuncPointerName, TypeName, VariableName};
use ash_gen::output::{CodeMap, SingleDestination};
use ash_gen::require::{LibraryName, RequireLocation, RequiredBy};
use ash_gen::xml::CExprItem;

fn core_at(major: u32, minor: u32) -> RequiredBy {
    RequiredBy { library: LibraryName::Vk, locations: vec![RequireLocation::Core { major, minor }] }
}

fn ext(name: &str) -> RequiredBy {
    RequiredBy { library: LibraryName::Vk, locations: vec![RequireLocation::Extension { name: name.to_owned() }] }
}

fn ty_item(name: &str) -> (TypeName, TypeItem) {
    (TypeName::new(name), TypeItem { library: LibraryName::Vk, has_lifetime: false })
}

fn cmacro(name: &str, args: Vec<&str>) -> (CMacroName, CMacro) {
    (
        CMacroName::new(name),
        CMacro { required_by: core_at(1, 0), name: CMacroName::new(name), args: args.into_iter().map(|a| a.to_owned()).collect(), cexpr: vec![] },
    )
}

fn context_with(commands: Vec<(CommandName, CommandItem)>) -> Context {
    Context {
        items: Items {
            types: vec![
                ty_item("VkBool32"),
                ty_item("VkFrontFace"),
                ty_item("VkCullModeFlags"),
                ty_item("VkCullModeFlagBits"),
                ty_item("VkInstance"),
                ty_item("VkDevice"),
                ty_item("VkPhysicalDevice"),
            ],
            constants: vec![],
            cmacros: vec![cmacro("VK_MAKE_API_VERSION", vec!["variant", "major", "minor", "patch"]), cmacro("VK_HEADER_VERSION", vec![])],
            commands,
            base_types: vec![],
            enums: vec![],
            bitmasks: vec![],
        },
    }
}

fn lit(s: &str) -> String {
    proc_macro2::Literal::string(s).to_string()
}

fn entries(m: &CodeMap) -> Vec<(String, String)> {
    m.iter()
        .iter()
        .map(|(d, code)| {
            let place = match &d.location {
                RequireLocation::Core { major, minor } => format!("{major}.{minor}"),
                RequireLocation::Extension { name } => name.clone(),
            };
            (format!("{place}{}", if d.reexport { "" } else { " (own)" }), code.clone())
        })
        .collect()
}

fn num(s: &str) -> CExprItem {
    CExprItem::NumericLiteral(s.to_owned())
}

#[test]
fn a_base_type_is_an_alias() {
    let ctx = context_with(vec![]);
    let b = BaseType { required_by: core_at(1, 0), name: TypeName::new("VkBool32"), ty: Ty::CPrimary(CPrimaryType::UInt32) };
    assert_eq!(entries(&b.code(&ctx)), vec![("1.0".to_owned(), "pub type Bool32 = u32;".to_owned())]);
}

#[test]
fn constants_are_written_with_their_type() {
    let ctx = context_with(vec![]);
    let c = Constant { required_by: core_at(1, 0), name: ConstantName::new("VK_UUID_SIZE"), ty: ConstantType::Integer(CPrimaryType::UInt32), value: vec![num("16")] };
    assert_eq!(entries(&c.code(&ctx)), vec![("1.0".to_owned(), "pub const UUID_SIZE: u32 =  16;".to_owned())]);
    let s = Constant {
        required_by: ext("VK_KHR_surface"),
        name: ConstantName::new("VK_KHR_SURFACE_EXTENSION_NAME"),
        ty: ConstantType::String,
        value: vec![CExprItem::StringLiteral("VK_KHR_surface".to_owned())],
    };
    assert_eq!(
        entries(&s.code(&ctx)),
        vec![("VK_KHR_surface".to_owned(), "pub const KHR_SURFACE_EXTENSION_NAME: & core::ffi::CStr =  c\"VK_KHR_surface\";".to_owned())]
    );
}

#[test]
fn c_expressions_become_rust_expressions() {
    let ctx = context_with(vec![]);
    let not_zero = vec![CExprItem::Punct('('), CExprItem::Punct('~'), num("0"), CExprItem::Punct(')')];
    assert_eq!(CExprItem::to_rust(&not_zero, &ctx), " (!0)");
    let call = vec![CExprItem::MacroCall { macro_name: CMacroName::new("VK_MAKE_API_VERSION"), args: vec![vec![num("0")], vec![num("1")]] }];
    assert_eq!(CExprItem::to_rust(&call, &ctx), "  crate::vk::MAKE_API_VERSION( 0,  1) ");
    let bare = vec![CExprItem::MacroCall { macro_name: CMacroName::new("VK_HEADER_VERSION"), args: vec![] }, CExprItem::Punct('+'), num("1")];
    assert_eq!(CExprItem::to_rust(&bare, &ctx), "  crate::vk::header_version +1");
    assert_eq!(CExprItem::to_rust(&vec![], &ctx), " ");
}

#[test]
fn expressions_that_cannot_be_written_are_refused() {
    let ctx = context_with(vec![]);
    let unknown = vec![CExprItem::MacroCall { macro_name: CMacroName::new("VK_MISSING"), args: vec![] }];
    assert_eq!(CExprItem::try_to_rust(&unknown, &ctx), None);
    let unterminated = vec![CExprItem::Punct('"'), num("1")];
    assert_eq!(CExprItem::try_to_rust(&unterminated, &ctx), None);
    let bad_arg = vec![CExprItem::MacroCall { macro_name: CMacroName::new("VK_MAKE_API_VERSION"), args: vec![vec![CExprItem::Punct('\'')]] }];
    assert_eq!(CExprItem::try_to_rust(&bad_arg, &ctx), None);
    assert_eq!(CExprItem::try_to_rust(&vec![num("7")], &ctx), Some(" 7".to_owned()));
}

#[test]
fn macros_become_constants_or_functions() {
    let ctx = context_with(vec![]);
    let with_args = CMacro {
        required_by: core_at(1, 0),
        name: CMacroName::new("VK_MAKE_API_VERSION"),
        args: vec!["variant".to_owned()],
        cexpr: vec![num("0")],
    };
    assert_eq!(entries(&with_args.code(&ctx)), vec![("1.0".to_owned(), "pub const MAKE_API_VERSION: u32 =  0;".to_owned())]);
    let without = CMacro { required_by: core_at(1, 0), name: CMacroName::new("VK_HEADER_VERSION"), args: vec![], cexpr: vec![num("290")] };
    assert_eq!(entries(&without.code(&ctx)), vec![("1.0".to_owned(), "pub const fn header_version() -> u32 {  290 }".to_owned())]);
}

#[test]
fn an_enum_is_a_struct_with_constants() {
    let ctx = context_with(vec![]);
    let e = Enum {
        required_by: core_at(1, 0),
        name: TypeName::new("VkFrontFace"),
        items: vec![
            (EnumeratorName::new("VK_FRONT_FACE_COUNTER_CLOCKWISE"), EnumItem { required_by: core_at(1, 0), value: EnumValue::Variant(0) }),
            (EnumeratorName::new("VK_FRONT_FACE_CLOCKWISE"), EnumItem { required_by: core_at(1, 0), value: EnumValue::Variant(1) }),
        ],
    };
    let expected = format!(
        "#[repr(transparent)] #[derive(Clone, Copy, PartialEq, Eq, PartialOrd, Ord, Hash, Default)] #[derive(Debug)] pub struct FrontFace(pub(crate) i32); \
         #[doc = {}] impl FrontFace {{ #[inline] pub const fn from_raw(x: i32) -> Self {{ Self(x) }} #[inline] pub const fn as_raw(self) -> i32 {{ self.0 }} \
         pub const COUNTER_CLOCKWISE: Self = Self(0); pub const CLOCKWISE: Self = Self(1); }}",
        lit("Provided by [`vk1_0`](crate::vk1_0)")
    );
    assert_eq!(entries(&e.code(&ctx)), vec![("1.0".to_owned(), expected)]);
}

#[test]
fn enumerators_of_extensions_go_to_their_extension() {
    let ctx = context_with(vec![]);
    let e = Enum {
        required_by: core_at(1, 0),
        name: TypeName::new("VkFrontFace"),
        items: vec![
            (EnumeratorName::new("VK_FRONT_FACE_CLOCKWISE"), EnumItem { required_by: core_at(1, 0), value: EnumValue::Variant(1) }),
            (EnumeratorName::new("VK_FRONT_FACE_SIDEWAYS_EXT"), EnumItem { required_by: ext("VK_EXT_sideways"), value: EnumValue::Variant(-7) }),
            (EnumeratorName::new("VK_FRONT_FACE_CW"), EnumItem { required_by: core_at(1, 0), value: EnumValue::Alias(EnumeratorName::new("VK_FRONT_FACE_CLOCKWISE")) }),
        ],
    };
    let got = entries(&e.code(&ctx));
    assert_eq!(got.len(), 2);
    assert_eq!(got[0].0, "1.0");
    assert!(got[0].1.contains("pub const CLOCKWISE: Self = Self(1); pub const CW: Self = Self::CLOCKWISE; }"));
    assert_eq!(got[1].0, "VK_EXT_sideways");
    assert_eq!(
        got[1].1,
        format!("#[doc = {}] impl crate::vk::FrontFace {{ pub const SIDEWAYS_EXT: Self = Self(-7); }}", lit("Provided by [`ext::sideways`](crate::ext::sideways)"))
    );
}

#[test]
fn a_bitmask_has_its_bits() {
    let ctx = context_with(vec![]);
    let m = BitMask {
        required_by: core_at(1, 0),
        name: TypeName::new("VkCullModeFlags"),
        bitwidth: BitWidth::Bits32,
        bits_name: Some(TypeName::new("VkCullModeFlagBits")),
        items: vec![
            (EnumeratorName::new("VK_CULL_MODE_FRONT_BIT"), BitItem { required_by: core_at(1, 0), value: BitValue::BitPos(0) }),
            (EnumeratorName::new("VK_CULL_MODE_BACK_BIT"), BitItem { required_by: core_at(1, 0), value: BitValue::BitPos(1) }),
        ],
    };
    let got = entries(&m.code(&ctx));
    assert_eq!(got.len(), 1);
    let code = &got[0].1;
    assert!(code.starts_with("#[repr(transparent)] #[derive(Clone, Copy)] pub struct CullModeFlags(u32); impl CullModeFlags {  pub const FRONT_BIT: Self = Self(CullModeFlagBits::FRONT_BIT.0); pub const BACK_BIT: Self = Self(CullModeFlagBits::BACK_BIT.0); pub const fn empty() -> Self { Self(0) }"));
    assert!(code.contains("impl core::ops::Not for CullModeFlags { type Output = Self; fn not(self) -> Self { Self(!self.0) } } #[repr(transparent)] #[derive(Clone, Copy, Default)] pub struct CullModeFlagBits(pub(crate) u32);"));
    assert!(code.ends_with(&format!(
        " #[doc = {}] impl CullModeFlagBits {{ pub const FRONT_BIT: Self = Self(1 << 0); pub const BACK_BIT: Self = Self(1 << 1); }}",
        lit("Provided by [`vk1_0`](crate::vk1_0)")
    )));
}

#[test]
fn a_bitmask_without_bits_is_only_its_type() {
    let ctx = context_with(vec![]);
    let m = BitMask { required_by: core_at(1, 0), name: TypeName::new("VkCullModeFlags"), bitwidth: BitWidth::Bits64, bits_name: None, items: vec![] };
    let got = entries(&m.code(&ctx));
    assert_eq!(got.len(), 1);
    assert!(got[0].1.starts_with("#[repr(transparent)] #[derive(Clone, Copy)] pub struct CullModeFlags(u64); impl CullModeFlags {  pub const fn empty() -> Self { Self(0) }"));
    assert!(got[0].1.ends_with("fn not(self) -> Self { Self(!self.0) } } "));
}

fn param(name: &str, ty: Ty) -> CommandParam {
    CommandParam { decl: Decl { name: VariableName::new(name), ty }, struct_impls_traits: vec![] }
}

fn command(name: &str, required_by: RequiredBy, first: Option<Ty>) -> Command {
    Command {
        required_by,
        name: CommandName::new(name),
        params: first.into_iter().map(|t| param("handle", t)).collect(),
        return_type: None,
    }
}

fn single(location: RequireLocation) -> SingleDestination {
    SingleDestination { library: LibraryName::Vk, location, reexport: false }
}

#[test]
fn commands_belong_to_the_table_of_their_first_parameter() {
    let spec = |n: &str| Some(Ty::SpecType(TypeName::new(n)));
    assert_eq!(FunctionType::of_command(&command("vkGetInstanceProcAddr", core_at(1, 0), spec("VkInstance"))), FunctionType::Static);
    assert_eq!(FunctionType::of_command(&command("vkGetDeviceProcAddr", core_at(1, 0), spec("VkDevice"))), FunctionType::Instance);
    assert_eq!(FunctionType::of_command(&command("vkGetDeviceProcAddr", core_at(1, 0), None)), FunctionType::Instance);
    assert_eq!(FunctionType::of_command(&command("vkCmdDraw", core_at(1, 0), spec("VkCommandBuffer"))), FunctionType::Device);
    assert_eq!(FunctionType::of_command(&command("vkQueueSubmit", core_at(1, 0), spec("VkQueue"))), FunctionType::Device);
    assert_eq!(FunctionType::of_command(&command("vkDestroyDevice", core_at(1, 0), spec("VkDevice"))), FunctionType::Device);
    assert_eq!(FunctionType::of_command(&command("vkDestroyInstance", core_at(1, 0), spec("VkInstance"))), FunctionType::Instance);
    assert_eq!(FunctionType::of_command(&command("vkEnumerateDeviceLayers", core_at(1, 0), spec("VkPhysicalDevice"))), FunctionType::Instance);
    assert_eq!(FunctionType::of_command(&command("vkCreateInstance", core_at(1, 0), spec("VkInstanceCreateInfo"))), FunctionType::Entry);
    let ptr = Some(Ty::Ptr(Box::new(Ty::CPrimary(CPrimaryType::UInt32)), Mutability::Mut));
    assert_eq!(FunctionType::of_command(&command("vkEnumerateInstanceVersion", core_at(1, 1), ptr)), FunctionType::Entry);
}

#[test]
fn tables_and_loaders_are_named_by_version() {
    let v1_1 = single(RequireLocation::Core { major: 1, minor: 1 });
    let khr = single(RequireLocation::Extension { name: "VK_KHR_surface".to_owned() });
    assert_eq!(FunctionType::Static.table_name(&v1_1), "StaticFn");
    assert_eq!(FunctionType::Static.loader_name(&khr), "Static");
    assert_eq!(FunctionType::Entry.table_name(&v1_1), "EntryFnV1_1");
    assert_eq!(FunctionType::Entry.loader_name(&v1_1), "EntryV1_1");
    assert_eq!(FunctionType::Instance.table_name(&khr), "InstanceFn");
    assert_eq!(FunctionType::Instance.loader_name(&khr), "Instance");
    assert_eq!(FunctionType::Device.table_name(&v1_1), "DeviceFnV1_1");
    assert_eq!(FunctionType::Device.loader_name(&khr), "Device");
}

#[test]
fn command_names_read_back() {
    let c = command("vkCmdDraw", core_at(1, 0), None);
    assert_eq!(c.name().original, "vkCmdDraw");
    let fp = ash_gen::function::FuncPointer { required_by: core_at(1, 0), name: FuncPointerName::new("PFN_vkVoidFunction"), params: vec![], return_type: None };
    assert_eq!(fp.name().original, "PFN_vkVoidFunction");
}

#[test]
fn generation_lays_out_items_and_tables() {
    let destroy = command("vkDestroyDevice", core_at(1, 0), Some(Ty::SpecType(TypeName::new("VkDevice"))));
    let alias = CommandAlias { name: CommandName::new("vkDestroyDeviceKHR"), required_by: ext("VK_KHR_x"), alias: CommandName::new("vkDestroyDevice") };
    let mut ctx = context_with(vec![
        (CommandName::new("vkDestroyDevice"), CommandItem::Command(destroy)),
        (CommandName::new("vkDestroyDeviceKHR"), CommandItem::Alias(alias)),
    ]);
    ctx.items.base_types.push(BaseType { required_by: core_at(1, 0), name: TypeName::new("VkBool32"), ty: Ty::CPrimary(CPrimaryType::UInt32) });
    let fs = generate(&ctx);
    let paths: Vec<&str> = fs.files.iter().map(|(p, _)| p.as_str()).collect();
    for p in ["mod.rs", "vk.rs", "vk1_0.rs", "khr/mod.rs", "khr/x.rs"] {
        assert!(paths.contains(&p), "missing {p} in {paths:?}");
    }
    for (i, p) in paths.iter().enumerate() {
        assert!(!paths[i + 1..].contains(p));
    }
    let core_file = &fs.files.iter().find(|(p, _)| p == "vk1_0.rs").unwrap().1;
    assert!(core_file.contains("pub type Bool32 = u32;"));
    assert!(core_file.contains("pub struct DeviceFnV1_0 {  pub destroy_device: crate::vk::PFN_vkDestroyDevice, }"));
    assert!(core_file.contains("pub struct DeviceV1_0 { pub(crate) fp: DeviceFnV1_0, pub(crate) handle: crate::vk::Device, }"));
    assert!(core_file.contains("pub(crate) mod reexport"));
    let ext_file = &fs.files.iter().find(|(p, _)| p == "khr/x.rs").unwrap().1;
    assert!(ext_file.contains("pub struct DeviceFn {  pub destroy_device_khr: crate::vk::PFN_vkDestroyDeviceKHR, }"));
    let vk = &fs.files.iter().find(|(p, _)| p == "vk.rs").unwrap().1;
    assert!(vk.contains("pub use super::vk1_0::reexport::*;"));
}
