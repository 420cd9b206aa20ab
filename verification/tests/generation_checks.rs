use ash_gen::check::{check_items, check_layout, check_loader, try_generate};
use ash_gen::decl::{ArrayLen, CPrimaryType, Decl, Mutability, Ty};
use ash_gen::function::{Command, CommandParam};
use ash_gen::generator::{Context, generate};
use ash_gen::items::{
    BaseType, BitItem, BitMask, BitValue, BitWidth, CommandAlias, CommandItem, Constant, ConstantType, Enum, EnumItem, EnumValue, Items,
    TypeItem,
};
use ash_gen::names::{CMacroName, CommandName, ConstantName, EnumeratorName, TypeName, VariableName};
use ash_gen::output::{CodeMap, SingleDestination};
use ash_gen::require::{LibraryName, RequireLocation, RequiredBy};
use ash_gen::xml::CExprItem;
use ash_gen::vk::{Result as Code, read_step};

fn at_core() -> RequiredBy {
    RequiredBy { library: LibraryName::Vk, locations: vec![RequireLocation::Core { major: 1, minor: 0 }] }
}

fn at_ext(name: &str) -> RequiredBy {
    RequiredBy { library: LibraryName::Vk, locations: vec![RequireLocation::Extension { name: name.to_owned() }] }
}

fn nowhere() -> RequiredBy {
    RequiredBy { library: LibraryName::Vk, locations: vec![] }
}

fn ctx() -> Context {
    let ty = |n: &str| (TypeName::new(n), TypeItem { library: LibraryName::Vk, has_lifetime: false });
    Context {
        items: Items {
            types: vec![ty("VkBool32"), ty("VkFrontFace"), ty("VkDevice"), ty("VkCullModeFlags"), ty("VkCullModeFlagBits")],
            constants: vec![],
            cmacros: vec![],
            commands: vec![],
            base_types: vec![],
            enums: vec![],
            bitmasks: vec![],
        },
    }
}

fn bool32() -> BaseType {
    BaseType { required_by: at_core(), name: TypeName::new("VkBool32"), ty: Ty::CPrimary(CPrimaryType::UInt32) }
}

fn front_face(required_by: RequiredBy) -> Enum {
    Enum {
        required_by: at_core(),
        name: TypeName::new("VkFrontFace"),
        items: vec![(EnumeratorName::new("VK_FRONT_FACE_CLOCKWISE"), EnumItem { required_by, value: EnumValue::Variant(1) })],
    }
}

fn destroy_device(required_by: RequiredBy) -> Command {
    Command {
        required_by,
        name: CommandName::new("vkDestroyDevice"),
        params: vec![CommandParam {
            decl: Decl { name: VariableName::new("device"), ty: Ty::SpecType(TypeName::new("VkDevice")) },
            struct_impls_traits: vec![],
        }],
        return_type: None,
    }
}

#[test]
fn a_sound_analysis_is_generated_as_generate_does() {
    let mut c = ctx();
    c.items.base_types.push(bool32());
    c.items.enums.push(front_face(at_core()));
    c.items.commands.push((CommandName::new("vkDestroyDevice"), CommandItem::Command(destroy_device(at_core()))));
    assert!(check_items(&c));
    assert!(check_loader(&c));
    let checked = try_generate(&c).expect("the analysis can be generated");
    assert_eq!(checked.files, generate(&c).files);
}

#[test]
fn an_unknown_type_is_refused() {
    let mut c = ctx();
    c.items.base_types.push(BaseType { required_by: at_core(), name: TypeName::new("VkMissing"), ty: Ty::CPrimary(CPrimaryType::UInt32) });
    assert!(!check_items(&c));
    assert!(try_generate(&c).is_none());
    let mut d = ctx();
    let arr = Ty::Array(Box::new(Ty::CPrimary(CPrimaryType::UInt8)), ArrayLen::Constant(ConstantName::new("VK_A-B")));
    d.items.base_types.push(BaseType { required_by: at_core(), name: TypeName::new("VkBool32"), ty: arr });
    assert!(!check_items(&d));
    assert!(d.check_ty(&Ty::Ptr(Box::new(Ty::Platform("Display".to_owned())), Mutability::Not)));
    assert!(!d.check_ty(&Ty::Ptr(Box::new(Ty::Platform("not an ident".to_owned())), Mutability::Not)));
}

#[test]
fn an_item_without_a_place_is_refused() {
    let mut c = ctx();
    c.items.base_types.push(BaseType { required_by: nowhere(), name: TypeName::new("VkBool32"), ty: Ty::CPrimary(CPrimaryType::UInt32) });
    assert!(!check_items(&c));
    assert!(try_generate(&c).is_none());
}

#[test]
fn an_enumerator_in_a_malformed_extension_is_refused() {
    let mut c = ctx();
    c.items.enums.push(front_face(at_ext("VK_KHRnounderscore")));
    assert!(!c.items.enums[0].check(&c));
    assert!(try_generate(&c).is_none());
    let mut ok = ctx();
    ok.items.enums.push(front_face(at_ext("VK_KHR_fine")));
    assert!(ok.items.enums[0].check(&ok));
    assert!(try_generate(&ok).is_some());
}

#[test]
fn an_unknown_macro_in_a_constant_is_refused() {
    let mut c = ctx();
    c.items.constants.push((
        ConstantName::new("VK_X"),
        Constant {
            required_by: at_core(),
            name: ConstantName::new("VK_X"),
            ty: ConstantType::Integer(CPrimaryType::UInt32),
            value: vec![CExprItem::MacroCall { macro_name: CMacroName::new("VK_NOWHERE"), args: vec![] }],
        },
    ));
    assert!(!check_items(&c));
    assert!(try_generate(&c).is_none());
}

#[test]
fn bitmask_bits_must_be_known() {
    let mut c = ctx();
    let mask = |bits: &str| BitMask {
        required_by: at_core(),
        name: TypeName::new("VkCullModeFlags"),
        bitwidth: BitWidth::Bits32,
        bits_name: Some(TypeName::new(bits)),
        items: vec![(EnumeratorName::new("VK_CULL_MODE_FRONT_BIT"), BitItem { required_by: at_core(), value: BitValue::BitPos(0) })],
    };
    c.items.bitmasks.push(mask("VkCullModeFlagBits"));
    assert!(c.items.bitmasks[0].check(&c));
    c.items.bitmasks.push(mask("VkMissingFlagBits"));
    assert!(!c.items.bitmasks[1].check(&c));
    assert!(!check_items(&c));
}

#[test]
fn aliases_must_name_a_command() {
    let mut c = ctx();
    let alias = |target: &str| {
        CommandItem::Alias(CommandAlias { name: CommandName::new("vkDestroyDeviceKHR"), required_by: at_ext("VK_KHR_x"), alias: CommandName::new(target) })
    };
    c.items.commands.push((CommandName::new("vkDestroyDevice"), CommandItem::Command(destroy_device(at_core()))));
    c.items.commands.push((CommandName::new("vkDestroyDeviceKHR"), alias("vkDestroyDevice")));
    assert!(check_loader(&c));
    let mut bad = ctx();
    bad.items.commands.push((CommandName::new("vkDestroyDeviceKHR"), alias("vkDestroyDevice")));
    assert!(!check_loader(&bad));
    assert!(try_generate(&bad).is_none());
}

#[test]
fn commands_need_a_first_parameter() {
    let mut c = ctx();
    let mut cmd = destroy_device(at_core());
    cmd.params.clear();
    c.items.commands.push((CommandName::new("vkDestroyDevice"), CommandItem::Command(cmd)));
    assert!(!check_loader(&c));
    let mut unplaced = ctx();
    let mut cmd = destroy_device(nowhere());
    cmd.params.clear();
    unplaced.items.commands.push((CommandName::new("vkDestroyDevice"), CommandItem::Command(cmd)));
    assert!(check_loader(&unplaced));
}

#[test]
fn destinations_without_a_path_fail_the_layout() {
    let good = CodeMap::new(SingleDestination { library: LibraryName::Vk, location: RequireLocation::Core { major: 1, minor: 2 }, reexport: true }, "x".to_owned());
    assert!(check_layout(&good));
    let bad = CodeMap::new(
        SingleDestination { library: LibraryName::Video, location: RequireLocation::Extension { name: "h264".to_owned() }, reexport: true },
        "x".to_owned(),
    );
    assert!(!check_layout(&bad));
}

fn dest(location: RequireLocation, reexport: bool) -> SingleDestination {
    SingleDestination { library: LibraryName::Vk, location, reexport }
}

#[test]
fn the_tables_keep_the_code_already_there() {
    let mut c = ctx();
    c.items.commands.push((CommandName::new("vkDestroyDevice"), CommandItem::Command(destroy_device(at_core()))));
    let core = RequireLocation::Core { major: 1, minor: 0 };
    let mut m = CodeMap::new(dest(core.copy(), true), "pub type Bool32 = u32;".to_owned());
    m.insert(dest(RequireLocation::Extension { name: "VK_KHR_x".to_owned() }, false), "X".to_owned());
    ash_gen::loader::generate_code(&c, &mut m);
    let entries = m.iter();
    assert_eq!(entries.len(), 3);
    assert!(entries[0].0.same(&dest(core.copy(), true)));
    assert_eq!(entries[0].1, "pub type Bool32 = u32;");
    assert_eq!(entries[1].1, "X");
    assert!(entries[2].0.same(&dest(core, false)));
    assert!(entries[2].1.starts_with("#[derive(Clone)] pub struct DeviceFnV1_0 {"));
}

#[test]
fn the_items_keep_the_code_already_there() {
    let mut c = ctx();
    c.items.base_types.push(bool32());
    let core = RequireLocation::Core { major: 1, minor: 0 };
    let mut m = CodeMap::new(dest(core.copy(), true), "A".to_owned());
    ash_gen::item::generate_code(&c, &mut m);
    let entries = m.iter();
    assert_eq!(entries.len(), 1);
    assert_eq!(entries[0].1, "A pub type Bool32 = u32;");
}

#[test]
fn reading_results_retries_only_on_incomplete() {
    assert_eq!(read_step(Code(5)), None);
    assert_eq!(read_step(Code(0)), Some(Ok(())));
    assert_eq!(read_step(Code(-3)), Some(Err(Code(-3))));
    assert_eq!(read_step(Code(1)), Some(Err(Code(1))));
}
