use ash_gen::output::{CodeMap, SingleDestination};
use ash_gen::require::{LibraryName, RequireLocation};
use ash_gen::vfs::VirtualRustFs;
use ash_gen::text::is_blank;

fn core_at(major: u32, minor: u32) -> RequireLocation {
    RequireLocation::Core { major, minor }
}

fn ext(name: &str) -> RequireLocation {
    RequireLocation::Extension { name: name.to_owned() }
}

fn single(library: LibraryName, location: RequireLocation, reexport: bool) -> SingleDestination {
    SingleDestination { library, location, reexport }
}

fn lit(s: &str) -> String {
    proc_macro2::Literal::string(s).to_string()
}

fn file<'a>(fs: &'a VirtualRustFs, path: &str) -> &'a str {
    fs.files.iter().find(|(p, _)| p == path).map(|(_, c)| c.as_str()).unwrap_or_else(|| panic!("no file {path}"))
}

const VK_TAIL: &str = "pub use crate::Handle; pub use crate::TaggedStructure; pub use crate::Extends; pub use crate::platform_types::*;";

#[test]
fn writing_twice_appends() {
    let mut fs = VirtualRustFs::new();
    fs.write("a.rs", "x");
    fs.write("b.rs", "y");
    fs.write("a.rs", "z");
    assert_eq!(fs.files, vec![("a.rs".to_owned(), "x z".to_owned()), ("b.rs".to_owned(), "y".to_owned())]);
}

#[test]
fn written_paths_stay_unique() {
    let mut fs = VirtualRustFs::new();
    for p in ["a", "b", "a", "c", "b", "a"] {
        fs.write(p, p);
    }
    let paths: Vec<&str> = fs.files.iter().map(|(p, _)| p.as_str()).collect();
    assert_eq!(paths, vec!["a", "b", "c"]);
    assert_eq!(file(&fs, "a"), "a a a");
}

#[test]
fn one_core_item_is_laid_out() {
    let m = CodeMap::new(single(LibraryName::Vk, core_at(1, 0), true), "pub const A: u32 = 1;".to_owned());
    let fs = m.write();
    let paths: Vec<&str> = fs.files.iter().map(|(p, _)| p.as_str()).collect();
    assert_eq!(paths, vec!["mod.rs", "vk.rs", "vk1_0.rs"]);
    assert_eq!(file(&fs, "mod.rs"), "#[doc = \" A re-export of all items\"] pub mod vk;  pub mod vk1_0;");
    assert_eq!(file(&fs, "vk.rs"), format!("pub use super::vk1_0::*; {VK_TAIL}"));
    let doc = "[Vulkan Manual Page](https://docs.vulkan.org/refpages/latest/refpages/source/VK_VERSION_1_0.html) \u{b7} Vulkan version 1.0";
    assert_eq!(file(&fs, "vk1_0.rs"), format!("#![doc = {}]   pub const A: u32 = 1;", lit(doc)));
}

#[test]
fn code_that_is_not_reexported_puts_the_rest_in_a_module() {
    let mut m = CodeMap::new(single(LibraryName::Vk, ext("VK_KHR_surface"), false), "X".to_owned());
    m.insert(single(LibraryName::Vk, ext("VK_KHR_surface"), true), "Y".to_owned());
    let fs = m.write();
    let paths: Vec<&str> = fs.files.iter().map(|(p, _)| p.as_str()).collect();
    assert_eq!(paths, vec!["mod.rs", "vk.rs", "khr/surface.rs", "khr/mod.rs"]);
    assert_eq!(file(&fs, "mod.rs"), "#[doc = \" A re-export of all items\"] pub mod vk;  pub mod khr;");
    assert_eq!(file(&fs, "khr/mod.rs"), format!("#![doc = {}] pub mod surface;", lit("Extensions tagged KHR")));
    assert_eq!(file(&fs, "vk.rs"), format!("pub use super::khr::surface::reexport::*; {VK_TAIL}"));
    let doc = "[Vulkan Manual Page](https://docs.vulkan.org/refpages/latest/refpages/source/VK_KHR_surface.html) \u{b7} Extension `VK_KHR_surface`";
    assert_eq!(
        file(&fs, "khr/surface.rs"),
        format!("#![doc = {}]  X pub(crate) mod reexport {{  Y }} pub use reexport::*;", lit(doc))
    );
}

#[test]
fn code_that_is_never_reexported_is_not_in_vk_rs() {
    let m = CodeMap::new(single(LibraryName::Vk, core_at(1, 1), false), "T".to_owned());
    let fs = m.write();
    assert_eq!(file(&fs, "vk.rs"), VK_TAIL);
    let doc = "[Vulkan Manual Page](https://docs.vulkan.org/refpages/latest/refpages/source/VK_VERSION_1_1.html) \u{b7} Vulkan version 1.1";
    assert_eq!(file(&fs, "vk1_1.rs"), format!("#![doc = {}]  T ", lit(doc)));
}

#[test]
fn every_module_is_declared_once() {
    let mut m = CodeMap::new(single(LibraryName::Vk, ext("VK_KHR_surface"), true), "A".to_owned());
    m.insert(single(LibraryName::Vk, core_at(1, 0), true), "B".to_owned());
    m.insert(single(LibraryName::Vk, ext("VK_KHR_swapchain"), true), "C".to_owned());
    m.insert(single(LibraryName::Video, ext("vulkan_video_codec_h264std"), true), "D".to_owned());
    let fs = m.write();
    let top = file(&fs, "mod.rs");
    for module in ["vk1_0", "khr", "video"] {
        assert_eq!(top.matches(&format!("pub mod {module};")).count(), 1, "{module} in {top}");
    }
    let khr = file(&fs, "khr/mod.rs");
    assert_eq!(khr.matches("pub mod surface;").count(), 1);
    assert_eq!(khr.matches("pub mod swapchain;").count(), 1);
    assert_eq!(file(&fs, "video/mod.rs"), format!("#![doc = {}] pub mod codec_h264std;", lit("Vulkan Video")));
    let paths: Vec<&str> = fs.files.iter().map(|(p, _)| p.as_str()).collect();
    for (i, p) in paths.iter().enumerate() {
        assert!(!paths[i + 1..].contains(p));
    }
    let vk = file(&fs, "vk.rs");
    assert!(vk.contains("pub use super::khr::surface::*;"));
    assert!(vk.contains("pub use super::vk1_0::*;"));
    assert!(vk.contains("pub use super::video::codec_h264std::*;"));
    assert!(vk.ends_with(VK_TAIL));
}

#[test]
fn empty_reexported_code_adds_no_reexport() {
    let mut m = CodeMap::new(single(LibraryName::Vk, core_at(1, 0), false), "X".to_owned());
    m.insert(single(LibraryName::Vk, core_at(1, 0), true), "".to_owned());
    let fs = m.write();
    assert_eq!(file(&fs, "vk.rs"), VK_TAIL);
    let doc = "[Vulkan Manual Page](https://docs.vulkan.org/refpages/latest/refpages/source/VK_VERSION_1_0.html) \u{b7} Vulkan version 1.0";
    let text = file(&fs, "vk1_0.rs");
    assert_eq!(text, format!("#![doc = {}]  X  ", lit(doc)));
    assert!(!text.contains("reexport"));
}

#[test]
fn empty_own_code_keeps_the_reexports_at_top_level() {
    let mut m = CodeMap::new(single(LibraryName::Vk, core_at(1, 0), true), "Y".to_owned());
    m.insert(single(LibraryName::Vk, core_at(1, 0), false), " \n".to_owned());
    let fs = m.write();
    assert_eq!(file(&fs, "vk.rs"), format!("pub use super::vk1_0::*; {VK_TAIL}"));
    assert!(!file(&fs, "vk1_0.rs").contains("mod reexport"));
}

#[test]
fn blank_text_holds_no_code() {
    assert!(is_blank(""));
    assert!(is_blank(" \t\n\r\u{a0}\u{200e}\u{3000}"));
    assert!(!is_blank(" x "));
    assert!(!is_blank("_"));
}
