use ash_gen::output::{CodeMap, Destination, SingleDestination};
use ash_gen::require::{LibraryName, RequireLocation, RequiredBy};

fn core_at(major: u32, minor: u32) -> RequireLocation {
    RequireLocation::Core { major, minor }
}

fn ext(name: &str) -> RequireLocation {
    RequireLocation::Extension { name: name.to_owned() }
}

fn single(library: LibraryName, location: RequireLocation, reexport: bool) -> SingleDestination {
    SingleDestination { library, location, reexport }
}

fn names_of(dests: &[SingleDestination]) -> Vec<String> {
    dests
        .iter()
        .map(|d| match &d.location {
            RequireLocation::Core { major, minor } => format!("{major}.{minor}"),
            RequireLocation::Extension { name } => name.clone(),
        })
        .collect()
}

#[test]
fn a_destination_is_reexported_by_default() {
    let rb = RequiredBy { library: LibraryName::Vk, locations: vec![core_at(1, 1), ext("VK_KHR_surface")] };
    let d = Destination::new(rb);
    assert!(d.reexport);
    assert_eq!(d.library, LibraryName::Vk);
    assert_eq!(d.locations.len(), 2);
}

#[test]
fn single_destinations_follow_the_locations() {
    let rb = RequiredBy { library: LibraryName::Vk, locations: vec![core_at(1, 1), ext("VK_KHR_surface"), ext("VK_EXT_debug_utils")] };
    let mut d = Destination::new(rb);
    d.reexport = false;
    let singles = d.single_dests();
    assert_eq!(names_of(&singles), vec!["1.1", "VK_KHR_surface", "VK_EXT_debug_utils"]);
    assert!(singles.iter().all(|s| !s.reexport && s.library == LibraryName::Vk));
    let empty = Destination { library: LibraryName::Video, locations: vec![], reexport: true };
    assert!(empty.single_dests().is_empty());
}

#[test]
fn the_primary_destination_is_the_first() {
    let d = Destination { library: LibraryName::Vk, locations: vec![ext("VK_KHR_swapchain"), core_at(1, 1)], reexport: true };
    let p = d.guess_primary();
    assert!(p.same(&single(LibraryName::Vk, ext("VK_KHR_swapchain"), true)));
    assert!(p.same(&d.single_dests()[0]));
}

#[test]
fn core_versions_are_one_module() {
    let d = single(LibraryName::Vk, core_at(1, 3), true);
    let comps = d.path_components();
    assert_eq!(comps.len(), 1);
    assert_eq!(comps[0].module_name, "vk1_3");
    assert_eq!(
        comps[0].doc_comment,
        "[Vulkan Manual Page](https://docs.vulkan.org/refpages/latest/refpages/source/VK_VERSION_1_3.html) \u{b7} Vulkan version 1.3"
    );
}

#[test]
fn extensions_are_two_modules() {
    let d = single(LibraryName::Vk, ext("VK_KHR_get_surface_capabilities2"), true);
    let comps = d.path_components();
    assert_eq!(comps.len(), 2);
    assert_eq!(comps[0].module_name, "khr");
    assert_eq!(comps[0].doc_comment, "Extensions tagged KHR");
    assert_eq!(comps[1].module_name, "get_surface_capabilities2");
    assert_eq!(
        comps[1].doc_comment,
        "[Vulkan Manual Page](https://docs.vulkan.org/refpages/latest/refpages/source/VK_KHR_get_surface_capabilities2.html) \u{b7} Extension `VK_KHR_get_surface_capabilities2`"
    );
}

#[test]
fn video_items_are_two_modules() {
    let d = single(LibraryName::Video, ext("vulkan_video_codec_h264std"), true);
    let comps = d.path_components();
    assert_eq!(comps.len(), 2);
    assert_eq!(comps[0].module_name, "video");
    assert_eq!(comps[0].doc_comment, "Vulkan Video");
    assert_eq!(comps[1].module_name, "codec_h264std");
    assert_eq!(comps[1].doc_comment, "Items provided by `vulkan_video_codec_h264std`");
}

#[test]
fn doc_links_name_the_module_path() {
    assert_eq!(single(LibraryName::Vk, core_at(1, 0), true).doc_link(), "Provided by [`vk1_0`](crate::vk1_0)");
    assert_eq!(
        single(LibraryName::Vk, ext("VK_KHR_surface"), false).doc_link(),
        "Provided by [`khr::surface`](crate::khr::surface)"
    );
    assert_eq!(
        single(LibraryName::Video, ext("vulkan_video_codec_h265std"), true).doc_link(),
        "Provided by [`video::codec_h265std`](crate::video::codec_h265std)"
    );
}

#[test]
fn malformed_extension_names_have_no_path() {
    assert_eq!(single(LibraryName::Vk, ext("VK_KHRsurface"), true).try_doc_link(), None);
    assert_eq!(single(LibraryName::Vk, ext("KHR_surface"), true).try_doc_link(), None);
    assert_eq!(single(LibraryName::Video, ext("codec_h264std"), true).try_doc_link(), None);
    assert!(!single(LibraryName::Vk, ext("VK_KHRsurface"), true).check_path());
    assert!(single(LibraryName::Vk, ext("VK_KHR_surface"), true).check_path());
    assert_eq!(
        single(LibraryName::Vk, ext("VK_EXT_debug_utils"), true).try_doc_link(),
        Some("Provided by [`ext::debug_utils`](crate::ext::debug_utils)".to_owned())
    );
}

#[test]
fn code_at_one_destination_is_appended() {
    let a = single(LibraryName::Vk, core_at(1, 0), true);
    let mut m = CodeMap::new(a.copy(), "pub const A: u32 = 1;".to_owned());
    m.insert(single(LibraryName::Vk, ext("VK_KHR_surface"), true), "pub const B: u32 = 2;".to_owned());
    m.insert(a.copy(), "pub const C: u32 = 3;".to_owned());
    let entries = m.iter();
    assert_eq!(entries.len(), 2);
    assert!(entries[0].0.same(&a));
    assert_eq!(entries[0].1, "pub const A: u32 = 1; pub const C: u32 = 3;");
    assert_eq!(entries[1].1, "pub const B: u32 = 2;");
}

#[test]
fn extending_keeps_each_destination_once() {
    let a = single(LibraryName::Vk, core_at(1, 0), true);
    let b = single(LibraryName::Vk, core_at(1, 0), false);
    let mut m = CodeMap::new(a.copy(), "x".to_owned());
    let mut other = CodeMap::new(b.copy(), "y".to_owned());
    other.insert(a.copy(), "z".to_owned());
    other.insert(b.copy(), "w".to_owned());
    m.extend(other);
    let entries = m.iter();
    assert_eq!(entries.len(), 2);
    assert!(entries[0].0.same(&a));
    assert_eq!(entries[0].1, "x z");
    assert!(entries[1].0.same(&b));
    assert_eq!(entries[1].1, "y w");
    for i in 0..entries.len() {
        for j in (i + 1)..entries.len() {
            assert!(!entries[i].0.same(&entries[j].0));
        }
    }
}

#[test]
fn a_map_from_the_primary_destination() {
    let d = Destination { library: LibraryName::Vk, locations: vec![core_at(1, 2), ext("VK_KHR_x")], reexport: true };
    let m = CodeMap::new_from_primary(d, "code".to_owned());
    let entries = m.iter();
    assert_eq!(entries.len(), 1);
    assert!(entries[0].0.same(&single(LibraryName::Vk, core_at(1, 2), true)));
    assert!(CodeMap::empty().iter().is_empty());
}
