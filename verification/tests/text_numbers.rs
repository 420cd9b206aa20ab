use ash_gen::c_str::usize_to_string;
use ash_gen::decimal::parse_usize;
use ash_gen::text::{
    find_char, i32_to_string, join_strings, push_str, remove_prefix, replace, split_once, starts_with, str_eq, strip_prefix,
    to_ascii_lowercase, u128_to_string, u32_to_string,
};

#[test]
fn unsigned_numbers_are_read_as_std_reads_them() {
    let inputs = [
        "0", "7", "42", "+7", "007", "", "+", "-1", "4a", " 4", "4 ", "++4", "18446744073709551615", "18446744073709551616",
        "4294967295", "4294967296", "99999999999999999999999",
    ];
    for s in inputs {
        assert_eq!(parse_usize(s), s.parse::<usize>().ok(), "input {:?}", s);
    }
}

#[test]
fn unsigned_numbers_exact_values() {
    assert_eq!(parse_usize("42"), Some(42));
    assert_eq!(parse_usize("+7"), Some(7));
    assert_eq!(parse_usize("000"), Some(0));
    assert_eq!(parse_usize(""), None);
    assert_eq!(parse_usize("+"), None);
    assert_eq!(parse_usize("-3"), None);
    assert_eq!(parse_usize("1_000"), None);
}

#[test]
fn decimal_text_reads_back() {
    for n in [0usize, 1, 9, 10, 11, 99, 100, 12345, 4294967295, usize::MAX] {
        let text = usize_to_string(n);
        assert_eq!(text, n.to_string());
        assert_eq!(parse_usize(&text), Some(n));
    }
}

#[test]
fn decimal_text_of_each_width() {
    assert_eq!(u32_to_string(0), "0");
    assert_eq!(u32_to_string(305), "305");
    assert_eq!(u32_to_string(u32::MAX), "4294967295");
    assert_eq!(u128_to_string(0), "0");
    assert_eq!(u128_to_string(u128::MAX), u128::MAX.to_string());
    assert_eq!(i32_to_string(0), "0");
    assert_eq!(i32_to_string(-1), "-1");
    assert_eq!(i32_to_string(1000011000), "1000011000");
    assert_eq!(i32_to_string(i32::MIN), "-2147483648");
    assert_eq!(i32_to_string(i32::MAX), "2147483647");
}

#[test]
fn string_comparisons_and_prefixes() {
    assert!(str_eq("abc", "abc"));
    assert!(!str_eq("abc", "abd"));
    assert!(!str_eq("abc", "ab"));
    assert!(starts_with("VK_KHR_surface", "VK_"));
    assert!(!starts_with("VK", "VK_"));
    assert!(starts_with("x", ""));
    assert_eq!(strip_prefix("VK_KHR_surface", "VK_"), Some("KHR_surface"));
    assert_eq!(strip_prefix("vulkan", "VK_"), None);
    assert_eq!(remove_prefix("VkInstance", "Vk"), "Instance");
    assert_eq!(remove_prefix("Instance", "Vk"), "Instance");
}

#[test]
fn finding_and_splitting_at_a_character() {
    assert_eq!(find_char("KHR_surface_x", '_'), Some(3));
    assert_eq!(find_char("surface", '_'), None);
    assert_eq!(split_once("KHR_get_surface", '_'), Some(("KHR", "get_surface")));
    assert_eq!(split_once("_x", '_'), Some(("", "x")));
    assert_eq!(split_once("KHR", '_'), None);
}

#[test]
fn lower_case_joining_and_replacing() {
    assert_eq!(to_ascii_lowercase("KHR_Surface2"), "khr_surface2");
    assert_eq!(to_ascii_lowercase("ÄB"), "Äb");
    let parts = vec!["vk1_0".to_owned(), "khr".to_owned(), "surface".to_owned()];
    assert_eq!(join_strings(&parts, "::"), "vk1_0::khr::surface");
    assert_eq!(join_strings(&vec![], "::"), "");
    assert_eq!(join_strings(&vec!["one".to_owned()], "/"), "one");
    assert_eq!(replace("CullModeFlagBits", "FlagBits", "Flags"), "CullModeFlags");
    assert_eq!(replace("aXbXc", "X", ""), "abc");
    assert_eq!(replace("aaa", "aa", "b"), "ba");
    let mut s = "pub ".to_owned();
    push_str(&mut s, "fn");
    assert_eq!(s, "pub fn");
}
