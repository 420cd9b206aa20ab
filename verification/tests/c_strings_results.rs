use ash_gen::c_str::{CStrTooLargeForStaticArray, wrap_c_str_slice_until_nul, write_c_str_slice_with_nul};
use ash_gen::vk::Result as VkCode;

#[test]
fn a_string_is_written_with_its_nul() {
    let mut target = [1u8; 8];
    assert!(write_c_str_slice_with_nul(&mut target, b"abc\0").is_ok());
    assert_eq!(target, [b'a', b'b', b'c', 0, 1, 1, 1, 1]);
    let mut exact = [7u8; 3];
    assert!(write_c_str_slice_with_nul(&mut exact, b"ab\0").is_ok());
    assert_eq!(exact, [b'a', b'b', 0]);
}

#[test]
fn a_string_too_long_is_refused() {
    let mut target = [9u8; 3];
    match write_c_str_slice_with_nul(&mut target, b"abcd\0") {
        Err(CStrTooLargeForStaticArray { static_array_size, c_str_size }) => {
            assert_eq!(static_array_size, 3);
            assert_eq!(c_str_size, 5);
        },
        Ok(()) => panic!("expected the string to be refused"),
    }
    assert_eq!(target, [9, 9, 9]);
}

#[test]
fn the_error_describes_both_lengths() {
    let e = CStrTooLargeForStaticArray { static_array_size: 256, c_str_size: 300 };
    assert_eq!(
        e.message(),
        "static `c_char` target array of length `256` is too small to write a `CStr` (with `NUL`-terminator) of length `300`"
    );
}

#[test]
fn a_string_is_read_up_to_its_first_nul() {
    assert_eq!(wrap_c_str_slice_until_nul(b"ab\0cd\0"), Some(&b"ab\0"[..]));
    assert_eq!(wrap_c_str_slice_until_nul(b"\0"), Some(&b"\0"[..]));
    assert_eq!(wrap_c_str_slice_until_nul(b"abc"), None);
    assert_eq!(wrap_c_str_slice_until_nul(b""), None);
}

#[test]
fn a_written_string_reads_back() {
    for s in [&b"VK_KHR_surface\0"[..], &b"\0"[..], &b"x\0"[..]] {
        let mut target = [0xffu8; 16];
        assert!(write_c_str_slice_with_nul(&mut target, s).is_ok());
        assert_eq!(wrap_c_str_slice_until_nul(&target), Some(s));
    }
}

#[test]
fn success_gives_the_value() {
    assert_eq!(VkCode::success(), VkCode(0));
    assert_eq!(VkCode::incomplete(), VkCode(5));
    assert_eq!(VkCode(0).result(), Ok(()));
    assert_eq!(VkCode(0).result_with_success(42), Ok(42));
}

#[test]
fn other_codes_are_errors() {
    assert_eq!(VkCode(5).result(), Err(VkCode(5)));
    assert_eq!(VkCode(-1).result(), Err(VkCode(-1)));
    assert_eq!(VkCode(-4).result_with_success("v"), Err(VkCode(-4)));
}
