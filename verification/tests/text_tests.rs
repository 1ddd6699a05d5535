use augmcp::text::{forward_slashes, to_hex, usize_to_string};

#[test]
fn decimal_rendering() {
    assert_eq!(usize_to_string(0), "0");
    assert_eq!(usize_to_string(7), "7");
    assert_eq!(usize_to_string(10), "10");
    assert_eq!(usize_to_string(1234), "1234");
    assert_eq!(usize_to_string(1000000), "1000000");
}

#[test]
fn hex_rendering_is_two_lowercase_digits_per_byte() {
    assert_eq!(to_hex(&vec![]), "");
    assert_eq!(to_hex(&vec![0x00, 0xff, 0x1a]), "00ff1a");
    assert_eq!(to_hex(&vec![0x0f]), "0f");
}

#[test]
fn backslashes_become_forward_slashes() {
    assert_eq!(forward_slashes("C:\\proj\\src"), "C:/proj/src");
    assert_eq!(forward_slashes("/already/fine"), "/already/fine");
    assert_eq!(forward_slashes(""), "");
}
