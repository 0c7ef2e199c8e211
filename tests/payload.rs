use op_return_scan::{extract_op_return_data, is_marker_script};

fn pair(a: &str, b: &str) -> (String, String) {
    (a.to_string(), b.to_string())
}

#[test]
fn decodes_hex_payload_to_text() {
    let r = extract_op_return_data("OP_RETURN OP_PUSHBYTES_4 74657374");
    assert_eq!(r, pair("74657374", "test"));
    assert_eq!(r.1.chars().count(), 4);
    assert_eq!(r.0.len(), 8);
}

#[test]
fn invalid_hex_gives_placeholder() {
    let r = extract_op_return_data("OP_RETURN OP_PUSHBYTES_2 zz");
    assert_eq!(r, pair("zz", "Invalid hex data"));
}

#[test]
fn lone_marker_has_no_data() {
    assert_eq!(extract_op_return_data("OP_RETURN"), pair("No data found", ""));
}

#[test]
fn empty_script_has_no_data() {
    assert_eq!(extract_op_return_data(""), pair("No data found", ""));
    assert_eq!(extract_op_return_data("   "), pair("No data found", ""));
}

#[test]
fn odd_length_hex_is_invalid() {
    assert_eq!(extract_op_return_data("OP_RETURN abc"), pair("abc", "Invalid hex data"));
}

#[test]
fn upper_case_hex_decodes() {
    assert_eq!(extract_op_return_data("OP_RETURN 4869214A"), pair("4869214A", "Hi!J"));
}

#[test]
fn trailing_whitespace_is_not_a_token() {
    assert_eq!(extract_op_return_data("OP_RETURN\t6869  \n"), pair("6869", "hi"));
}

#[test]
fn invalid_utf8_is_replaced() {
    assert_eq!(extract_op_return_data("OP_RETURN 41ff42"), pair("41ff42", "A\u{FFFD}B"));
}

#[test]
fn marker_prefix_is_recognised() {
    assert!(is_marker_script("OP_RETURN OP_PUSHBYTES_4 74657374"));
    assert!(is_marker_script("OP_RETURN"));
    assert!(!is_marker_script("OP_DUP OP_HASH160 OP_RETURN"));
    assert!(!is_marker_script("OP_RETUR"));
    assert!(!is_marker_script(""));
}
