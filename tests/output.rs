use cmd_utils::output::{output_text, output_text_strict};

#[test]
fn output_is_trimmed() {
    assert_eq!(output_text(b"hello\n"), "hello");
    assert_eq!(output_text(b"  a\nb \t\n"), "a\nb");
    assert_eq!(output_text(b""), "");
}

#[test]
fn invalid_bytes_are_replaced() {
    assert_eq!(output_text(b"ok\xff\n"), "ok\u{fffd}");
}

#[test]
fn strict_decoding_rejects_invalid_bytes() {
    assert_eq!(output_text_strict(b"ok\xff"), None);
    assert_eq!(output_text_strict(b" ok \n"), Some(String::from("ok")));
}
