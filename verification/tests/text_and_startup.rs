use rhesis::startup::{fallback_style, language_tool_port, logo_path, namespace, replace_dots, root_qml_url};
use rhesis::text::{is_blank, join_with_semicolon, push_int, white_space};

#[test]
fn blank_texts_are_white_space_only() {
    assert!(is_blank(""));
    assert!(is_blank(" \t\n\r"));
    assert!(is_blank("\u{3000}\u{a0}\u{2028}"));
    assert!(!is_blank(" a "));
    assert!(!is_blank("\u{200b}"));
}

#[test]
fn white_space_follows_char_is_whitespace() {
    for code in 0u32..0x3100 {
        if let Some(c) = char::from_u32(code) {
            assert_eq!(white_space(c), c.is_whitespace(), "code point {:#x}", code);
        }
    }
}

#[test]
fn decimal_text_of_integers() {
    for n in [0i64, 7, 10, 1234, -1, -2147483648, i64::MAX, i64::MIN] {
        let mut s = String::from("x");
        push_int(&mut s, n);
        assert_eq!(s, format!("x{}", n));
    }
}

#[test]
fn join_puts_semicolons_between() {
    assert_eq!(join_with_semicolon(&vec![]), "");
    assert_eq!(join_with_semicolon(&vec!["a".to_string()]), "a");
    assert_eq!(
        join_with_semicolon(&vec!["a".to_string(), "".to_string(), "bc".to_string()]),
        "a;;bc"
    );
}

#[test]
fn root_qml_url_of_the_namespace() {
    assert_eq!(
        root_qml_url(namespace()),
        "qrc:/qt/qml/org/dimkar/rhesis/src/interop/qml/Root.qml"
    );
}

#[test]
fn dots_become_slashes() {
    assert_eq!(replace_dots("a.b..c"), "a/b//c");
    assert_eq!(replace_dots("é.ü"), "é/ü");
    assert_eq!(replace_dots(""), "");
}

#[test]
fn startup_constants() {
    assert_eq!(logo_path(), "logo.png");
    assert_eq!(language_tool_port(), "2699");
    assert_eq!(fallback_style(false), Some("org.kde.desktop"));
    assert_eq!(fallback_style(true), None);
}
