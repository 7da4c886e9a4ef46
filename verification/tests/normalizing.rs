use identity_search::fields::FieldName;
use identity_search::normalize::normalize_value;

#[test]
fn normalized_identity_value_is_unchanged() {
    assert_eq!(normalize_value(FieldName::Mobile, "9876543210"), "9876543210");
}

#[test]
fn identity_value_loses_whitespace() {
    assert_eq!(normalize_value(FieldName::Mobile, "98 76 54 3210"), "9876543210");
    assert_eq!(normalize_value(FieldName::Alt, "\t98 76\n"), "9876");
}

#[test]
fn identity_value_is_lowercased() {
    assert_eq!(normalize_value(FieldName::MasterId, "AB 12 cd"), "ab12cd");
}

#[test]
fn text_value_keeps_whitespace() {
    assert_eq!(normalize_value(FieldName::Name, "John  Smith"), "john  smith");
    assert_eq!(normalize_value(FieldName::Address, "12 Main Street"), "12 main street");
}

#[test]
fn normalize_twice_is_normalize_once() {
    for field in [
        FieldName::MasterId,
        FieldName::Mobile,
        FieldName::Alt,
        FieldName::Name,
        FieldName::Fname,
        FieldName::Address,
        FieldName::Email,
    ] {
        for value in ["98 76 54 3210", "John  SMITH", "", "  x Y z  ", "\u{c9}L\u{c8}NE", "1\u{a0}2"] {
            let once = normalize_value(field, value);
            let twice = normalize_value(field, once.as_str());
            assert_eq!(twice, once);
        }
    }
}

#[test]
fn non_ascii_letters_fold() {
    assert_eq!(normalize_value(FieldName::Name, "J\u{00d6}RG"), "j\u{00f6}rg");
    assert_eq!(normalize_value(FieldName::Name, "\u{c9}"), "\u{e9}");
}

#[test]
fn all_unicode_whitespace_is_stripped() {
    assert_eq!(normalize_value(FieldName::Mobile, "1\u{0b}2"), "12");
    assert_eq!(normalize_value(FieldName::Mobile, "1\u{a0}2\u{2003}3"), "123");
}
