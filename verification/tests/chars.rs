use accepted::char_class::{is_control, is_whitespace};

#[test]
fn whitespace_agrees_with_std_on_every_char() {
    for v in 0u32..=0x10ffff {
        if let Some(c) = char::from_u32(v) {
            assert_eq!(is_whitespace(c), c.is_whitespace(), "U+{:04X}", v);
        }
    }
}

#[test]
fn control_agrees_with_std_on_every_char() {
    for v in 0u32..=0x10ffff {
        if let Some(c) = char::from_u32(v) {
            assert_eq!(is_control(c), c.is_control(), "U+{:04X}", v);
        }
    }
}
