use ultimate64_manager::petscii::{byte_to_char, convert_mixed_text, convert_text_file, to_string};

#[test]
fn test_byte_to_char_uppercase() {
    assert_eq!(byte_to_char(0x41), 'A');
    assert_eq!(byte_to_char(0x5A), 'Z');
}

#[test]
fn test_byte_to_char_numbers() {
    assert_eq!(byte_to_char(0x30), '0');
    assert_eq!(byte_to_char(0x39), '9');
}

#[test]
fn test_byte_to_char_space() {
    assert_eq!(byte_to_char(0x20), ' ');
    assert_eq!(byte_to_char(0xA0), ' ');
}

#[test]
fn test_to_string_with_padding() {
    let bytes = [0x54, 0x45, 0x53, 0x54, 0xA0, 0xA0, 0xA0];
    assert_eq!(to_string(&bytes), "TEST");
}

#[test]
fn test_convert_text_file_linebreak() {
    let bytes = [0x48, 0x49, 0x0D, 0x42, 0x59, 0x45];
    let result = convert_text_file(&bytes);
    assert!(result.contains('\n'));
}

#[test]
fn convert_text_file_keeps_the_letters_around_the_break() {
    let bytes = [0x48, 0x49, 0x0D, 0x42, 0x59, 0x45];
    assert_eq!(convert_text_file(&bytes), "HI\nBYE");
}

#[test]
fn convert_mixed_text_reads_the_bytes_of_a_string() {
    assert_eq!(convert_mixed_text("HI"), convert_text_file(b"HI"));
}
