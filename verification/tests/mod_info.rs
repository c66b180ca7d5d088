use ultimate64_manager::mod_info::{checked_author, detect_channels, extract_author, parse_mod, read_string};

#[test]
fn test_read_string() {
    let data = b"Hello World\0\0\0\0\0";
    assert_eq!(read_string(data), "Hello World");
}

#[test]
fn test_extract_author() {
    assert_eq!(extract_author("Cool Song by Jochen"), Some("Jochen".to_string()));
    assert_eq!(extract_author("mysong / Purple Motion"), Some("Purple Motion".to_string()));
    assert_eq!(extract_author("test - Skaven"), Some("Skaven".to_string()));
    assert_eq!(extract_author("(Lizardking)"), Some("Lizardking".to_string()));
}

#[test]
fn test_detect_channels() {
    assert_eq!(detect_channels(b"M.K."), 4);
    assert_eq!(detect_channels(b"8CHN"), 8);
    assert_eq!(detect_channels(b"6CHN"), 6);
}

#[test]
fn read_string_drops_unprintable_bytes_and_trims() {
    assert_eq!(read_string(b"  ab\x01c \0zz"), "abc");
    assert_eq!(read_string(b"\0abc"), "");
}

#[test]
fn detect_channels_reads_the_other_signatures() {
    assert_eq!(detect_channels(b"CD81"), 1);
    assert_eq!(detect_channels(b"TDZ2"), 2);
    assert_eq!(detect_channels(b"TDZ3"), 3);
    assert_eq!(detect_channels(b"FLT8"), 8);
    assert_eq!(detect_channels(b"12CH"), 12);
    assert_eq!(detect_channels(b"????"), 4);
}

#[test]
fn extract_author_without_a_marker_is_none() {
    assert_eq!(extract_author("just a sample"), None);
}

#[test]
fn parse_mod_rejects_short_files() {
    let data = vec![0u8; 1083];
    let err = parse_mod(&data).unwrap_err();
    assert_eq!(err, "File too small to be a valid MOD");
}

#[test]
fn parse_mod_reads_name_and_minimum_duration() {
    let mut data = vec![0u8; 1084];
    data[..8].copy_from_slice(b"TESTSONG");
    data[1080..1084].copy_from_slice(b"M.K.");
    let info = parse_mod(&data).unwrap();
    assert_eq!(info.name, "TESTSONG");
    assert_eq!(info.author, None);
    assert_eq!(info.duration_seconds, 1);
}

#[test]
fn parenthesised_author_counts_bytes() {
    assert_eq!(extract_author("song (é)"), Some("é".to_string()));
    assert_eq!(extract_author("song (a)"), None);
}

#[test]
fn by_pattern_cuts_at_the_lowercased_byte_offset() {
    assert_eq!(extract_author("Tune BY Jester"), Some("Jester".to_string()));
    // 'İ' lowercases to two characters, three bytes: the cut moves one byte on.
    assert_eq!(extract_author("İ by Abc"), Some("bc".to_string()));
    assert_eq!(checked_author("İ by Abc"), Some(Some("bc".to_string())));
    assert_eq!(checked_author("İ by Ab"), Some(None));
    // There the cut falls inside 'é'.
    assert_eq!(checked_author("İ by éa"), None);
}
