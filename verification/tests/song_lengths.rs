use ultimate64_manager::song_lengths::{read_song_length_line, song_length_lines};

fn chars(s: &str) -> Vec<char> {
    s.chars().collect()
}

#[test]
fn song_length_lines_keep_tunes_in_file_order() {
    let content = "; Songlengths\r\n[Database]\r\n\
        0123456789abcdef0123456789abcdef=3:25 1:02.500\r\n\
        # comment\n\
        fedcba9876543210fedcba9876543210 = 0:45\n\
        \n";
    let lines = song_length_lines(content);
    assert_eq!(lines.len(), 1);
    assert_eq!(lines[0].md5, "0123456789abcdef0123456789abcdef");
    assert_eq!(lines[0].times, vec!["3:25".to_string(), "1:02.500".to_string()]);
}

#[test]
fn song_length_line_needs_thirty_two_bytes_before_the_sign() {
    assert!(read_song_length_line(&chars("abc=1:00")).is_none());
    assert!(read_song_length_line(&chars("no sign here")).is_none());
    let l = read_song_length_line(&chars("  00000000000000000000000000000000=  1:00\t2:00  ")).unwrap();
    assert_eq!(l.md5, "00000000000000000000000000000000");
    assert_eq!(l.times, vec!["1:00".to_string(), "2:00".to_string()]);
}

#[test]
fn song_length_line_may_have_no_times() {
    let l = read_song_length_line(&chars("ffffffffffffffffffffffffffffffff=")).unwrap();
    assert!(l.times.is_empty());
}

#[test]
fn song_length_comments_and_sections_are_skipped() {
    assert!(read_song_length_line(&chars(";ffffffffffffffffffffffffffffffff=1:00")).is_none());
    assert!(read_song_length_line(&chars("[ffffffffffffffffffffffffffffffff=1:00")).is_none());
    assert!(read_song_length_line(&chars("   ")).is_none());
}
