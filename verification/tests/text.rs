use leek::text::{bytes_precede, extension, same_text};

#[test]
fn bytes_precede_is_lexicographic() {
    assert!(bytes_precede(b"", b""));
    assert!(bytes_precede(b"", b"a"));
    assert!(!bytes_precede(b"a", b""));
    assert!(bytes_precede(b"abc", b"abd"));
    assert!(!bytes_precede(b"abd", b"abc"));
    assert!(bytes_precede(b"ab", b"abc"));
    assert!(!bytes_precede(b"abc", b"ab"));
    assert!(bytes_precede(b"abc", b"abc"));
    assert!(bytes_precede(b"Z", b"a"));
    assert!(bytes_precede(&[0x7f], &[0x80]));
    assert!(!bytes_precede(&[0xff], &[0x00, 0x01]));
}

#[test]
fn same_text_compares_characters() {
    assert!(same_text("", ""));
    assert!(same_text("mp3", "mp3"));
    assert!(!same_text("mp3", "MP3"));
    assert!(!same_text("mp3", "mp"));
    assert!(!same_text("mp", "mp3"));
    assert!(same_text("\u{e9}", "\u{e9}"));
    assert!(!same_text("\u{e9}", "e"));
}

#[test]
fn extension_is_what_follows_the_last_dot() {
    assert_eq!(extension("song.mp3"), Some("mp3"));
    assert_eq!(extension("a.b.c"), Some("c"));
    assert_eq!(extension("song."), Some(""));
    assert_eq!(extension(".hidden.wav"), Some("wav"));
    assert_eq!(extension("\u{e9}t\u{e9}.\u{e9}"), Some("\u{e9}"));
}

#[test]
fn extension_is_missing_without_a_dot_behind_the_first_character() {
    assert_eq!(extension("song"), None);
    assert_eq!(extension(".bashrc"), None);
    assert_eq!(extension(""), None);
    assert_eq!(extension("."), None);
}
