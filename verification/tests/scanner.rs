use leek::scanner::{
    audio_files, classify, has_audio_extension, has_audio_name, scan, BrowserItem, Entry, FileType,
};

fn entry(name: &str, is_dir: bool) -> Entry {
    Entry { path: format!("/music/{}", name), name: name.to_string(), is_dir }
}

fn names(items: &Vec<BrowserItem>) -> Vec<String> {
    items.iter().map(|i| i.name.clone()).collect()
}

#[test]
fn scan_puts_directories_first_and_ignores_case() {
    let entries = vec![entry("b.mp3", false), entry("A.mp3", false), entry("sub", true)];
    let items = scan(&entries);
    assert_eq!(names(&items), vec!["sub", "A.mp3", "b.mp3"]);
    assert_eq!(items[0].file_type, FileType::Directory);
    assert_eq!(items[1].file_type, FileType::AudioFile);
    assert_eq!(items[2].file_type, FileType::AudioFile);
    assert_eq!(items[0].path, "/music/sub");
    assert_eq!(items[1].path, "/music/A.mp3");
}

#[test]
fn scan_orders_by_lower_case_not_by_raw_bytes() {
    let entries = vec![entry("Zulu.ogg", false), entry("alpha.ogg", false), entry("Mike", true), entry("bravo", true)];
    let items = scan(&entries);
    assert_eq!(names(&items), vec!["bravo", "Mike", "alpha.ogg", "Zulu.ogg"]);
}

#[test]
fn scan_drops_what_is_neither_directory_nor_audio() {
    let entries = vec![
        entry("cover.jpg", false),
        entry("notes", false),
        entry("track.flac", false),
        entry(".mp3", false),
        entry("README.md", false),
    ];
    let items = scan(&entries);
    assert_eq!(names(&items), vec!["track.flac"]);
    assert!(items.iter().all(|i| i.file_type != FileType::Other));
}

#[test]
fn scan_keeps_the_read_order_of_names_that_differ_only_in_case() {
    let first = vec![entry("a.mp3", false), entry("A.mp3", false), entry("A.MP3", false)];
    assert_eq!(names(&scan(&first)), vec!["a.mp3", "A.mp3", "A.MP3"]);
    let second = vec![entry("A.MP3", false), entry("A.mp3", false), entry("a.mp3", false)];
    assert_eq!(names(&scan(&second)), vec!["A.MP3", "A.mp3", "a.mp3"]);
}

#[test]
fn scan_of_nothing_is_empty() {
    assert_eq!(scan(&Vec::new()), Vec::<BrowserItem>::new());
}

#[test]
fn scan_lowers_letters_beyond_ascii() {
    let entries = vec![entry("\u{c9}t\u{e9}.mp3", false), entry("\u{e9}cole.mp3", false)];
    let items = scan(&entries);
    assert_eq!(names(&items), vec!["\u{e9}cole.mp3", "\u{c9}t\u{e9}.mp3"]);
}

#[test]
fn a_prefix_comes_before_its_extensions() {
    let entries = vec![entry("ab", true), entry("a", true), entry("abc", true)];
    assert_eq!(names(&scan(&entries)), vec!["a", "ab", "abc"]);
}

#[test]
fn classify_knows_the_four_formats_in_any_case() {
    assert_eq!(classify("song.mp3", false), FileType::AudioFile);
    assert_eq!(classify("SONG.MP3", false), FileType::AudioFile);
    assert_eq!(classify("take.Wav", false), FileType::AudioFile);
    assert_eq!(classify("live.fLaC", false), FileType::AudioFile);
    assert_eq!(classify("voice.OGG", false), FileType::AudioFile);
}

#[test]
fn classify_rejects_other_files() {
    assert_eq!(classify("notes.txt", false), FileType::Other);
    assert_eq!(classify("mp3", false), FileType::Other);
    assert_eq!(classify(".mp3", false), FileType::Other);
    assert_eq!(classify("song.mp3.bak", false), FileType::Other);
    assert_eq!(classify("song.", false), FileType::Other);
    assert_eq!(classify("song.mp4", false), FileType::Other);
    assert_eq!(classify("", false), FileType::Other);
}

#[test]
fn classify_takes_a_directory_for_a_directory_whatever_its_name() {
    assert_eq!(classify("albums", true), FileType::Directory);
    assert_eq!(classify("live.mp3", true), FileType::Directory);
}

#[test]
fn classify_reads_the_last_extension_only() {
    assert_eq!(classify("archive.tar.ogg", false), FileType::AudioFile);
    assert_eq!(classify(".hidden.wav", false), FileType::AudioFile);
}

#[test]
fn has_audio_extension_wants_lower_case() {
    assert!(has_audio_extension("mp3"));
    assert!(has_audio_extension("wav"));
    assert!(has_audio_extension("flac"));
    assert!(has_audio_extension("ogg"));
    assert!(!has_audio_extension("MP3"));
    assert!(!has_audio_extension("mp"));
    assert!(!has_audio_extension("mp33"));
    assert!(!has_audio_extension(""));
}

#[test]
fn has_audio_name_lowers_the_extension() {
    assert!(has_audio_name("a.MP3"));
    assert!(has_audio_name("b.Flac"));
    assert!(!has_audio_name("MP3"));
    assert!(!has_audio_name("c.txt"));
}

#[test]
fn audio_files_are_ordered_by_path() {
    let entries = vec![
        entry("b.mp3", false),
        entry("A.mp3", false),
        entry("cover.png", false),
        entry("a.ogg", false),
        entry("sub", true),
    ];
    assert_eq!(audio_files(&entries), vec!["/music/A.mp3", "/music/a.ogg", "/music/b.mp3"]);
}

#[test]
fn audio_files_leave_out_directories_with_an_audio_name() {
    let entries = vec![entry("live.mp3", true), entry("plain", false)];
    assert_eq!(audio_files(&entries), Vec::<String>::new());
}

#[test]
fn audio_files_keep_the_file_beside_a_directory_with_an_audio_name() {
    let entries = vec![entry("live.mp3", true), entry("a.mp3", false), entry("b.OGG", true)];
    assert_eq!(audio_files(&entries), vec!["/music/a.mp3"]);
}

#[test]
fn audio_files_of_a_folder_without_audio_are_none() {
    let entries = vec![entry("sub", true), entry("cover.png", false)];
    assert_eq!(audio_files(&entries), Vec::<String>::new());
}
