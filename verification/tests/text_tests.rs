use music_catalog::text::{
    is_mp3_extension, nul_to_slash, parse_album_folder_name, str_lex_le, to_upper, trim,
};

#[test]
fn upper_cases_ascii_only() {
    assert_eq!(to_upper("flac"), "FLAC");
    assert_eq!(to_upper("Mp3"), "MP3");
    assert_eq!(to_upper("128"), "128");
}

#[test]
fn mp3_extension_detection() {
    assert!(is_mp3_extension("mp3"));
    assert!(is_mp3_extension("MP3"));
    assert!(is_mp3_extension("mP3"));
    assert!(!is_mp3_extension("flac"));
    assert!(!is_mp3_extension("mp4"));
    assert!(!is_mp3_extension(""));
}

#[test]
fn trim_strips_spaces() {
    assert_eq!(trim("  1999  "), "1999");
    assert_eq!(trim("x"), "x");
    assert_eq!(trim("   "), "");
    assert_eq!(trim(""), "");
}

#[test]
fn album_name_splits_on_first_dash() {
    let parsed = parse_album_folder_name("1999 - First Album");
    assert_eq!(parsed, Some(("1999".to_string(), "First Album".to_string())));
    let parsed = parse_album_folder_name("2001 - Second - Part");
    assert_eq!(parsed, Some(("2001".to_string(), "Second - Part".to_string())));
    assert_eq!(parse_album_folder_name("No Separator"), None);
    assert_eq!(parse_album_folder_name(""), None);
}

#[test]
fn lexicographic_order() {
    assert!(str_lex_le("Alpha", "Bravo"));
    assert!(str_lex_le("Alpha", "Alpha"));
    assert!(!str_lex_le("Echo", "Delta"));
    assert!(str_lex_le("", "A"));
    assert!(!str_lex_le("A", ""));
    assert!(str_lex_le("Ab", "Abc"));
    assert!(!str_lex_le("Abc", "Ab"));
}

#[test]
fn nul_replacement() {
    assert_eq!(nul_to_slash("Rock\0Pop"), "Rock/Pop");
    assert_eq!(nul_to_slash("Rock"), "Rock");
    assert_eq!(nul_to_slash(""), "");
}
