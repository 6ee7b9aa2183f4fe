use music_catalog::consensus::{AlbumAcc, FileProbe, aggregate_album, aggregate_folder};

fn probe(ext: &str, bitrate: Option<&str>, genre: Option<&str>) -> FileProbe {
    FileProbe {
        extension: ext.to_string(),
        bitrate: bitrate.map(|s| s.to_string()),
        genre: genre.map(|s| s.to_string()),
    }
}

fn exts(list: &[&str]) -> Vec<String> {
    list.iter().map(|s| s.to_string()).collect()
}

#[test]
fn unanimous_folder_keeps_value() {
    let allowed = exts(&["mp3"]);
    let folders = vec![vec![
        probe("mp3", Some("128"), Some("Rock")),
        probe("mp3", Some("128"), Some("Rock")),
        probe("mp3", Some("128"), Some("Rock")),
    ]];
    let (bitrate, genre) = aggregate_album(&allowed, &folders);
    assert_eq!(bitrate, "128");
    assert_eq!(genre, "Rock");
}

#[test]
fn two_distinct_bitrates_give_vbr() {
    let allowed = exts(&["mp3"]);
    let folders = vec![vec![
        probe("mp3", Some("128"), Some("Rock")),
        probe("mp3", Some("192"), Some("Rock")),
    ]];
    let (bitrate, genre) = aggregate_album(&allowed, &folders);
    assert_eq!(bitrate, "VBR");
    assert_eq!(genre, "Rock");
}

#[test]
fn bitrate_conflict_stops_genre_scan() {
    // The bitrate conflict at the second file breaks the scan before that
    // file's genre is read, so the genre keeps the first file's value.
    let allowed = exts(&["mp3"]);
    let folders = vec![vec![
        probe("mp3", Some("128"), Some("Rock")),
        probe("mp3", Some("192"), Some("Pop")),
    ]];
    let (bitrate, genre) = aggregate_album(&allowed, &folders);
    assert_eq!(bitrate, "VBR");
    assert_eq!(genre, "Rock");
}

#[test]
fn mixed_extensions_give_question_mark() {
    let allowed = exts(&["mp3", "flac"]);
    let folders = vec![vec![
        probe("mp3", Some("128"), Some("Rock")),
        probe("flac", None, Some("Rock")),
    ]];
    let (bitrate, genre) = aggregate_album(&allowed, &folders);
    assert_eq!(bitrate, "?");
    assert_eq!(genre, "Rock");
}

#[test]
fn non_mp3_folder_reports_format() {
    let allowed = exts(&["flac"]);
    let folders = vec![vec![
        probe("flac", None, Some("Jazz")),
        probe("flac", None, Some("Jazz")),
    ]];
    let (bitrate, genre) = aggregate_album(&allowed, &folders);
    assert_eq!(bitrate, "FLAC");
    assert_eq!(genre, "Jazz");
}

#[test]
fn unmatched_extensions_are_ignored() {
    let allowed = exts(&["mp3"]);
    let folders = vec![vec![
        probe("txt", None, Some("NotMusic")),
        probe("jpg", None, None),
    ]];
    let (bitrate, genre) = aggregate_album(&allowed, &folders);
    assert_eq!(bitrate, "");
    assert_eq!(genre, "");
}

#[test]
fn extension_match_is_case_insensitive() {
    let allowed = exts(&["Mp3"]);
    let folders = vec![vec![probe("MP3", Some("320"), Some("Metal"))]];
    let (bitrate, genre) = aggregate_album(&allowed, &folders);
    assert_eq!(bitrate, "320");
    assert_eq!(genre, "Metal");
}

#[test]
fn missing_tag_is_genre_conflict() {
    let allowed = exts(&["mp3"]);
    let folders = vec![vec![probe("mp3", Some("128"), None)]];
    let (bitrate, genre) = aggregate_album(&allowed, &folders);
    assert_eq!(bitrate, "128");
    assert_eq!(genre, "?");
}

#[test]
fn undecodable_frame_contributes_nothing() {
    let allowed = exts(&["mp3"]);
    let folders = vec![vec![probe("mp3", None, Some("Rock"))]];
    let (bitrate, genre) = aggregate_album(&allowed, &folders);
    assert_eq!(bitrate, "");
    assert_eq!(genre, "Rock");
}

#[test]
fn nul_separator_becomes_slash() {
    let allowed = exts(&["mp3"]);
    let folders = vec![vec![probe("mp3", Some("128"), Some("Rock\0Pop"))]];
    let (_, genre) = aggregate_album(&allowed, &folders);
    assert_eq!(genre, "Rock/Pop");
}

#[test]
fn agreeing_discs_keep_value() {
    let allowed = exts(&["mp3"]);
    let folders = vec![
        vec![probe("mp3", Some("192"), Some("Rock"))],
        vec![probe("mp3", Some("192"), Some("Rock"))],
    ];
    let (bitrate, genre) = aggregate_album(&allowed, &folders);
    assert_eq!(bitrate, "192");
    assert_eq!(genre, "Rock");
}

#[test]
fn differing_discs_give_sentinel() {
    let allowed = exts(&["mp3"]);
    let folders = vec![
        vec![probe("mp3", Some("128"), Some("Rock"))],
        vec![probe("mp3", Some("192"), Some("Rock"))],
    ];
    let (bitrate, genre) = aggregate_album(&allowed, &folders);
    assert_eq!(bitrate, "VBR");
    assert_eq!(genre, "Rock");
}

#[test]
fn sentinel_survives_later_discs() {
    let allowed = exts(&["mp3"]);
    let folders = vec![
        vec![probe("mp3", Some("128"), Some("Rock"))],
        vec![probe("mp3", Some("192"), Some("Rock"))],
        vec![probe("mp3", Some("96"), Some("Rock"))],
    ];
    let (bitrate, _) = aggregate_album(&allowed, &folders);
    assert_eq!(bitrate, "VBR");
}

#[test]
fn discs_differing_in_genre_give_question_mark() {
    let allowed = exts(&["mp3"]);
    let folders = vec![
        vec![probe("mp3", Some("128"), Some("Rock"))],
        vec![probe("mp3", Some("128"), Some("Pop"))],
    ];
    let (bitrate, genre) = aggregate_album(&allowed, &folders);
    assert_eq!(bitrate, "128");
    assert_eq!(genre, "?");
}

#[test]
fn folder_aggregation_threads_accumulators() {
    let allowed = exts(&["mp3"]);
    let acc = AlbumAcc::empty();
    let acc = aggregate_folder(&allowed, &vec![probe("mp3", Some("256"), Some("Folk"))], acc);
    let acc = aggregate_folder(&allowed, &vec![probe("mp3", Some("256"), Some("Folk"))], acc);
    let folders = vec![
        vec![probe("mp3", Some("256"), Some("Folk"))],
        vec![probe("mp3", Some("256"), Some("Folk"))],
    ];
    let (bitrate, genre) = aggregate_album(&allowed, &folders);
    assert_eq!(bitrate, "256");
    assert_eq!(genre, "Folk");
    match acc.bitrate {
        music_catalog::consensus::BitrateAcc::Rate(v) => assert_eq!(v, "256"),
        _ => panic!("expected a concrete bitrate"),
    }
}
