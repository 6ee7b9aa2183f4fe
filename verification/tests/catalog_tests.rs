use music_catalog::catalog::{AlbumRecord, Catalog};
use music_catalog::consensus::{FileProbe, aggregate_album};
use music_catalog::text::parse_album_folder_name;

fn record(band: &str, year: &str, name: &str, bitrate: &str, genre: &str) -> AlbumRecord {
    AlbumRecord::new(
        band.to_string(),
        year.to_string(),
        name.to_string(),
        bitrate.to_string(),
        genre.to_string(),
    )
}

#[test]
fn albums_group_under_their_band() {
    let mut catalog = Catalog::new();
    catalog.add_album(record("BandA", "1999", "First", "128", "Rock"));
    catalog.add_album(record("BandB", "2005", "Other", "192", "Pop"));
    catalog.add_album(record("BandA", "2001", "Second", "128", "Rock"));
    assert_eq!(catalog.entries.len(), 2);
    assert_eq!(catalog.entries[0].band, "BandA");
    assert_eq!(catalog.entries[0].albums.len(), 2);
    assert_eq!(catalog.entries[0].albums[0].name, "First");
    assert_eq!(catalog.entries[0].albums[1].name, "Second");
    assert_eq!(catalog.entries[1].band, "BandB");
    assert_eq!(catalog.entries[1].albums.len(), 1);
}

#[test]
fn note_column_stays_empty() {
    let rec = record("B", "2000", "N", "128", "Rock");
    assert_eq!(rec.note, "");
}

#[test]
fn end_to_end_catalog_from_probes() {
    // Two albums of one band, each a single MP3 at 128 kbps tagged Rock.
    let allowed = vec!["mp3".to_string()];
    let mut catalog = Catalog::new();
    for folder_name in ["1999 - First Album", "2001 - Second Album"] {
        let files = vec![FileProbe {
            extension: "mp3".to_string(),
            bitrate: Some("128".to_string()),
            genre: Some("Rock".to_string()),
        }];
        let (bitrate, genre) = aggregate_album(&allowed, &vec![files]);
        let (year, name) = parse_album_folder_name(folder_name).unwrap();
        catalog.add_album(AlbumRecord::new("BandA".to_string(), year, name, bitrate, genre));
    }
    assert_eq!(catalog.entries.len(), 1);
    assert_eq!(catalog.entries[0].band, "BandA");
    let albums = &catalog.entries[0].albums;
    assert_eq!(albums.len(), 2);
    assert_eq!(albums[0].year, "1999");
    assert_eq!(albums[0].name, "First Album");
    assert_eq!(albums[0].bitrate, "128");
    assert_eq!(albums[0].genre, "Rock");
    assert_eq!(albums[0].note, "");
    assert_eq!(albums[1].year, "2001");
    assert_eq!(albums[1].name, "Second Album");
    assert_eq!(albums[1].bitrate, "128");
    assert_eq!(albums[1].genre, "Rock");
}
