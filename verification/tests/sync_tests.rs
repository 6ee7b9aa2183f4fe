use music_catalog::catalog::{AlbumRecord, Catalog};
use music_catalog::sync::{find_last_row_by_column_value, sync_catalog};

fn sheet_with_bands(bands: &[&str], first_row: u32) -> umya_spreadsheet::Workbook {
    let mut book = umya_spreadsheet::new_file();
    let ws = book.sheet_mut(0).unwrap();
    for (i, band) in bands.iter().enumerate() {
        ws.cell_mut((1, first_row + i as u32)).set_value_string(*band);
    }
    book
}

fn record(band: &str, year: &str, name: &str, bitrate: &str, genre: &str) -> AlbumRecord {
    AlbumRecord::new(
        band.to_string(),
        year.to_string(),
        name.to_string(),
        bitrate.to_string(),
        genre.to_string(),
    )
}

#[test]
fn anchor_rows_for_bravo_and_delta() {
    // Rows 5..=8 hold Alpha, Charlie, Charlie, Echo.
    let book = sheet_with_bands(&["Alpha", "Charlie", "Charlie", "Echo"], 5);
    let ws = book.sheet(0).unwrap();
    assert_eq!(find_last_row_by_column_value(ws, "Bravo", 1, 5), Some(5));
    assert_eq!(find_last_row_by_column_value(ws, "Delta", 1, 5), Some(7));
    assert_eq!(find_last_row_by_column_value(ws, "Zulu", 1, 5), Some(8));
}

#[test]
fn anchor_none_when_every_row_is_greater() {
    let book = sheet_with_bands(&["Bravo", "Charlie"], 1);
    let ws = book.sheet(0).unwrap();
    assert_eq!(find_last_row_by_column_value(ws, "Aardvark", 1, 1), None);
}

#[test]
fn empty_catalog_changes_nothing() {
    let mut book = sheet_with_bands(&["Alpha", "Bravo"], 1);
    let ws = book.sheet_mut(0).unwrap();
    let catalog = Catalog::new();
    let count = sync_catalog(ws, &catalog, 1, 1);
    assert_eq!(count, 0);
    assert_eq!(ws.highest_row(), 2);
    assert_eq!(ws.value((1, 1)), "Alpha");
    assert_eq!(ws.value((1, 2)), "Bravo");
    assert_eq!(ws.value((1, 3)), "");
}

#[test]
fn single_band_inserted_after_anchor() {
    let mut book = sheet_with_bands(&["Alpha", "Charlie", "Charlie", "Echo"], 1);
    let ws = book.sheet_mut(0).unwrap();
    let mut catalog = Catalog::new();
    catalog.add_album(record("Bravo", "1999", "First Album", "128", "Rock"));
    let count = sync_catalog(ws, &catalog, 1, 1);
    assert_eq!(count, 1);
    assert_eq!(ws.highest_row(), 5);
    assert_eq!(ws.value((1, 1)), "Alpha");
    assert_eq!(ws.value((1, 2)), "Bravo");
    assert_eq!(ws.value((2, 2)), "1999");
    assert_eq!(ws.value((3, 2)), "First Album");
    assert_eq!(ws.value((4, 2)), "128");
    assert_eq!(ws.value((5, 2)), "Rock");
    assert_eq!(ws.value((1, 3)), "Charlie");
    assert_eq!(ws.value((1, 4)), "Charlie");
    assert_eq!(ws.value((1, 5)), "Echo");
}

#[test]
fn later_band_sees_earlier_insertions() {
    let mut book = sheet_with_bands(&["Alpha", "Charlie", "Charlie", "Echo"], 1);
    let ws = book.sheet_mut(0).unwrap();
    let mut catalog = Catalog::new();
    catalog.add_album(record("Delta", "2003", "Third", "192", "Pop"));
    catalog.add_album(record("Bravo", "1999", "First", "128", "Rock"));
    let count = sync_catalog(ws, &catalog, 1, 1);
    assert_eq!(count, 2);
    assert_eq!(ws.highest_row(), 6);
    let col1: Vec<String> = (1..=6).map(|r| ws.value((1, r))).collect();
    assert_eq!(col1, vec!["Alpha", "Bravo", "Charlie", "Charlie", "Delta", "Echo"]);
    assert_eq!(ws.value((2, 5)), "2003");
    assert_eq!(ws.value((2, 2)), "1999");
}

#[test]
fn band_with_two_albums_fills_consecutive_rows() {
    let mut book = sheet_with_bands(&["Alpha", "Echo"], 1);
    let ws = book.sheet_mut(0).unwrap();
    let mut catalog = Catalog::new();
    catalog.add_album(record("Bravo", "1999", "First", "128", "Rock"));
    catalog.add_album(record("Bravo", "2001", "Second", "128", "Rock"));
    let count = sync_catalog(ws, &catalog, 1, 1);
    assert_eq!(count, 2);
    assert_eq!(ws.highest_row(), 4);
    assert_eq!(ws.value((1, 1)), "Alpha");
    assert_eq!(ws.value((1, 2)), "Bravo");
    assert_eq!(ws.value((3, 2)), "First");
    assert_eq!(ws.value((1, 3)), "Bravo");
    assert_eq!(ws.value((3, 3)), "Second");
    assert_eq!(ws.value((1, 4)), "Echo");
}

#[test]
fn append_at_end_when_sheet_is_empty() {
    let mut book = umya_spreadsheet::new_file();
    let ws = book.sheet_mut(0).unwrap();
    let mut catalog = Catalog::new();
    catalog.add_album(record("Bravo", "1999", "First", "128", "Rock"));
    let count = sync_catalog(ws, &catalog, 1, 1);
    assert_eq!(count, 1);
    assert_eq!(ws.value((1, 1)), "Bravo");
    assert_eq!(ws.highest_row(), 1);
}
