//! The spreadsheet synchronizer: for each band of the catalog it locates the
//! last row whose band-column value is lexicographically at most the band
//! name, inserts one blank row per album right after it, and writes the new
//! rows with the template styles, against the document as previous bands
//! already grew it.

use vstd::prelude::*;

use umya_spreadsheet::Style;
use umya_spreadsheet::Worksheet;

use crate::catalog::{
    AlbumRecordV, BandEntryV, Catalog, lemma_total_albums_from_nonneg, total_albums,
    total_albums_from,
};
use crate::sheet::{
    sheet_highest_row, sheet_values, shifted_values, style_with_background, ws_highest_row,
    ws_insert_rows, ws_set_style, ws_set_value, ws_style, ws_value,
};
use crate::text::{lex_le, str_lex_le};

verus! {

/// The model of the document: its cell values and its highest row.
#[verifier::ext_equal]
pub struct SheetV {
    pub cells: Map<(u32, u32), Seq<char>>,
    pub hi: u32,
}

pub open spec fn sheet_v(ws: Worksheet) -> SheetV {
    SheetV { cells: sheet_values(ws), hi: sheet_highest_row(ws) }
}

/// The anchor search: scanning from `row` down to `first_row`, the first row
/// whose value in `col` is lexicographically at most the band name.
pub open spec fn anchor_row(
    m: Map<(u32, u32), Seq<char>>,
    col: u32,
    first_row: u32,
    row: int,
    band: Seq<char>,
) -> Option<u32>
    decreases row - first_row + 1,
{
    if row < first_row {
        None
    } else if lex_le(m[(col, row as u32)], band) {
        Some(row as u32)
    } else {
        anchor_row(m, col, first_row, row - 1, band)
    }
}

pub proof fn lemma_anchor_range(
    m: Map<(u32, u32), Seq<char>>,
    col: u32,
    first_row: u32,
    row: int,
    band: Seq<char>,
)
    requires
        row <= u32::MAX,
    ensures
        anchor_row(m, col, first_row, row, band) matches Some(r) ==> first_row <= r <= row,
    decreases row - first_row + 1,
{
    if row >= first_row && !lex_le(m[(col, row as u32)], band) {
        lemma_anchor_range(m, col, first_row, row - 1, band);
    }
}

/// The reverse linear scan of the original design, against the document's
/// current state.
pub fn find_last_row_by_column_value(
    ws: &Worksheet,
    column_value: &str,
    first_column: u32,
    first_row: u32,
) -> (r: Option<u32>)
    ensures
        r == anchor_row(
            sheet_values(*ws),
            first_column,
            first_row,
            sheet_highest_row(*ws) as int,
            column_value@,
        ),
{
    let hi = ws_highest_row(ws);
    let mut row = hi;
    loop
        invariant
            row <= hi,
            hi == sheet_highest_row(*ws),
            anchor_row(sheet_values(*ws), first_column, first_row, hi as int, column_value@)
                == anchor_row(
                sheet_values(*ws),
                first_column,
                first_row,
                row as int,
                column_value@,
            ),
        decreases row,
    {
        if row < first_row {
            return None;
        }
        let v = ws_value(ws, first_column, row);
        if str_lex_le(v.as_str(), column_value) {
            return Some(row);
        }
        if row == 0 {
            proof {
                assert(anchor_row(
                    sheet_values(*ws),
                    first_column,
                    first_row,
                    -1,
                    column_value@,
                ) is None);
            }
            return None;
        }
        row = row - 1;
    }
}

/// One album's five cells written at `row`: band, year, name, bitrate, genre.
pub open spec fn write_album(
    s: SheetV,
    band: Seq<char>,
    r: AlbumRecordV,
    col: u32,
    row: u32,
) -> SheetV {
    SheetV {
        cells: s.cells.insert((col, row), band).insert(((col + 1) as u32, row), r.year).insert(
            ((col + 2) as u32, row),
            r.name,
        ).insert(((col + 3) as u32, row), r.bitrate).insert(((col + 4) as u32, row), r.genre),
        hi: if row > s.hi {
            row
        } else {
            s.hi
        },
    }
}

/// A band's albums written on consecutive rows starting at `row0`.
pub open spec fn write_albums(
    s: SheetV,
    band: Seq<char>,
    albums: Seq<AlbumRecordV>,
    col: u32,
    row0: int,
    i: int,
) -> SheetV
    decreases albums.len() - i,
{
    if i < 0 || i >= albums.len() {
        s
    } else {
        write_albums(
            write_album(s, band, albums[i], col, (row0 + i) as u32),
            band,
            albums,
            col,
            row0,
            i + 1,
        )
    }
}

/// One band's whole step: anchor search on the current state (the highest row
/// when no row is at most the band name), one blank row per album inserted
/// right after the anchor, and the albums written in discovery order.
pub open spec fn process_band(s: SheetV, e: BandEntryV, col: u32, first_row: u32) -> SheetV {
    let anchor = match anchor_row(s.cells, col, first_row, s.hi as int, e.band) {
        Some(r) => r,
        None => s.hi,
    };
    let idx = (anchor + 1) as u32;
    let n = e.albums.len() as u32;
    let s1 = SheetV {
        cells: shifted_values(s.cells, idx, n),
        hi: if s.hi >= idx {
            (s.hi + n) as u32
        } else {
            s.hi
        },
    };
    write_albums(s1, e.band, e.albums, col, idx as int, 0)
}

pub open spec fn sync_from(
    s: SheetV,
    entries: Seq<BandEntryV>,
    col: u32,
    first_row: u32,
    i: int,
) -> SheetV
    decreases entries.len() - i,
{
    if i < 0 || i >= entries.len() {
        s
    } else {
        sync_from(process_band(s, entries[i], col, first_row), entries, col, first_row, i + 1)
    }
}

/// The whole run: every band of the catalog processed in order, each against
/// the document as the previous bands left it.
pub open spec fn sync_spec(s: SheetV, entries: Seq<BandEntryV>, col: u32, first_row: u32) -> SheetV {
    sync_from(s, entries, col, first_row, 0)
}

/// Law: a run with an empty catalog performs zero insertions and leaves the
/// document's cells and highest row unchanged.
pub proof fn lemma_sync_empty_catalog(s: SheetV, col: u32, first_row: u32)
    ensures
        sync_spec(s, Seq::<BandEntryV>::empty(), col, first_row) == s,
{
}

/// Synchronizes the catalog into the worksheet and returns how many albums
/// were written. Rows `first_row..` of column `first_column` are expected
/// sorted ascending for the anchors to be meaningful, but every input
/// receives exactly the transformation `sync_spec` states.
pub fn sync_catalog(
    ws: &mut Worksheet,
    catalog: &Catalog,
    first_column: u32,
    first_row: u32,
) -> (count: u32)
    requires
        1 <= first_column,
        first_column + 5 <= u32::MAX,
        sheet_highest_row(*old(ws)) + total_albums(catalog@) < u32::MAX,
    ensures
        sheet_v(*final(ws)) == sync_spec(sheet_v(*old(ws)), catalog@, first_column, first_row),
        count as int == total_albums(catalog@),
{
    let ghost s0 = sheet_v(*ws);
    let ghost cat = catalog@;
    let mut templates: Vec<Style> = Vec::new();
    let mut k: u32 = 0;
    while k < 6
        invariant
            k <= 6,
            first_column + 5 <= u32::MAX,
            *ws == *old(ws),
            templates@.len() == k,
        decreases 6 - k,
    {
        templates.push(ws_style(ws, first_column + k, first_row));
        k = k + 1;
    }
    let h_band = style_with_background(&templates[0], "9A0F00");
    let h_year = style_with_background(&templates[1], "9A0F00");
    let h_name = style_with_background(&templates[2], "9A0F00");
    let h_bitrate = style_with_background(&templates[3], "9A0F00");
    let h_genre = style_with_background(&templates[4], "9A0F00");
    let mut count: u32 = 0;
    let mut bi: usize = 0;
    while bi < catalog.entries.len()
        invariant
            bi <= cat.len(),
            cat == catalog@,
            1 <= first_column,
            first_column + 5 <= u32::MAX,
            s0.hi + total_albums_from(cat, 0) < u32::MAX,
            sync_from(s0, cat, first_column, first_row, 0) == sync_from(
                sheet_v(*ws),
                cat,
                first_column,
                first_row,
                bi as int,
            ),
            sheet_highest_row(*ws) + total_albums_from(cat, bi as int) <= s0.hi
                + total_albums_from(cat, 0),
            count as int == total_albums_from(cat, 0) - total_albums_from(cat, bi as int),
        decreases cat.len() - bi,
    {
        let ghost s_b = sheet_v(*ws);
        let entry = &catalog.entries[bi];
        proof {
            assert(cat[bi as int] == catalog.entries@[bi as int]@);
            lemma_total_albums_from_nonneg(cat, bi as int + 1);
            assert(total_albums_from(cat, bi as int) == cat[bi as int].albums.len()
                + total_albums_from(cat, bi as int + 1));
        }
        let n_usize = entry.albums.len();
        let n = n_usize as u32;
        let anchor_opt = find_last_row_by_column_value(
            ws,
            entry.band.as_str(),
            first_column,
            first_row,
        );
        let hi_b = ws_highest_row(ws);
        let anchor = match anchor_opt {
            Some(r) => r,
            None => hi_b,
        };
        proof {
            lemma_anchor_range(
                s_b.cells,
                first_column,
                first_row,
                s_b.hi as int,
                cat[bi as int].band,
            );
            assert(anchor <= hi_b);
        }
        ws_insert_rows(ws, anchor + 1, n);
        let ghost s1 = sheet_v(*ws);
        let ghost target = write_albums(
            s1,
            cat[bi as int].band,
            cat[bi as int].albums,
            first_column,
            anchor as int + 1,
            0,
        );
        let ghost base = count;
        let mut j: usize = 0;
        while j < n_usize
            invariant
                j <= n_usize,
                cat == catalog@,
                bi < cat.len(),
                cat[bi as int] == catalog.entries@[bi as int]@,
                entry == &catalog.entries[bi as int],
                n_usize as int == cat[bi as int].albums.len(),
                n == n_usize as u32,
                anchor <= hi_b,
                1 <= first_column,
                first_column + 5 <= u32::MAX,
                anchor as int + 1 + n_usize as int <= u32::MAX,
                sheet_highest_row(*ws) as int <= hi_b as int + n_usize as int,
                (hi_b as int) + (n_usize as int) < u32::MAX,
                target == write_albums(
                    sheet_v(*ws),
                    cat[bi as int].band,
                    cat[bi as int].albums,
                    first_column,
                    anchor as int + 1,
                    j as int,
                ),
                count as int == (base as int) + (j as int),
                (base as int) + (n_usize as int) <= u32::MAX,
            decreases n_usize - j,
        {
            let row = anchor + 1 + (j as u32);
            let album = &entry.albums[j];
            proof {
                assert(cat[bi as int].albums[j as int] == entry.albums@[j as int]@);
            }
            let ghost s_j = sheet_v(*ws);
            ws_set_value(ws, first_column, row, entry.band.as_str());
            ws_set_style(ws, first_column, row, &h_band);
            ws_set_value(ws, first_column + 1, row, album.year.as_str());
            ws_set_style(ws, first_column + 1, row, &h_year);
            ws_set_value(ws, first_column + 2, row, album.name.as_str());
            ws_set_style(ws, first_column + 2, row, &h_name);
            ws_set_value(ws, first_column + 3, row, album.bitrate.as_str());
            ws_set_style(ws, first_column + 3, row, &h_bitrate);
            ws_set_value(ws, first_column + 4, row, album.genre.as_str());
            ws_set_style(ws, first_column + 4, row, &h_genre);
            proof {
                assert(sheet_v(*ws).cells == write_album(
                    s_j,
                    cat[bi as int].band,
                    cat[bi as int].albums[j as int],
                    first_column,
                    row,
                ).cells);
                assert(sheet_v(*ws).hi == write_album(
                    s_j,
                    cat[bi as int].band,
                    cat[bi as int].albums[j as int],
                    first_column,
                    row,
                ).hi);
                assert(sheet_v(*ws) == write_album(
                    s_j,
                    cat[bi as int].band,
                    cat[bi as int].albums[j as int],
                    first_column,
                    row,
                ));
            }
            count = count + 1;
            j = j + 1;
        }
        proof {
            assert(target == sheet_v(*ws));
            assert(sheet_v(*ws) == process_band(s_b, cat[bi as int], first_column, first_row));
            lemma_total_albums_from_nonneg(cat, bi as int + 1);
        }
        bi = bi + 1;
    }
    proof {
        assert(sync_from(sheet_v(*ws), cat, first_column, first_row, bi as int) == sheet_v(*ws));
    }
    count
}

} // verus!

