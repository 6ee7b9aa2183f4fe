//! The trusted boundary around the spreadsheet document. The document is an
//! opaque external value; its cell values and highest row are named by two
//! uninterpreted functions, and each operation the synchronizer needs is a
//! thin wrapper whose contract states what the operation does to those names.

use vstd::prelude::*;

use umya_spreadsheet::Style;
use umya_spreadsheet::Worksheet;

verus! {

#[verifier::external_type_specification]
#[verifier::external_body]
pub struct ExWorksheet(Worksheet);

#[verifier::external_type_specification]
#[verifier::external_body]
pub struct ExStyle(Style);

/// The worksheet's cell values: every (column, row) pair maps to the string
/// the sheet reports there, the empty string where no cell is set.
pub uninterp spec fn sheet_values(ws: Worksheet) -> Map<(u32, u32), Seq<char>>;

/// The highest row index among the worksheet's cells, 0 for an empty sheet.
pub uninterp spec fn sheet_highest_row(ws: Worksheet) -> u32;

/// The cell values after `num_rows` blank rows are inserted at `row_index`:
/// rows above the insertion point keep their values, rows at or below it move
/// down by `num_rows`, and the inserted rows are blank.
pub open spec fn shifted_values(
    m: Map<(u32, u32), Seq<char>>,
    row_index: u32,
    num_rows: u32,
) -> Map<(u32, u32), Seq<char>> {
    Map::new(
        |k: (u32, u32)| true,
        |k: (u32, u32)|
            if k.1 < row_index {
                m[k]
            } else if k.1 >= row_index + num_rows {
                m[(k.0, (k.1 - num_rows) as u32)]
            } else {
                Seq::empty()
            },
    )
}

/// Relies on Worksheet::value of umya-spreadsheet: reports the cell's value
/// string, empty when no cell is set at the coordinate.
#[verifier::external_body]
pub(crate) fn ws_value(ws: &Worksheet, col: u32, row: u32) -> (r: String)
    ensures
        r@ == sheet_values(*ws)[(col, row)],
{
    ws.value((col, row))
}

/// Relies on Worksheet::highest_row of umya-spreadsheet: the largest row
/// index holding a cell, 0 when there is none.
#[verifier::external_body]
pub(crate) fn ws_highest_row(ws: &Worksheet) -> (r: u32)
    ensures
        r == sheet_highest_row(*ws),
{
    ws.highest_row()
}

/// Relies on Worksheet::cell_mut and Cell::set_value_string of
/// umya-spreadsheet: stores the string verbatim at the coordinate, creating
/// the cell when it is absent.
#[verifier::external_body]
pub(crate) fn ws_set_value(ws: &mut Worksheet, col: u32, row: u32, v: &str)
    requires
        1 <= col,
        1 <= row,
    ensures
        sheet_values(*final(ws)) == sheet_values(*old(ws)).insert((col, row), v@),
        sheet_highest_row(*final(ws)) == if row > sheet_highest_row(*old(ws)) {
            row
        } else {
            sheet_highest_row(*old(ws))
        },
{
    ws.cell_mut((col, row)).set_value_string(v);
}

/// Relies on Worksheet::insert_new_row of umya-spreadsheet: cells at or below
/// `row_index` move down by `num_rows`, values unchanged, so the highest row
/// grows by `num_rows` exactly when a cell sat at or below the insertion
/// point.
#[verifier::external_body]
pub(crate) fn ws_insert_rows(ws: &mut Worksheet, row_index: u32, num_rows: u32)
    requires
        1 <= row_index,
        sheet_highest_row(*old(ws)) + num_rows <= u32::MAX,
    ensures
        sheet_values(*final(ws)) == shifted_values(
            sheet_values(*old(ws)),
            row_index,
            num_rows,
        ),
        sheet_highest_row(*final(ws)) == if sheet_highest_row(*old(ws)) >= row_index {
            (sheet_highest_row(*old(ws)) + num_rows) as u32
        } else {
            sheet_highest_row(*old(ws))
        },
{
    ws.insert_new_row(row_index, num_rows);
}

/// Relies on Worksheet::style of umya-spreadsheet: reads the cell's style
/// (the default style for an absent cell) without touching the sheet.
#[verifier::external_body]
pub(crate) fn ws_style(ws: &Worksheet, col: u32, row: u32) -> (r: Style) {
    ws.style((col, row)).clone()
}

/// Relies on Worksheet::set_style of umya-spreadsheet: styling a cell leaves
/// every cell value unchanged, creating at most the styled cell itself.
#[verifier::external_body]
pub(crate) fn ws_set_style(ws: &mut Worksheet, col: u32, row: u32, style: &Style)
    requires
        1 <= col,
        1 <= row,
    ensures
        sheet_values(*final(ws)) == sheet_values(*old(ws)),
        sheet_highest_row(*final(ws)) == if row > sheet_highest_row(*old(ws)) {
            row
        } else {
            sheet_highest_row(*old(ws))
        },
{
    ws.set_style((col, row), style.clone());
}

/// Relies on Style::set_background_color of umya-spreadsheet: a copy of the
/// template style with a solid background of the given color.
#[verifier::external_body]
pub(crate) fn style_with_background(style: &Style, color: &str) -> (r: Style) {
    let mut s = style.clone();
    s.set_background_color(color);
    s
}

} // verus!
