//! Geometry and labels of the candidate popup: where it opens, how tall it is,
//! where each row lies and what each row reads. The host window only paints
//! what these functions decide.

use vstd::prelude::*;

use crate::config::{decimal, decimal_chars};
use crate::keys::{spec_decode_key, Action};
use crate::text::{chars_of, extend_chars, string_of};

verus! {

/// Height of one candidate row, in pixels.
pub const ROW_HEIGHT: i32 = 24;
/// Width of the popup, in pixels.
pub const WIDTH: i32 = 220;
/// Padding around the rows, in pixels.
pub const PAD: i32 = 4;
/// Indent of a row's text inside the row, in pixels.
pub const TEXT_INDENT: i32 = 6;
/// Gap between the caret's bottom edge and the popup, in pixels.
pub const CARET_GAP: i32 = 2;
/// Where the popup opens when the caret cannot be found.
pub const FALLBACK_X: i32 = 120;
/// Where the popup opens when the caret cannot be found.
pub const FALLBACK_Y: i32 = 120;

/// A rectangle in client coordinates.
#[derive(Debug, Clone, Copy, PartialEq, Eq, Structural)]
pub struct Rect {
    pub left: i32,
    pub top: i32,
    pub right: i32,
    pub bottom: i32,
}

/// Where and how large the popup is shown.
#[derive(Debug, Clone, Copy, PartialEq, Eq, Structural)]
pub struct Placement {
    pub x: i32,
    pub y: i32,
    pub width: i32,
    pub height: i32,
}

/// The popup's height for `rows` candidates.
pub open spec fn spec_popup_height(rows: nat) -> int {
    ROW_HEIGHT * rows + 2 * PAD
}

/// The popup's top-left corner: just under the caret, or the fallback corner.
pub open spec fn spec_popup_origin(caret: Option<(i32, i32)>) -> (int, int) {
    match caret {
        Some((x, y)) => (x as int, y + CARET_GAP),
        None => (FALLBACK_X as int, FALLBACK_Y as int),
    }
}

/// The number of rows whose popup height fits in an `i32`.
pub open spec fn fits_rows(rows: nat) -> bool {
    spec_popup_height(rows) <= i32::MAX
}

/// The caret positions whose popup origin fits in an `i32`.
pub open spec fn fits_caret(caret: Option<(i32, i32)>) -> bool {
    match caret {
        Some((_, y)) => y + CARET_GAP <= i32::MAX,
        None => true,
    }
}

/// The popup's height for `rows` candidates.
pub fn popup_height(rows: usize) -> (h: i32)
    requires
        fits_rows(rows as nat),
    ensures
        h == spec_popup_height(rows as nat),
{
    let r: i32 = rows as i32;
    ROW_HEIGHT * r + 2 * PAD
}

/// Where the popup opens for a caret at `caret` (its left edge and bottom, in
/// screen coordinates), or `None` when the caret cannot be found.
pub fn popup_origin(caret: Option<(i32, i32)>) -> (res: (i32, i32))
    requires
        fits_caret(caret),
    ensures
        (res.0 as int, res.1 as int) == spec_popup_origin(caret),
{
    match caret {
        Some((x, y)) => (x, y + CARET_GAP),
        None => (FALLBACK_X, FALLBACK_Y),
    }
}

/// How to show `rows` candidates: `None` (hide the popup) when there are none,
/// else under the caret, [`WIDTH`] wide and tall enough for every row.
pub fn placement(rows: usize, caret: Option<(i32, i32)>) -> (res: Option<Placement>)
    requires
        fits_rows(rows as nat),
        fits_caret(caret),
    ensures
        rows == 0 ==> res is None,
        rows > 0 ==> (res matches Some(p) && (p.x as int, p.y as int) == spec_popup_origin(caret)
            && p.width == WIDTH && p.height == spec_popup_height(rows as nat)),
{
    if rows == 0 {
        return None;
    }
    let (x, y) = popup_origin(caret);
    Some(Placement { x, y, width: WIDTH, height: popup_height(rows) })
}

/// The rectangle of row `index` in a client area whose right edge is
/// `client_right`.
pub open spec fn spec_row_rect(index: nat, client_right: i32) -> (int, int, int, int) {
    (PAD as int, PAD + ROW_HEIGHT * index, client_right - PAD, PAD + ROW_HEIGHT * (index + 1))
}

/// The rows whose rectangle fits in `i32` coordinates.
pub open spec fn fits_row(index: nat, client_right: i32) -> bool {
    PAD + ROW_HEIGHT * (index + 1) <= i32::MAX && client_right - PAD >= i32::MIN
}

/// The rectangle of row `index` (see [`spec_row_rect`]).
pub fn row_rect(index: usize, client_right: i32) -> (r: Rect)
    requires
        fits_row(index as nat, client_right),
    ensures
        (r.left as int, r.top as int, r.right as int, r.bottom as int) == spec_row_rect(
            index as nat,
            client_right,
        ),
{
    let i: i32 = index as i32;
    let top = PAD + ROW_HEIGHT * i;
    Rect { left: PAD, top, right: client_right - PAD, bottom: top + ROW_HEIGHT }
}

/// Where a row's text is drawn: the row, indented by [`TEXT_INDENT`].
pub fn text_rect(row: Rect) -> (r: Rect)
    requires
        row.left + TEXT_INDENT <= i32::MAX,
    ensures
        r == (Rect { left: (row.left + TEXT_INDENT) as i32, ..row }),
{
    Rect { left: row.left + TEXT_INDENT, ..row }
}

/// A row's text: its 1-based number, a dot, a space, and the candidate.
pub open spec fn spec_row_label(index: nat, text: Seq<char>) -> Seq<char> {
    decimal(index + 1) + seq!['.', ' '] + text
}

/// The text shown in row `index` for the candidate `text`.
pub fn row_label(index: usize, text: &str) -> (res: String)
    requires
        index < usize::MAX,
    ensures
        res@ == spec_row_label(index as nat, text@),
{
    let mut out = decimal_chars(index + 1);
    out.push('.');
    out.push(' ');
    let t = chars_of(text);
    extend_chars(&mut out, &t);
    string_of(&out)
}

/// The number shown beside each of the first nine candidates is the digit key
/// that picks it: row `i` reads `i + 1` first, and the key for that digit
/// decodes to selecting candidate `i`.
pub proof fn law_row_number_is_its_key(index: nat, text: Seq<char>)
    requires
        index < 9,
    ensures
        spec_row_label(index, text)[0] == ((0x31 + index) as u32) as char,
        spec_decode_key((0x31 + index) as u16, false, false) == Some(Action::SelectIndex(index as usize)),
{
    assert(decimal(index + 1) == seq![crate::config::digit_char(index + 1)]);
}

} // verus!
