//! Drawing a QR code as an SVG image.

use vstd::prelude::*;
use crate::error::VaultError;
use crate::paths::{decimal, push_chars, push_decimal, to_chars};
use crate::primitives::qrcode::{qr_encode_text, qr_rows};
use crate::text::string_push;

verus! {

/// The width of the light border around a code, in modules.
pub const QR_BORDER: u32 = 4;

/// What comes before the side length in the image.
pub open spec fn svg_head() -> Seq<char> {
    "<?xml version=\"1.0\" encoding=\"UTF-8\"?><svg xmlns=\"http://www.w3.org/2000/svg\" version=\"1.1\" viewBox=\"0 0 "@
}

/// What comes between the side lengths and the path.
pub open spec fn svg_mid() -> Seq<char> {
    "\" stroke=\"none\"><rect width=\"100%\" height=\"100%\" fill=\"#FFFFFF\"/><path fill=\"#000000\" d=\""@
}

/// What ends the image.
pub open spec fn svg_tail() -> Seq<char> {
    "\"/></svg>"@
}

/// The square of one dark module at column `x` and row `y` of the image.
pub open spec fn cell(x: nat, y: nat) -> Seq<char> {
    seq!['M'] + decimal(x) + seq![','] + decimal(y) + "h1v1h-1z "@
}

/// The squares of the dark modules among the first `count` of a row.
pub open spec fn row_cells(row: Seq<bool>, y: nat, border: nat, count: nat) -> Seq<char>
    decreases count,
{
    if count == 0 || count > row.len() {
        Seq::empty()
    } else {
        row_cells(row, y, border, (count - 1) as nat) + (if row[count - 1] {
            cell((count - 1 + border) as nat, y + border)
        } else {
            Seq::empty()
        })
    }
}

/// The squares of the dark modules of the first `count` rows.
pub open spec fn rows_cells(rows: Seq<Seq<bool>>, border: nat, count: nat) -> Seq<char>
    decreases count,
{
    if count == 0 || count > rows.len() {
        Seq::empty()
    } else {
        rows_cells(rows, border, (count - 1) as nat) + row_cells(
            rows[count - 1],
            (count - 1) as nat,
            border,
            rows[count - 1].len(),
        )
    }
}

/// The image of a code: a white square with one black square for every
/// dark module, inside a light border.
pub open spec fn svg_of(rows: Seq<Seq<bool>>, border: nat) -> Seq<char> {
    let side = rows.len() + 2 * border;
    svg_head() + decimal(side) + seq![' '] + decimal(side) + svg_mid() + rows_cells(
        rows,
        border,
        rows.len(),
    ) + svg_tail()
}

/// Appends the characters of `literal`.
fn push_text(out: &mut String, literal: &str)
    ensures
        final(out)@ == old(out)@ + literal@,
{
    let chars = to_chars(literal);
    push_chars(out, &chars, 0, chars.len());
    assert(out@ =~= old(out)@ + literal@);
}

/// Appends the square of one dark module.
fn push_cell(out: &mut String, x: u128, y: u128)
    ensures
        final(out)@ == old(out)@ + cell(x as nat, y as nat),
{
    string_push(out, 'M');
    push_decimal(out, x);
    string_push(out, ',');
    push_decimal(out, y);
    push_text(out, "h1v1h-1z ");
    assert(out@ =~= old(out)@ + cell(x as nat, y as nat));
}

/// Draws the modules of a code as an SVG image with a border of `border`
/// modules.
pub fn to_svg_string(rows: &Vec<Vec<bool>>, border: u32) -> (svg: String)
    ensures
        svg@ == svg_of(rows.deep_view(), border as nat),
{
    let ghost model = rows.deep_view();
    let side: u128 = rows.len() as u128 + 2 * (border as u128);
    let mut svg = String::new();
    push_text(&mut svg, "<?xml version=\"1.0\" encoding=\"UTF-8\"?><svg xmlns=\"http://www.w3.org/2000/svg\" version=\"1.1\" viewBox=\"0 0 ");
    push_decimal(&mut svg, side);
    string_push(&mut svg, ' ');
    push_decimal(&mut svg, side);
    push_text(&mut svg, "\" stroke=\"none\"><rect width=\"100%\" height=\"100%\" fill=\"#FFFFFF\"/><path fill=\"#000000\" d=\"");
    let ghost start = svg@;
    assert(start =~= svg_head() + decimal(side as nat) + seq![' '] + decimal(side as nat) + svg_mid());
    let mut y: usize = 0;
    assert(svg@ =~= start + rows_cells(model, border as nat, 0));
    while y < rows.len()
        invariant
            y <= rows@.len(),
            model == rows.deep_view(),
            svg@ == start + rows_cells(model, border as nat, y as nat),
        decreases rows@.len() - y,
    {
        let row = &rows[y];
        assert(model[y as int] == row@);
        let ghost before = svg@;
        let mut x: usize = 0;
        assert(svg@ =~= before + row_cells(row@, y as nat, border as nat, 0));
        while x < row.len()
            invariant
                x <= row@.len(),
                svg@ == before + row_cells(row@, y as nat, border as nat, x as nat),
            decreases row@.len() - x,
        {
            if row[x] {
                push_cell(&mut svg, x as u128 + border as u128, y as u128 + border as u128);
                assert(svg@ =~= before + (row_cells(row@, y as nat, border as nat, x as nat) + cell(
                    (x + border) as nat,
                    (y + border) as nat,
                )));
            } else {
                assert(svg@ =~= before + (row_cells(row@, y as nat, border as nat, x as nat) + Seq::<
                    char,
                >::empty()));
            }
            x += 1;
        }
        assert(svg@ =~= start + (rows_cells(model, border as nat, y as nat) + row_cells(
            row@,
            y as nat,
            border as nat,
            row@.len(),
        )));
        y += 1;
    }
    push_text(&mut svg, "\"/></svg>");
    assert(svg@ =~= svg_of(model, border as nat));
    svg
}

/// Draws the QR code of `text` as an SVG image. A text that is too long
/// for any code is beyond the size limit.
pub fn generate_qr(text: &str) -> (out: Result<String, VaultError>)
    ensures
        match qr_rows(text@) {
            Some(rows) => out matches Ok(svg) && svg@ == svg_of(rows, QR_BORDER as nat),
            None => out == Err::<String, VaultError>(VaultError::SizeLimitExceeded),
        },
{
    match qr_encode_text(text) {
        Some(rows) => Ok(to_svg_string(&rows, QR_BORDER)),
        None => Err(VaultError::SizeLimitExceeded),
    }
}

} // verus!
