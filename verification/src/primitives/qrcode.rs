//! QR codes.

use vstd::prelude::*;

verus! {

/// The modules of the QR code of `text` at the medium level of error
/// correction, row by row from the top, `true` for dark, or nothing
/// where the text is too long for any code.
pub uninterp spec fn qr_rows(text: Seq<char>) -> Option<Seq<Seq<bool>>>;

/// Calls `QrCode::encode_text`, `size` and `get_module` of `qrcodegen`.
/// Trusted: the result holds the modules of the code of `text`, row by
/// row; a code is square, with 21 to 177 modules to a side.
#[verifier::external_body]
pub(crate) fn qr_encode_text(text: &str) -> (out: Option<Vec<Vec<bool>>>)
    ensures
        qr_rows(text@) == (match out {
            Some(rows) => Some(rows.deep_view()),
            None => None,
        }),
        out matches Some(rows) ==> 21 <= rows@.len() <= 177 && forall|y: int|
            0 <= y < rows@.len() ==> (#[trigger] rows@[y])@.len() == rows@.len(),
{
    let qr = qrcodegen::QrCode::encode_text(text, qrcodegen::QrCodeEcc::Medium).ok()?;
    let size = qr.size();
    Some((0..size).map(|y| (0..size).map(|x| qr.get_module(x, y)).collect()).collect())
}

} // verus!
