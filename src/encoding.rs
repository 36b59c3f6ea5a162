//! UTF-8 validation of byte buffers.
use vstd::prelude::*;
use vstd::utf8::valid_utf8;

verus! {

/// Relies on `std::str::from_utf8`: it succeeds exactly on well-formed UTF-8.
#[verifier::external_body]
fn utf8_decodes(buf: &[u8]) -> (r: bool)
    ensures
        r == valid_utf8(buf@),
{
    std::str::from_utf8(buf).is_ok()
}

/// Whether `buf` holds well-formed UTF-8 text.
pub fn is_buf_utf8(buf: &[u8]) -> (r: bool)
    ensures
        r == valid_utf8(buf@),
{
    let utf8_check = utf8_decodes(buf);
    if !utf8_check {
        return false;
    }
    true
}

} // verus!
