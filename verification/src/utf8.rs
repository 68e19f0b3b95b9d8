//! Checking that bytes are UTF-8, as turning a C string into a `&str`
//! does.

use vstd::prelude::*;
use vstd::utf8::{length_of_first_scalar, pop_first_scalar, valid_first_scalar, valid_utf8};

verus! {

/// The length of the scalar that starts at `bytes[i]`, when a well-formed
/// one does.
fn first_scalar_len(bytes: &[u8], i: usize) -> (r: Option<usize>)
    requires
        i < bytes@.len(),
    ensures
        match r {
            Some(k) => valid_first_scalar(bytes@.skip(i as int)) && k == length_of_first_scalar(
                bytes@.skip(i as int),
            ),
            None => !valid_first_scalar(bytes@.skip(i as int)),
        },
{
    let ghost rest = bytes@.skip(i as int);
    let n = bytes.len() - i;
    let b0 = bytes[i];
    assert(rest[0] == b0);
    if b0 <= 0x7f {
        assert((b0 & 0x7f) as u32 <= 0x7f) by (bit_vector);
        Some(1)
    } else if 0xc0 <= b0 && b0 <= 0xdf {
        if n < 2 {
            return None;
        }
        let b1 = bytes[i + 1];
        assert(rest[1] == b1);
        if !(0x80 <= b1 && b1 <= 0xbf) {
            return None;
        }
        let cp: u32 = (((b0 & 0x1F) as u32) << 6) | ((b1 & 0x3f) as u32);
        assert(cp <= 0x7ff) by (bit_vector)
            requires
                cp == (((b0 & 0x1F) as u32) << 6) | ((b1 & 0x3f) as u32),
        ;
        if cp < 0x80 {
            None
        } else {
            Some(2)
        }
    } else if 0xe0 <= b0 && b0 <= 0xef {
        if n < 3 {
            return None;
        }
        let b1 = bytes[i + 1];
        let b2 = bytes[i + 2];
        assert(rest[1] == b1 && rest[2] == b2);
        if !(0x80 <= b1 && b1 <= 0xbf && 0x80 <= b2 && b2 <= 0xbf) {
            return None;
        }
        let cp: u32 = (((b0 & 0x0F) as u32) << 12) | (((b1 & 0x3f) as u32) << 6) | ((b2
            & 0x3f) as u32);
        if cp < 0x800 || (0xD800 <= cp && cp <= 0xDFFF) {
            None
        } else {
            Some(3)
        }
    } else if 0xf0 <= b0 && b0 <= 0xf7 {
        if n < 4 {
            return None;
        }
        let b1 = bytes[i + 1];
        let b2 = bytes[i + 2];
        let b3 = bytes[i + 3];
        assert(rest[1] == b1 && rest[2] == b2 && rest[3] == b3);
        if !(0x80 <= b1 && b1 <= 0xbf && 0x80 <= b2 && b2 <= 0xbf && 0x80 <= b3 && b3 <= 0xbf) {
            return None;
        }
        let cp: u32 = (((b0 & 0x07) as u32) << 18) | (((b1 & 0x3f) as u32) << 12) | (((b2
            & 0x3f) as u32) << 6) | ((b3 & 0x3f) as u32);
        if cp < 0x10000 || cp > 0x10ffff {
            None
        } else {
            Some(4)
        }
    } else {
        None
    }
}

/// Whether `bytes` is well-formed UTF-8.
pub fn is_valid_utf8(bytes: &[u8]) -> (ok: bool)
    ensures
        ok == valid_utf8(bytes@),
{
    let mut i: usize = 0;
    assert(bytes@.skip(0) =~= bytes@);
    while i < bytes.len()
        invariant
            i <= bytes@.len(),
            valid_utf8(bytes@) == valid_utf8(bytes@.skip(i as int)),
        decreases bytes@.len() - i,
    {
        let ghost rest = bytes@.skip(i as int);
        match first_scalar_len(bytes, i) {
            None => {
                return false;
            },
            Some(k) => {
                assert(pop_first_scalar(rest) =~= bytes@.skip(i + k));
                i = i + k;
            },
        }
    }
    assert(bytes@.skip(i as int) =~= Seq::<u8>::empty());
    true
}

} // verus!
