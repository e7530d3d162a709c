//! Byte encoding of addresses written into relocation slots.
//!
//! Generated code is x86-64, whose native byte order is little-endian.

use byteorder::{ByteOrder, LittleEndian};
use vstd::prelude::*;

verus! {

/// The eight little-endian bytes of `v`, least significant first.
pub open spec fn le_bytes(v: u64) -> Seq<u8> {
    Seq::new(8, |k: int| (v >> ((8 * k) as u64)) as u8)
}

/// Relies on byteorder's `LittleEndian::write_u64`: it stores the eight
/// little-endian bytes of `n` into the first eight bytes of the buffer.
#[verifier::external_body]
pub(crate) fn le_encode(n: u64) -> (r: Vec<u8>)
    ensures
        r@ == le_bytes(n),
{
    let mut buf = vec![0u8; 8];
    LittleEndian::write_u64(&mut buf, n);
    buf
}

/// `code` with the eight bytes at `pos` replaced by the encoding of `v`.
pub open spec fn patched(code: Seq<u8>, pos: int, v: u64) -> Seq<u8> {
    code.subrange(0, pos) + le_bytes(v) + code.subrange(pos + 8, code.len() as int)
}

/// Writes the little-endian encoding of `v` into the slot at `pos`.
pub fn write_slot(code: &mut Vec<u8>, pos: usize, v: u64)
    requires
        pos + 8 <= old(code)@.len(),
    ensures
        final(code)@ == patched(old(code)@, pos as int, v),
{
    let bytes = le_encode(v);
    let ghost orig = code@;
    let n: usize = code.len();
    let mut k: usize = 0;
    while k < 8
        invariant
            k <= 8,
            pos + 8 <= orig.len(),
            orig.len() == n,
            bytes@ == le_bytes(v),
            code@.len() == orig.len(),
            forall|i: int|
                0 <= i < code@.len() ==> #[trigger] code@[i] == if pos <= i < pos + k {
                    bytes@[i - pos]
                } else {
                    orig[i]
                },
        decreases 8 - k,
    {
        code.set(pos + k, bytes[k]);
        k = k + 1;
    }
    assert(code@ =~= patched(orig, pos as int, v));
}

} // verus!
