//! Values in a window of bytes, low byte first.

use vstd::prelude::*;
use vstd::bytes::{
    spec_u16_to_le_bytes, spec_u32_from_le_bytes, spec_u32_to_le_bytes, spec_u64_to_le_bytes,
    u16_to_le_bytes, u32_from_le_bytes, u32_to_le_bytes, u64_to_le_bytes,
};
use vstd::slice::slice_subrange;

verus! {

/// The window after `bytes` were written into it from `offset` on.
pub open spec fn stored(window: Seq<u8>, offset: int, bytes: Seq<u8>) -> Seq<u8> {
    Seq::new(
        window.len(),
        |i: int|
            if offset <= i < offset + bytes.len() {
                bytes[i - offset]
            } else {
                window[i]
            },
    )
}

/// The 32-bit value that the window holds at `offset`, low byte first.
pub open spec fn loaded_u32(window: Seq<u8>, offset: int) -> u32 {
    spec_u32_from_le_bytes(window.subrange(offset, offset + 4))
}

/// Writes `bytes` into the window from `offset` on.
pub fn store_bytes(window: &mut [u8], offset: usize, bytes: &[u8])
    requires
        offset + bytes@.len() <= old(window)@.len(),
    ensures
        final(window)@ == stored(old(window)@, offset as int, bytes@),
{
    let len = window.len();
    let mut k: usize = 0;
    while k < bytes.len()
        invariant
            k <= bytes@.len(),
            len == window@.len(),
            offset + bytes@.len() <= window@.len(),
            window@.len() == old(window)@.len(),
            window@ == stored(old(window)@, offset as int, bytes@.take(k as int)),
        decreases bytes@.len() - k,
    {
        window[offset + k] = bytes[k];
        assert(window@ =~= stored(old(window)@, offset as int, bytes@.take(k + 1)));
        k += 1;
    }
    assert(bytes@.take(bytes@.len() as int) =~= bytes@);
}

/// Writes a 16-bit value at `offset`, low byte first.
pub fn store_u16(window: &mut [u8], offset: usize, value: u16)
    requires
        offset + 2 <= old(window)@.len(),
    ensures
        final(window)@ == stored(old(window)@, offset as int, spec_u16_to_le_bytes(value)),
{
    let bytes = u16_to_le_bytes(value);
    store_bytes(window, offset, bytes.as_slice());
}

/// Writes a 32-bit value at `offset`, low byte first.
pub fn store_u32(window: &mut [u8], offset: usize, value: u32)
    requires
        offset + 4 <= old(window)@.len(),
    ensures
        final(window)@ == stored(old(window)@, offset as int, spec_u32_to_le_bytes(value)),
{
    let bytes = u32_to_le_bytes(value);
    store_bytes(window, offset, bytes.as_slice());
}

/// Writes a 64-bit value at `offset`, low byte first.
pub fn store_u64(window: &mut [u8], offset: usize, value: u64)
    requires
        offset + 8 <= old(window)@.len(),
    ensures
        final(window)@ == stored(old(window)@, offset as int, spec_u64_to_le_bytes(value)),
{
    let bytes = u64_to_le_bytes(value);
    store_bytes(window, offset, bytes.as_slice());
}

/// Reads the 32-bit value at `offset`, low byte first.
pub fn load_u32(window: &[u8], offset: usize) -> (value: u32)
    requires
        offset + 4 <= window@.len(),
    ensures
        value == loaded_u32(window@, offset as int),
{
    let len = window.len();
    u32_from_le_bytes(slice_subrange(window, offset, offset + 4))
}

/// A value that was stored can be loaded again, and storing leaves the
/// bytes outside its place alone.
pub proof fn lemma_store_load_u32(window: Seq<u8>, offset: int, value: u32)
    requires
        0 <= offset,
        offset + 4 <= window.len(),
    ensures
        loaded_u32(stored(window, offset, spec_u32_to_le_bytes(value)), offset) == value,
        forall|i: int|
            0 <= i < window.len() && !(offset <= i < offset + 4) ==> stored(
                window,
                offset,
                spec_u32_to_le_bytes(value),
            )[i] == window[i],
{
    vstd::bytes::lemma_auto_spec_u32_to_from_le_bytes();
    let bytes = spec_u32_to_le_bytes(value);
    assert(stored(window, offset, bytes).subrange(offset, offset + 4) =~= bytes);
}

} // verus!
