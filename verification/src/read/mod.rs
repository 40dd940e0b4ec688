//! Reading of quest containers and of the files embedded in them.

use vstd::prelude::*;

pub mod bin;
pub mod dat;
pub mod qst;
pub mod quest;

verus! {

/// Errors arising while decoding a quest container.
#[derive(Clone, Copy, Debug, PartialEq, Eq, Structural)]
pub enum ReadError {
    /// The byte source ended before the structure read from it was complete.
    Io,
    /// The container structure is corrupt: a mismatched header, a frame
    /// declaring an oversized payload, or a frame overflowing its stream.
    InvalidData,
}

/// The unsigned 32-bit little-endian value whose four bytes stand at `pos`.
pub open spec fn le32(s: Seq<u8>, pos: int) -> int {
    s[pos] + 256 * s[pos + 1] + 65536 * s[pos + 2] + 16777216 * s[pos + 3]
}

/// Read the little-endian 32-bit field at `pos`.
pub fn read_u32_le(data: &Vec<u8>, pos: usize) -> (r: u32)
    requires
        pos + 4 <= data@.len(),
    ensures
        r as int == le32(data@, pos as int),
{
    let n = data.len();
    let b0 = data[pos] as u32;
    let b1 = data[pos + 1] as u32;
    let b2 = data[pos + 2] as u32;
    let b3 = data[pos + 3] as u32;
    b0 + 256 * b1 + 65536 * b2 + 16777216 * b3
}

/// Append `count` bytes of `data`, starting at `from`, to `dst`.
pub fn append_range(dst: &mut Vec<u8>, data: &Vec<u8>, from: usize, count: usize)
    requires
        from + count <= data@.len(),
    ensures
        final(dst)@ == old(dst)@ + data@.subrange(from as int, from as int + count as int),
{
    let ghost n = data.len();
    let mut j: usize = 0;
    while j < count
        invariant
            j <= count,
            from + count <= data@.len(),
            data@.len() <= usize::MAX,
            dst@ == old(dst)@ + data@.subrange(from as int, from as int + j as int),
        decreases count - j,
    {
        let b = data[from + j];
        dst.push(b);
        j = j + 1;
        proof {
            assert(dst@ =~= old(dst)@ + data@.subrange(from as int, from as int + j as int));
        }
    }
}

} // verus!
