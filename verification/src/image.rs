//! The backing file as a sequence of bytes, and what a read or a write at a
//! position does to it.
use vstd::prelude::*;

verus! {

/// What a read of `len` bytes at `pos` gets: the bytes of the file from
/// `pos` on, as many as there are and `len` at most. A read at or past the
/// end gets nothing.
pub open spec fn read_at(file: Seq<u8>, pos: int, len: int) -> Seq<u8>
    recommends
        0 <= pos,
        0 <= len,
{
    if pos >= file.len() {
        Seq::empty()
    } else if pos + len >= file.len() {
        file.subrange(pos, file.len() as int)
    } else {
        file.subrange(pos, pos + len)
    }
}

/// The file after `bytes` were written at `pos`. The bytes take the place
/// of what stood there and lengthen the file where they reach past its end;
/// a gap between the old end and `pos` is filled with zeros.
pub open spec fn write_at(file: Seq<u8>, pos: int, bytes: Seq<u8>) -> Seq<u8>
    recommends
        0 <= pos,
{
    Seq::new(
        if file.len() >= pos + bytes.len() {
            file.len()
        } else {
            (pos + bytes.len()) as nat
        },
        |i: int|
            if pos <= i < pos + bytes.len() {
                bytes[i - pos]
            } else if i < file.len() {
                file[i]
            } else {
                0u8
            },
    )
}

/// Reads up to `len` bytes of `file` at `pos`.
pub fn read_bytes(file: &[u8], pos: u64, len: usize) -> (got: &[u8])
    ensures
        got@ == read_at(file@, pos as int, len as int),
{
    let size = file.len();
    if pos >= size as u64 {
        &file[0..0]
    } else {
        let start = pos as usize;
        if len >= size - start {
            &file[start..size]
        } else {
            &file[start..start + len]
        }
    }
}

/// Writes `bytes` into `file` at `pos`.
pub fn write_bytes(file: &mut Vec<u8>, pos: usize, bytes: &[u8])
    requires
        pos + bytes@.len() <= usize::MAX,
    ensures
        final(file)@ == write_at(old(file)@, pos as int, bytes@),
{
    while file.len() < pos
        invariant
            old(file)@.len() <= file@.len(),
            file@.len() <= pos || file@.len() == old(file)@.len(),
            forall|i: int| 0 <= i < old(file)@.len() ==> file@[i] == old(file)@[i],
            forall|i: int| old(file)@.len() <= i < file@.len() ==> file@[i] == 0u8,
        decreases pos - file@.len(),
    {
        // A write past the end leaves zeros in between.
        file.push(0);
    }
    let ghost padded = file@;
    let mut i: usize = 0;
    while i < bytes.len()
        invariant
            i <= bytes@.len(),
            pos + bytes@.len() <= usize::MAX,
            padded.len() >= pos,
            file@.len() == if padded.len() >= pos + i {
                padded.len()
            } else {
                (pos + i) as nat
            },
            forall|k: int|
                0 <= k < file@.len() ==> file@[k] == if pos <= k < pos + i {
                    bytes@[k - pos]
                } else {
                    padded[k]
                },
        decreases bytes@.len() - i,
    {
        if pos + i < file.len() {
            file[pos + i] = bytes[i];
        } else {
            file.push(bytes[i]);
        }
        i += 1;
    }
    assert(file@ =~= write_at(old(file)@, pos as int, bytes@));
}

} // verus!
