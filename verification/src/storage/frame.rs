//! Files on disk: magic bytes, data, and the checksum of the data.
use vstd::prelude::*;

use crate::storage::compression::copy_bytes;

verus! {

/// The CRC-32 that `crc32fast::hash` computes.
pub uninterp spec fn crc32(bytes: Seq<u8>) -> u32;

/// Calls `crc32fast::hash`: the CRC-32 of the bytes, a function of them alone.
#[verifier::external_body]
fn checksum(bytes: &[u8]) -> (r: u32)
    ensures
        r == crc32(bytes@),
{
    crc32fast::hash(bytes)
}

/// What is wrong with a file.
#[derive(Debug, Clone, Copy, PartialEq, Eq, Structural)]
pub enum FrameFault {
    TooSmall,
    InvalidMagic,
    CrcMismatch,
}

/// The file for given data: the magic bytes, the data, and the checksum of the data in four bytes,
/// the least significant first.
pub open spec fn framed(magic: Seq<u8>, data: Seq<u8>) -> Seq<u8> {
    magic + data + vstd::bytes::spec_u32_to_le_bytes(crc32(data))
}

/// The data of a file.
pub open spec fn unframed(magic: Seq<u8>, file: Seq<u8>) -> Result<Seq<u8>, FrameFault> {
    if file.len() <= 4 || file.len() - 4 <= magic.len() {
        Err(FrameFault::TooSmall)
    } else if file.take(magic.len() as int) != magic {
        Err(FrameFault::InvalidMagic)
    } else {
        let data = file.subrange(magic.len() as int, file.len() - 4);
        if vstd::bytes::spec_u32_from_le_bytes(file.skip(file.len() - 4)) != crc32(data) {
            Err(FrameFault::CrcMismatch)
        } else {
            Ok(data)
        }
    }
}

/// A file gives back the data it was made for. Only a file without data is refused, as too small.
pub proof fn lemma_file_gives_back_its_data(magic: Seq<u8>, data: Seq<u8>)
    requires
        data.len() > 0,
    ensures
        unframed(magic, framed(magic, data)) == Ok::<Seq<u8>, FrameFault>(data),
{
    vstd::bytes::lemma_auto_spec_u32_to_from_le_bytes();
    let file = framed(magic, data);
    assert(file.take(magic.len() as int) =~= magic);
    assert(file.subrange(magic.len() as int, file.len() - 4) =~= data);
    assert(file.skip(file.len() - 4) =~= vstd::bytes::spec_u32_to_le_bytes(crc32(data)));
}

/// A file of which the data is accepted is the file for that data: nothing but what was written is
/// accepted under its checksum.
pub proof fn lemma_accepted_file_is_the_file_for_its_data(magic: Seq<u8>, file: Seq<u8>)
    ensures
        unframed(magic, file) matches Ok(data) ==> file == framed(magic, data),
{
    vstd::bytes::lemma_auto_spec_u32_to_from_le_bytes();
    if let Ok(data) = unframed(magic, file) {
        let tail = file.skip(file.len() - 4);
        assert(tail.len() == 4);
        assert(vstd::bytes::spec_u32_to_le_bytes(vstd::bytes::spec_u32_from_le_bytes(tail)) == tail);
        assert(file =~= framed(magic, data));
    }
}

/// The file for given data.
pub fn frame(magic: &[u8], data: &[u8]) -> (r: Vec<u8>)
    ensures
        r@ == framed(magic@, data@),
{
    let mut file = copy_bytes(magic);
    file.extend_from_slice(data);
    let crc = vstd::bytes::u32_to_le_bytes(checksum(data));
    file.extend_from_slice(crc.as_slice());
    assert(file@ =~= framed(magic@, data@));
    file
}

/// Appends to a file the checksum of what stands behind the magic bytes.
pub fn seal(file: &mut Vec<u8>, magic_length: usize)
    requires
        magic_length <= old(file)@.len(),
    ensures
        final(file)@ == framed(
            old(file)@.take(magic_length as int),
            old(file)@.skip(magic_length as int),
        ),
{
    let ghost start = file@;
    let crc = vstd::bytes::u32_to_le_bytes(
        checksum(vstd::slice::slice_subrange(file.as_slice(), magic_length, file.len())),
    );
    file.extend_from_slice(crc.as_slice());
    assert(start.subrange(magic_length as int, start.len() as int) =~= start.skip(magic_length as int));
    assert(file@ =~= framed(start.take(magic_length as int), start.skip(magic_length as int)));
}

/// Whether bytes start with other bytes.
fn starts_with(file: &[u8], magic: &[u8]) -> (r: bool)
    requires
        magic@.len() <= file@.len(),
    ensures
        r == (file@.take(magic@.len() as int) == magic@),
{
    let mut i: usize = 0;
    while i < magic.len()
        invariant
            i <= magic@.len() <= file@.len(),
            forall|k: int| 0 <= k < i ==> #[trigger] file@[k] == magic@[k],
        decreases magic@.len() - i,
    {
        if file[i] != magic[i] {
            assert(file@.take(magic@.len() as int)[i as int] != magic@[i as int]);
            return false;
        }
        i += 1;
    }
    assert(file@.take(magic@.len() as int) =~= magic@);
    true
}

/// Checks a file and finds its data.
pub fn check_frame(magic: &[u8], file: &[u8]) -> (r: Result<(), FrameFault>)
    ensures
        match r {
            Ok(_) => unframed(magic@, file@) is Ok,
            Err(e) => unframed(magic@, file@) == Err::<Seq<u8>, FrameFault>(e),
        },
{
    if file.len() <= 4 || file.len() - 4 <= magic.len() {
        return Err(FrameFault::TooSmall);
    }
    if !starts_with(file, magic) {
        return Err(FrameFault::InvalidMagic);
    }
    let end: usize = file.len() - 4;
    let tail = vstd::slice::slice_subrange(file, end, file.len());
    assert(tail@ =~= file@.skip(end as int));
    let expected: u32 = vstd::bytes::u32_from_le_bytes(tail);
    let actual: u32 = checksum(vstd::slice::slice_subrange(file, magic.len(), end));
    if expected != actual {
        return Err(FrameFault::CrcMismatch);
    }
    Ok(())
}

/// The data of a file.
pub fn unframe(magic: &[u8], file: &[u8]) -> (r: Result<Vec<u8>, FrameFault>)
    ensures
        match r {
            Ok(data) => unframed(magic@, file@) == Ok::<Seq<u8>, FrameFault>(data@),
            Err(e) => unframed(magic@, file@) == Err::<Seq<u8>, FrameFault>(e),
        },
{
    match check_frame(magic, file) {
        Ok(_) => Ok(copy_bytes(vstd::slice::slice_subrange(file, magic.len(), file.len() - 4))),
        Err(e) => Err(e),
    }
}

} // verus!
