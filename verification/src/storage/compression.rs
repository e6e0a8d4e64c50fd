//! How the bytes of a granule are compressed.
use vstd::prelude::*;
use vstd::string::*;

use crate::error::{Error, ErrorView, Outcome};
use crate::storage::value::ValueType;
use crate::text::concat2;

verus! {

/// Compression of a granule.
#[derive(Debug, Clone, Copy, PartialEq, Eq, Structural)]
pub enum CompressionType {
    Uncompressed,
    LZ4(u8),
}

impl Default for CompressionType {
    fn default() -> (r: Self)
        ensures
            r == CompressionType::LZ4(3),
    {
        CompressionType::LZ4(3)
    }
}

impl ValueType {
    /// The compression used for columns of this type.
    pub fn get_optimal_compression(&self) -> (r: CompressionType)
        ensures
            r == CompressionType::LZ4(3),
    {
        CompressionType::LZ4(3)
    }
}

/// Whether bytes are a frame, without a content checksum, that `lz4::EncoderBuilder` makes of given
/// bytes at a level. Which of them it makes goes by the word size and the byte order of the machine.
pub uninterp spec fn is_lz4_frame(bytes: Seq<u8>, level: u8, frame: Seq<u8>) -> bool;

/// What `lz4::Decoder` reads from bytes: the content of the frame, or the text of its error.
pub uninterp spec fn lz4_content(frame: Seq<u8>) -> Result<Seq<u8>, Seq<char>>;

/// Bytes that were read without an error.
pub open spec fn read_back(bytes: Seq<u8>) -> Result<Seq<u8>, Seq<char>> {
    Ok(bytes)
}

/// Calls `lz4::EncoderBuilder` with a level and without a content checksum, writes the bytes and
/// finishes the frame. Where it gives a frame, it is one of the bytes at the level, which
/// `is_lz4_frame` names, and `lz4::Decoder` reads the bytes back from it. Which frame it is depends on
/// the machine and is not said. It gives none where the encoder cannot be made, refuses the bytes or
/// cannot finish, which depends on the memory of the machine and is not said either.
#[verifier::external_body]
fn lz4_encode(bytes: &[u8], level: u8) -> (r: Option<Vec<u8>>)
    ensures
        r is Some ==> is_lz4_frame(bytes@, level, r->Some_0@),
        r is Some ==> lz4_content(r->Some_0@) == read_back(bytes@),
{
    let mut builder = lz4::EncoderBuilder::new();
    builder.level(u32::from(level)).checksum(lz4::ContentChecksum::NoChecksum);
    let mut encoder = builder.build(Vec::new()).ok()?;
    std::io::Write::write_all(&mut encoder, bytes).ok()?;
    match encoder.finish() {
        (frame, Ok(())) => Some(frame),
        (_, Err(_)) => None,
    }
}

/// What a decoder gave: the content or the text of an error, taken by their views.
pub open spec fn content_view(r: Result<Vec<u8>, String>) -> Result<Seq<u8>, Seq<char>> {
    match r {
        Ok(v) => Ok(v@),
        Err(e) => Err(e@),
    }
}

/// Whether the text of an error says that memory ran out.
pub open spec fn is_want_of_memory(text: Seq<char>) -> bool {
    text == "LZ4 error: ERROR_allocation_failed"@ || text == "out of memory"@
}

/// Whether reading ended because memory ran out.
pub open spec fn ran_out_of_memory(r: Result<Seq<u8>, Seq<char>>) -> bool {
    r is Err && is_want_of_memory(r->Err_0)
}

/// Calls `lz4::Decoder::new` and reads it to its end. The outer error is the text of why no decoder
/// could be made, which depends on the memory of the machine and is not said. What a decoder reads is
/// a function of the bytes alone, unless memory runs out while it reads.
#[verifier::external_body]
fn lz4_decode(frame: &[u8]) -> (r: Result<Result<Vec<u8>, String>, String>)
    ensures
        r is Ok ==> content_view(r->Ok_0) == lz4_content(frame@) || ran_out_of_memory(content_view(r->Ok_0)),
{
    let mut decoder = match lz4::Decoder::new(frame) {
        Ok(decoder) => decoder,
        Err(error) => return Err(error.to_string()),
    };
    let mut content = Vec::new();
    match std::io::Read::read_to_end(&mut decoder, &mut content) {
        Ok(_) => Ok(Ok(content)),
        Err(error) => Ok(Err(error.to_string())),
    }
}

/// Whether bytes are what given bytes are compressed to, and give them back.
pub open spec fn compresses_to(bytes: Seq<u8>, t: CompressionType, out: Seq<u8>) -> bool {
    &&& match t {
        CompressionType::LZ4(level) => is_lz4_frame(bytes, level, out),
        CompressionType::Uncompressed => out == bytes,
    }
    &&& decompressed(out, t) == Ok::<Seq<u8>, ErrorView>(bytes)
}

/// What given bytes are decompressed to.
pub open spec fn decompressed(bytes: Seq<u8>, t: CompressionType) -> Result<Seq<u8>, ErrorView> {
    match t {
        CompressionType::LZ4(_) => match lz4_content(bytes) {
            Ok(content) => Ok(content),
            Err(text) => Err(
                ErrorView::CouldNotReadData("Failed to decompress LZ4 data: "@ + text),
            ),
        },
        CompressionType::Uncompressed => Ok(bytes),
    }
}

/// Whether an error says that no decoder could be made, or that memory ran out while it read.
pub open spec fn is_no_decoder(e: ErrorView) -> bool {
    exists|text: Seq<char>| #[trigger] is_decoder_fault(e, text)
}

/// Whether an error says that no decoder could be made, or that memory ran out while it read, with a
/// given text.
pub open spec fn is_decoder_fault(e: ErrorView, text: Seq<char>) -> bool {
    ||| e == ErrorView::CouldNotReadData("Failed to create LZ4 decoder: "@ + text)
    ||| is_want_of_memory(text) && e == ErrorView::CouldNotReadData("Failed to decompress LZ4 data: "@ + text)
}

/// Whether an outcome is what given bytes are decompressed to. LZ4 may fail for want of memory too.
pub open spec fn decompresses_to(bytes: Seq<u8>, t: CompressionType, r: Result<Seq<u8>, ErrorView>) -> bool {
    r == decompressed(bytes, t) || (t is LZ4 && r is Err && is_no_decoder(r->Err_0))
}

/// What bytes were compressed to decompresses to the bytes, the empty ones included; only where memory
/// runs out may LZ4 fail. Bytes that are not compressed stay as they are and always come back.
pub proof fn lemma_decompressing_gives_back(
    bytes: Seq<u8>,
    t: CompressionType,
    out: Seq<u8>,
    r: Result<Seq<u8>, ErrorView>,
)
    requires
        compresses_to(bytes, t, out),
        decompresses_to(out, t, r),
    ensures
        r is Ok ==> r->Ok_0 == bytes,
        r is Err ==> t is LZ4 && is_no_decoder(r->Err_0),
        t is Uncompressed ==> out == bytes && r == Ok::<Seq<u8>, ErrorView>(bytes),
{
}

/// A list of bytes in a result, as a sequence.
pub open spec fn bytes_outcome(r: Outcome<Vec<u8>>) -> Result<Seq<u8>, ErrorView> {
    match r {
        Ok(v) => Ok(v@),
        Err(e) => Err(e@),
    }
}

/// A copy of bytes.
pub fn copy_bytes(bytes: &[u8]) -> (r: Vec<u8>)
    ensures
        r@ == bytes@,
{
    let mut r: Vec<u8> = Vec::new();
    r.extend_from_slice(bytes);
    assert(r@ =~= bytes@);
    r
}

/// The error for bytes that could not be compressed.
pub open spec fn compress_error() -> ErrorView {
    ErrorView::CouldNotInsertData("Could not compress data."@)
}

/// Compresses bytes using the specified compression type.
///
/// Returns:
///   * Ok: Compressed bytes.
///   * Error: `CouldNotInsertData` on compression failure.
pub fn compress_bytes(bytes: &[u8], compression_type: &CompressionType) -> (r: Outcome<Vec<u8>>)
    ensures
        match r {
            Ok(out) => compresses_to(bytes@, *compression_type, out@),
            Err(e) => *compression_type is LZ4 && e@ == compress_error(),
        },
{
    match *compression_type {
        CompressionType::LZ4(level) => compression_outcome(lz4_encode(bytes, level)),
        CompressionType::Uncompressed => Ok(copy_bytes(bytes)),
    }
}

/// The outcome of a compression, for what the encoder gave.
pub fn compression_outcome(frame: Option<Vec<u8>>) -> (r: Outcome<Vec<u8>>)
    ensures
        bytes_outcome(r) == (match frame {
            Some(f) => Ok(f@),
            None => Err(compress_error()),
        }),
{
    match frame {
        Some(frame) => Ok(frame),
        None => Err(Error::CouldNotInsertData("Could not compress data.".to_owned())),
    }
}

/// Decompresses bytes using the specified compression type.
///
/// Returns:
///   * Ok: Decompressed bytes.
///   * Error: `CouldNotReadData` on decompression failure.
pub fn decompress_bytes(compressed_bytes: &[u8], compression_type: &CompressionType) -> (r: Outcome<
    Vec<u8>,
>)
    ensures
        decompresses_to(compressed_bytes@, *compression_type, bytes_outcome(r)),
{
    match compression_type {
        CompressionType::LZ4(_) => {
            let read = lz4_decode(compressed_bytes);
            let r = decompression_outcome(read);
            proof {
                if read is Err {
                    assert(is_decoder_fault(bytes_outcome(r)->Err_0, read->Err_0@));
                } else if read->Ok_0 is Err {
                    let text = read->Ok_0->Err_0@;
                    if is_want_of_memory(text) {
                        assert(is_decoder_fault(bytes_outcome(r)->Err_0, text));
                    }
                }
            }
            r
        },
        CompressionType::Uncompressed => Ok(copy_bytes(compressed_bytes)),
    }
}

/// The outcome of a decompression, for what the decoder gave.
pub fn decompression_outcome(read: Result<Result<Vec<u8>, String>, String>) -> (r: Outcome<Vec<u8>>)
    ensures
        bytes_outcome(r) == (match read {
            Ok(Ok(content)) => Ok(content@),
            Ok(Err(text)) => Err(
                ErrorView::CouldNotReadData("Failed to decompress LZ4 data: "@ + text@),
            ),
            Err(text) => Err(
                ErrorView::CouldNotReadData("Failed to create LZ4 decoder: "@ + text@),
            ),
        }),
{
    match read {
        Ok(content) => match content {
            Ok(content) => Ok(content),
            Err(text) => Err(
                Error::CouldNotReadData(concat2("Failed to decompress LZ4 data: ", text.as_str())),
            ),
        },
        Err(text) => Err(
            Error::CouldNotReadData(concat2("Failed to create LZ4 decoder: ", text.as_str())),
        ),
    }
}

} // verus!
