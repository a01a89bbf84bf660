//! Recognising how NBT data is compressed from its first bytes.
use vstd::prelude::*;

verus! {

/// NBT compression type.
#[derive(Debug, Clone, Copy, PartialEq, Eq, Structural)]
pub enum CompressionType {
    /// No compression.
    Uncompressed,
    /// Gzip compression.
    Gzip,
    /// Zlib compression.
    Zlib,
}

/// The compression that data starting with `header` uses: gzip for the
/// magic bytes `1F 8B`, zlib for a first byte `78` (the CMF byte of every
/// zlib stream), none otherwise.
pub open spec fn spec_detect_compression(header: Seq<u8>) -> CompressionType {
    if header.len() >= 2 && header[0] == 0x1F && header[1] == 0x8B {
        CompressionType::Gzip
    } else if header.len() >= 1 && header[0] == 0x78 {
        CompressionType::Zlib
    } else {
        CompressionType::Uncompressed
    }
}

/// Recognises the compression of data from its first bytes.
pub fn detect_compression(header: &[u8]) -> (r: CompressionType)
    ensures
        r == spec_detect_compression(header@),
        header@.len() >= 1 && header@[0] == 0x78 ==> r == CompressionType::Zlib,
        header@.len() >= 2 && header@[0] == 0x1F && header@[1] == 0x8B ==> r
            == CompressionType::Gzip,
        r == CompressionType::Uncompressed <==> !(header@.len() >= 1 && header@[0] == 0x78)
            && !(header@.len() >= 2 && header@[0] == 0x1F && header@[1] == 0x8B),
{
    if header.len() >= 2 && header[0] == 0x1F && header[1] == 0x8B {
        CompressionType::Gzip
    } else if header.len() >= 1 && header[0] == 0x78 {
        CompressionType::Zlib
    } else {
        CompressionType::Uncompressed
    }
}

/// Data whose first byte is `78` is zlib data, whatever follows (every
/// zlib stream starts with that CMF byte, at any compression level); data
/// starting `1F 8B` is gzip data; anything else, the empty input included,
/// is taken as uncompressed.
pub proof fn lemma_compression_by_header(header: Seq<u8>)
    ensures
        header.len() >= 1 && header[0] == 0x78 ==> spec_detect_compression(header)
            == CompressionType::Zlib,
        header.len() >= 2 && header[0] == 0x1F && header[1] == 0x8B ==> spec_detect_compression(
            header,
        ) == CompressionType::Gzip,
        spec_detect_compression(header) == CompressionType::Uncompressed <==> !(header.len() >= 1
            && header[0] == 0x78) && !(header.len() >= 2 && header[0] == 0x1F && header[1]
            == 0x8B),
{
}

} // verus!
