//! Signature catalog: classifies a byte buffer by its magic-byte prefix.
//!
//! The catalog knows the PDF header, the ZIP header shared by the Office
//! container formats, and the common image headers.  A ZIP container is
//! refined by walking its local file headers: the presence of a `word/`,
//! `xl/` or `ppt/` entry decides between the three Office formats, and a
//! container that cannot be refined stays unclassified.

use vstd::prelude::*;

verus! {

/// The closed set of format tags that the sniffer can assign to a buffer.
#[derive(Clone, Copy, Debug, PartialEq, Eq, Structural)]
pub enum DetectedFormat {
    Pdf,
    Docx,
    Xlsx,
    Pptx,
    Text,
    Image,
    Unknown,
}

/// `%PDF` at the start of the buffer.
pub open spec fn is_pdf_sig(b: Seq<u8>) -> bool {
    b.len() >= 4 && b[0] == 0x25 && b[1] == 0x50 && b[2] == 0x44 && b[3] == 0x46
}

/// `PK\x03\x04`: the local-file-header signature of a ZIP container.
pub open spec fn is_zip_sig(b: Seq<u8>) -> bool {
    b.len() >= 4 && b[0] == 0x50 && b[1] == 0x4b && b[2] == 0x03 && b[3] == 0x04
}

/// The eight-byte PNG header.
pub open spec fn is_png_sig(b: Seq<u8>) -> bool {
    &&& b.len() >= 8
    &&& b[0] == 0x89 && b[1] == 0x50 && b[2] == 0x4e && b[3] == 0x47
    &&& b[4] == 0x0d && b[5] == 0x0a && b[6] == 0x1a && b[7] == 0x0a
}

/// The JPEG start-of-image marker.
pub open spec fn is_jpeg_sig(b: Seq<u8>) -> bool {
    b.len() >= 3 && b[0] == 0xff && b[1] == 0xd8 && b[2] == 0xff
}

/// `RIFF` followed by `WEBP` at offset 8.
pub open spec fn is_webp_sig(b: Seq<u8>) -> bool {
    &&& b.len() >= 12
    &&& b[0] == 0x52 && b[1] == 0x49 && b[2] == 0x46 && b[3] == 0x46
    &&& b[8] == 0x57 && b[9] == 0x45 && b[10] == 0x42 && b[11] == 0x50
}

/// `GIF8`.
pub open spec fn is_gif_sig(b: Seq<u8>) -> bool {
    b.len() >= 4 && b[0] == 0x47 && b[1] == 0x49 && b[2] == 0x46 && b[3] == 0x38
}

/// `BM`: a Windows bitmap.
pub open spec fn is_bmp_sig(b: Seq<u8>) -> bool {
    b.len() >= 2 && b[0] == 0x42 && b[1] == 0x4d
}

/// `II*\0` or `MM\0*`: a TIFF in either byte order.
pub open spec fn is_tiff_sig(b: Seq<u8>) -> bool {
    b.len() >= 4 && ((b[0] == 0x49 && b[1] == 0x49 && b[2] == 0x2a && b[3] == 0x00) || (b[0]
        == 0x4d && b[1] == 0x4d && b[2] == 0x00 && b[3] == 0x2a))
}

/// Any of the image headers the catalog knows.
pub open spec fn is_image_sig(b: Seq<u8>) -> bool {
    ||| is_png_sig(b)
    ||| is_jpeg_sig(b)
    ||| is_webp_sig(b)
    ||| is_gif_sig(b)
    ||| is_bmp_sig(b)
    ||| is_tiff_sig(b)
}

/// The little-endian 16-bit value at offset `i`.
pub open spec fn le16(b: Seq<u8>, i: int) -> u16
    recommends
        0 <= i,
        i + 2 <= b.len(),
{
    (b[i] as u16 + 256 * (b[i + 1] as u16)) as u16
}

/// The little-endian 32-bit value at offset `i`.
pub open spec fn le32(b: Seq<u8>, i: int) -> u32
    recommends
        0 <= i,
        i + 4 <= b.len(),
{
    (b[i] as u32 + 0x100 * (b[i + 1] as u32) + 0x10000 * (b[i + 2] as u32) + 0x1000000 * (b[i
        + 3] as u32)) as u32
}

/// The entry name of the local file header at `off` starts with `word/`.
pub open spec fn entry_is_word(b: Seq<u8>, off: int, nlen: int) -> bool {
    &&& nlen >= 5
    &&& b[off + 30] == 0x77 && b[off + 31] == 0x6f && b[off + 32] == 0x72 && b[off + 33] == 0x64
    &&& b[off + 34] == 0x2f
}

/// The entry name of the local file header at `off` starts with `xl/`.
pub open spec fn entry_is_xl(b: Seq<u8>, off: int, nlen: int) -> bool {
    nlen >= 3 && b[off + 30] == 0x78 && b[off + 31] == 0x6c && b[off + 32] == 0x2f
}

/// The entry name of the local file header at `off` starts with `ppt/`.
pub open spec fn entry_is_ppt(b: Seq<u8>, off: int, nlen: int) -> bool {
    &&& nlen >= 4
    &&& b[off + 30] == 0x70 && b[off + 31] == 0x70 && b[off + 32] == 0x74 && b[off + 33] == 0x2f
}

/// Walks the ZIP local file headers from `off` and decides which Office
/// format the container holds.  Each header is 30 bytes followed by the
/// entry name, the extra field and the compressed data; the walk moves
/// past all three.  A header whose sizes are deferred to a data
/// descriptor (general-purpose flag bit 3) cannot be walked past, so the
/// container stays unclassified.
pub open spec fn ooxml_scan(b: Seq<u8>, off: int) -> DetectedFormat
    decreases b.len() - off,
{
    if !(0 <= off && off + 30 <= b.len()) {
        DetectedFormat::Unknown
    } else if !(b[off] == 0x50 && b[off + 1] == 0x4b && b[off + 2] == 0x03 && b[off + 3]
        == 0x04) {
        DetectedFormat::Unknown
    } else {
        let flags = le16(b, off + 6);
        let csize = le32(b, off + 18);
        let nlen = le16(b, off + 26);
        let xlen = le16(b, off + 28);
        if off + 30 + nlen > b.len() {
            DetectedFormat::Unknown
        } else if entry_is_word(b, off, nlen as int) {
            DetectedFormat::Docx
        } else if entry_is_xl(b, off, nlen as int) {
            DetectedFormat::Xlsx
        } else if entry_is_ppt(b, off, nlen as int) {
            DetectedFormat::Pptx
        } else if flags & 0x08 != 0 {
            DetectedFormat::Unknown
        } else {
            let next = off + 30 + nlen + xlen + csize;
            if next > b.len() {
                DetectedFormat::Unknown
            } else {
                ooxml_scan(b, next)
            }
        }
    }
}

/// The format a signature match assigns to the buffer: `None` when no
/// known signature matches, `Some(Unknown)` when a signature matches a
/// container or format the pipeline does not support.
pub open spec fn signature_format(b: Seq<u8>) -> Option<DetectedFormat> {
    if is_pdf_sig(b) {
        Some(DetectedFormat::Pdf)
    } else if is_zip_sig(b) {
        Some(ooxml_scan(b, 0))
    } else if is_image_sig(b) {
        Some(DetectedFormat::Image)
    } else {
        None
    }
}

fn check_pdf_sig(data: &[u8]) -> (r: bool)
    ensures
        r == is_pdf_sig(data@),
{
    data.len() >= 4 && data[0] == 0x25 && data[1] == 0x50 && data[2] == 0x44 && data[3] == 0x46
}

fn check_zip_sig(data: &[u8]) -> (r: bool)
    ensures
        r == is_zip_sig(data@),
{
    data.len() >= 4 && data[0] == 0x50 && data[1] == 0x4b && data[2] == 0x03 && data[3] == 0x04
}

fn check_image_sig(data: &[u8]) -> (r: bool)
    ensures
        r == is_image_sig(data@),
{
    let png = data.len() >= 8 && data[0] == 0x89 && data[1] == 0x50 && data[2] == 0x4e && data[3]
        == 0x47 && data[4] == 0x0d && data[5] == 0x0a && data[6] == 0x1a && data[7] == 0x0a;
    let jpeg = data.len() >= 3 && data[0] == 0xff && data[1] == 0xd8 && data[2] == 0xff;
    let webp = data.len() >= 12 && data[0] == 0x52 && data[1] == 0x49 && data[2] == 0x46 && data[3]
        == 0x46 && data[8] == 0x57 && data[9] == 0x45 && data[10] == 0x42 && data[11] == 0x50;
    let gif = data.len() >= 4 && data[0] == 0x47 && data[1] == 0x49 && data[2] == 0x46 && data[3]
        == 0x38;
    let bmp = data.len() >= 2 && data[0] == 0x42 && data[1] == 0x4d;
    let tiff = data.len() >= 4 && ((data[0] == 0x49 && data[1] == 0x49 && data[2] == 0x2a && data[3]
        == 0x00) || (data[0] == 0x4d && data[1] == 0x4d && data[2] == 0x00 && data[3] == 0x2a));
    png || jpeg || webp || gif || bmp || tiff
}

fn read_le16(data: &[u8], i: usize) -> (r: u16)
    requires
        i + 2 <= data@.len(),
    ensures
        r == le16(data@, i as int),
{
    data[i] as u16 + 256 * (data[i + 1] as u16)
}

fn read_le32(data: &[u8], i: usize) -> (r: u32)
    requires
        i + 4 <= data@.len(),
    ensures
        r == le32(data@, i as int),
{
    data[i] as u32 + 0x100 * (data[i + 1] as u32) + 0x10000 * (data[i + 2] as u32) + 0x1000000 * (
    data[i + 3] as u32)
}

/// Refines a buffer that starts with a ZIP signature into one of the
/// three Office formats, or `Unknown` when the walk cannot decide.
fn scan_ooxml(data: &[u8]) -> (r: DetectedFormat)
    ensures
        r == ooxml_scan(data@, 0),
{
    let mut off: usize = 0;
    loop
        invariant
            off <= data@.len(),
            ooxml_scan(data@, 0) == ooxml_scan(data@, off as int),
        decreases data@.len() - off,
    {
        if off > data.len() || data.len() - off < 30 {
            return DetectedFormat::Unknown;
        }
        if !(data[off] == 0x50 && data[off + 1] == 0x4b && data[off + 2] == 0x03 && data[off + 3]
            == 0x04) {
            return DetectedFormat::Unknown;
        }
        let flags = read_le16(data, off + 6);
        let csize = read_le32(data, off + 18);
        let nlen = read_le16(data, off + 26);
        let xlen = read_le16(data, off + 28);
        if (nlen as usize) > data.len() - off - 30 {
            return DetectedFormat::Unknown;
        }
        if nlen >= 5 && data[off + 30] == 0x77 && data[off + 31] == 0x6f && data[off + 32] == 0x72
            && data[off + 33] == 0x64 && data[off + 34] == 0x2f {
            return DetectedFormat::Docx;
        }
        if nlen >= 3 && data[off + 30] == 0x78 && data[off + 31] == 0x6c && data[off + 32] == 0x2f {
            return DetectedFormat::Xlsx;
        }
        if nlen >= 4 && data[off + 30] == 0x70 && data[off + 31] == 0x70 && data[off + 32] == 0x74
            && data[off + 33] == 0x2f {
            return DetectedFormat::Pptx;
        }
        if flags & 0x08 != 0 {
            return DetectedFormat::Unknown;
        }
        let base: usize = off + 30 + nlen as usize;
        let rest: u64 = (data.len() - base) as u64;
        if xlen as u64 + csize as u64 > rest {
            return DetectedFormat::Unknown;
        }
        off = base + xlen as usize + csize as usize;
    }
}

/// Looks the buffer up in the signature catalog.
pub fn signature_lookup(data: &[u8]) -> (r: Option<DetectedFormat>)
    ensures
        r == signature_format(data@),
{
    if check_pdf_sig(data) {
        Some(DetectedFormat::Pdf)
    } else if check_zip_sig(data) {
        Some(scan_ooxml(data))
    } else if check_image_sig(data) {
        Some(DetectedFormat::Image)
    } else {
        None
    }
}

} // verus!
