use vstd::prelude::*;

verus! {

// ── MXFR wire format (little-endian throughout) ─────────────────────────────
//
//  Offset  Size     Type     Field
//   0      4        u8[4]    magic = b"MXFR"
//   4      4        u32 LE   width  W  (≥ 1)
//   8      4        u32 LE   height H  (≥ 1)
//  12      8        f64 LE   timestamp (any unit)
//  20      W*H*4    f32 LE[] row-major pixel data, top row first
//
// Pixel values and the timestamp are carried as their IEEE-754 bit patterns.

/// The length of a frame header in bytes.
pub const HEADER_LEN: usize = 20;

/// Why a frame was refused.
#[derive(Debug, PartialEq, Eq, Structural)]
pub enum FrameError {
    /// Fewer bytes than the field being read needs.
    Truncated,
    /// The first four bytes are not `MXFR`; they are carried along.
    BadMagic(u8, u8, u8, u8),
    /// The width or the height is 0.
    EmptyDimensions,
    /// The pixel data would not fit in memory (W·H·4 exceeds `usize::MAX`).
    TooLarge,
    /// The pixel data does not hold W·H·4 bytes.
    PayloadLength,
}

/// The fields of a frame header.
#[derive(Clone, Copy, Debug, PartialEq, Eq, Structural)]
pub struct FrameHeader {
    pub width: u32,
    pub height: u32,
    /// The bit pattern of the f64 timestamp.
    pub timestamp_bits: u64,
}

/// A decoded frame: its dimensions, timestamp and the bit patterns of its
/// `width * height` f32 pixel values, row-major and top row first.
#[derive(Debug)]
pub struct MxfrFrame {
    pub width: u32,
    pub height: u32,
    pub timestamp_bits: u64,
    pub data: Vec<u32>,
}

/// The little-endian u32 at `pos`.
pub open spec fn le_u32(bytes: Seq<u8>, pos: int) -> u32 {
    (bytes[pos] as int + 0x100 * bytes[pos + 1] + 0x1_0000 * bytes[pos + 2] + 0x100_0000 * bytes[
        pos + 3
    ]) as u32
}

/// The little-endian u64 at `pos`.
pub open spec fn le_u64(bytes: Seq<u8>, pos: int) -> u64 {
    (le_u32(bytes, pos) as int + 0x1_0000_0000 * le_u32(bytes, pos + 4)) as u64
}

/// The bytes `MXFR`.
pub open spec fn magic() -> Seq<u8> {
    seq![0x4du8, 0x58u8, 0x46u8, 0x52u8]
}

/// The number of pixel-data bytes a frame of the given dimensions carries.
pub open spec fn payload_size(width: u32, height: u32) -> int {
    width * height * 4
}

impl FrameHeader {
    /// The header's pixel data fits in memory.
    pub open spec fn fits(self) -> bool {
        payload_size(self.width, self.height) <= usize::MAX
    }
}

/// What the first bytes of a frame say: the header, or why it is refused.
/// The magic is checked as soon as its four bytes are there; bytes that end
/// before the magic, or after a correct magic but before the end of the
/// header, are truncated; then the dimensions are checked, then the size of
/// the pixel data.
pub open spec fn header_of(bytes: Seq<u8>) -> Result<FrameHeader, FrameError> {
    if bytes.len() < 4 {
        Err(FrameError::Truncated)
    } else if bytes.subrange(0, 4) != magic() {
        Err(FrameError::BadMagic(bytes[0], bytes[1], bytes[2], bytes[3]))
    } else if bytes.len() < HEADER_LEN {
        Err(FrameError::Truncated)
    } else if le_u32(bytes, 4) == 0 || le_u32(bytes, 8) == 0 {
        Err(FrameError::EmptyDimensions)
    } else if payload_size(le_u32(bytes, 4), le_u32(bytes, 8)) > usize::MAX {
        Err(FrameError::TooLarge)
    } else {
        Ok(FrameHeader { width: le_u32(bytes, 4), height: le_u32(bytes, 8), timestamp_bits: le_u64(bytes, 12) })
    }
}

/// The pixel values of a payload: one little-endian word per four bytes.
pub open spec fn pixel_words(payload: Seq<u8>) -> Seq<u32> {
    Seq::new((payload.len() / 4) as nat, |i: int| le_u32(payload, 4 * i))
}

/// Read the little-endian u32 at `pos`; `None` when fewer than four bytes
/// remain there.
pub fn read_u32_le(bytes: &[u8], pos: usize) -> (r: Option<u32>)
    ensures
        pos + 4 <= bytes@.len() ==> r == Some(le_u32(bytes@, pos as int)),
        pos + 4 > bytes@.len() ==> r is None,
{
    if pos > bytes.len() || bytes.len() - pos < 4 {
        return None;
    }
    let v = bytes[pos] as u32 + 0x100 * (bytes[pos + 1] as u32) + 0x1_0000 * (bytes[pos + 2] as u32)
        + 0x100_0000 * (bytes[pos + 3] as u32);
    Some(v)
}

/// Read the little-endian u64 at `pos`; `None` when fewer than eight bytes
/// remain there.
pub fn read_u64_le(bytes: &[u8], pos: usize) -> (r: Option<u64>)
    ensures
        pos + 8 <= bytes@.len() ==> r == Some(le_u64(bytes@, pos as int)),
        pos + 8 > bytes@.len() ==> r is None,
{
    if pos > bytes.len() || bytes.len() - pos < 8 {
        return None;
    }
    let lo = match read_u32_le(bytes, pos) {
        Some(v) => v,
        None => return None,
    };
    let hi = match read_u32_le(bytes, pos + 4) {
        Some(v) => v,
        None => return None,
    };
    Some(lo as u64 + 0x1_0000_0000 * (hi as u64))
}

/// Parse the 20-byte header at the start of `bytes`.
pub fn parse_header(bytes: &[u8]) -> (r: Result<FrameHeader, FrameError>)
    ensures
        r == header_of(bytes@),
{
    if bytes.len() < 4 {
        return Err(FrameError::Truncated);
    }
    if !(bytes[0] == 0x4d && bytes[1] == 0x58 && bytes[2] == 0x46 && bytes[3] == 0x52) {
        proof {
            if bytes@.subrange(0, 4) == magic() {
                assert(bytes@.subrange(0, 4)[0] == bytes@[0]);
                assert(bytes@.subrange(0, 4)[1] == bytes@[1]);
                assert(bytes@.subrange(0, 4)[2] == bytes@[2]);
                assert(bytes@.subrange(0, 4)[3] == bytes@[3]);
            }
        }
        return Err(FrameError::BadMagic(bytes[0], bytes[1], bytes[2], bytes[3]));
    }
    proof {
        assert(bytes@.subrange(0, 4) =~= magic());
    }
    if bytes.len() < HEADER_LEN {
        return Err(FrameError::Truncated);
    }
    let width = match read_u32_le(bytes, 4) {
        Some(v) => v,
        None => return Err(FrameError::Truncated),
    };
    let height = match read_u32_le(bytes, 8) {
        Some(v) => v,
        None => return Err(FrameError::Truncated),
    };
    let timestamp_bits = match read_u64_le(bytes, 12) {
        Some(v) => v,
        None => return Err(FrameError::Truncated),
    };
    if width == 0 || height == 0 {
        return Err(FrameError::EmptyDimensions);
    }
    assert((width as u64) * (height as u64) <= u64::MAX) by (nonlinear_arith)
        requires
            width <= u32::MAX,
            height <= u32::MAX,
    ;
    let cells = (width as u64) * (height as u64);
    if cells > (usize::MAX / 4) as u64 {
        proof {
            assert(cells * 4 > usize::MAX);
        }
        return Err(FrameError::TooLarge);
    }
    Ok(FrameHeader { width, height, timestamp_bits })
}

impl FrameHeader {
    /// The number of pixel-data bytes that follow this header.
    pub fn payload_len(&self) -> (n: usize)
        requires
            self.fits(),
        ensures
            n == payload_size(self.width, self.height),
    {
        proof {
            assert(self.width * self.height <= usize::MAX / 4);
        }
        let cells = (self.width as usize) * (self.height as usize);
        cells * 4
    }
}

/// Decode the pixel data that follows `header`: `payload` must hold exactly
/// W·H·4 bytes, read as W·H little-endian words.
pub fn decode_frame(header: &FrameHeader, payload: &[u8]) -> (r: Result<MxfrFrame, FrameError>)
    ensures
        !header.fits() ==> r == Err::<MxfrFrame, FrameError>(FrameError::TooLarge),
        header.fits() && payload@.len() != payload_size(header.width, header.height) ==> r
            == Err::<MxfrFrame, FrameError>(FrameError::PayloadLength),
        header.fits() && payload@.len() == payload_size(header.width, header.height) ==> (
        r matches Ok(f) && f.width == header.width && f.height == header.height && f.timestamp_bits
            == header.timestamp_bits && f.data@ == pixel_words(payload@)),
{
    assert((header.width as u64) * (header.height as u64) <= u64::MAX) by (nonlinear_arith)
        requires
            header.width <= u32::MAX,
            header.height <= u32::MAX,
    ;
    let cells = (header.width as u64) * (header.height as u64);
    if cells > (usize::MAX / 4) as u64 {
        return Err(FrameError::TooLarge);
    }
    let n = header.payload_len();
    if payload.len() != n {
        return Err(FrameError::PayloadLength);
    }
    let count = n / 4;
    let mut data: Vec<u32> = Vec::with_capacity(count);
    let mut i: usize = 0;
    while i < count
        invariant
            count == payload@.len() / 4,
            0 <= i <= count,
            data@ =~= pixel_words(payload@).take(i as int),
        decreases count - i,
    {
        assert(4 * i + 4 <= payload@.len()) by (nonlinear_arith)
            requires
                i < count,
                count == payload@.len() / 4,
        ;
        assert(payload@.len() == payload.len());
        let w = match read_u32_le(payload, 4 * i) {
            Some(v) => v,
            None => return Err(FrameError::PayloadLength),
        };
        data.push(w);
        i = i + 1;
    }
    Ok(MxfrFrame { width: header.width, height: header.height, timestamp_bits: header.timestamp_bits, data })
}

/// Admits the frames of a stream whose dimensions match those of the first
/// frame it admitted; the dimensions may change between frames on the wire,
/// and frames with other dimensions are dropped.
pub struct FrameGate {
    first: Option<(u32, u32)>,
}

impl View for FrameGate {
    type V = Option<(u32, u32)>;

    /// The dimensions of the first admitted frame, if any.
    closed spec fn view(&self) -> Option<(u32, u32)> {
        self.first
    }
}

impl FrameGate {
    pub fn new() -> (g: Self)
        ensures
            g@ is None,
    {
        FrameGate { first: None }
    }

    /// Whether a frame of the given dimensions is admitted; the first frame
    /// always is, and fixes the dimensions for the rest.
    pub fn accepts(&mut self, width: u32, height: u32) -> (ok: bool)
        ensures
            old(self)@ is None ==> ok && final(self)@ == Some((width, height)),
            old(self)@ matches Some(d) ==> ok == (d == (width, height)) && final(self)@ == old(
                self,
            )@,
    {
        match self.first {
            None => {
                self.first = Some((width, height));
                true
            },
            Some((w, h)) => w == width && h == height,
        }
    }
}

/// The four little-endian bytes of a u32.
pub open spec fn u32_le_bytes(v: u32) -> Seq<u8> {
    seq![(v % 0x100) as u8, ((v / 0x100) % 0x100) as u8, ((v / 0x1_0000) % 0x100) as u8, (v / 0x100_0000) as u8]
}

/// The eight little-endian bytes of a u64.
pub open spec fn u64_le_bytes(v: u64) -> Seq<u8> {
    u32_le_bytes((v % 0x1_0000_0000) as u32) + u32_le_bytes((v / 0x1_0000_0000) as u32)
}

/// The 20 header bytes a producer writes for a header.
pub open spec fn header_bytes(h: FrameHeader) -> Seq<u8> {
    magic() + u32_le_bytes(h.width) + u32_le_bytes(h.height) + u64_le_bytes(h.timestamp_bits)
}

/// The payload bytes a producer writes for pixel words.
pub open spec fn words_bytes(words: Seq<u32>) -> Seq<u8>
    decreases words.len(),
{
    if words.len() == 0 {
        Seq::empty()
    } else {
        words_bytes(words.drop_last()) + u32_le_bytes(words.last())
    }
}

proof fn u32_bytes_read_back(v: u32, prefix: Seq<u8>, suffix: Seq<u8>)
    ensures
        le_u32(prefix + u32_le_bytes(v) + suffix, prefix.len() as int) == v,
{
    let b = prefix + u32_le_bytes(v) + suffix;
    let p = prefix.len() as int;
    assert(b[p] == (v % 0x100) as u8);
    assert(b[p + 1] == ((v / 0x100) % 0x100) as u8);
    assert(b[p + 2] == ((v / 0x1_0000) % 0x100) as u8);
    assert(b[p + 3] == (v / 0x100_0000) as u8);
    assert((v % 0x100) + 0x100 * ((v / 0x100) % 0x100) + 0x1_0000 * ((v / 0x1_0000) % 0x100)
        + 0x100_0000 * (v / 0x100_0000) == v) by (nonlinear_arith)
        requires
            0 <= v <= u32::MAX,
    ;
}

/// A header written by a producer, with nonzero dimensions whose pixel data
/// fits in memory, reads back as itself, whatever follows it.
pub proof fn header_round_trip(h: FrameHeader, rest: Seq<u8>)
    requires
        h.width > 0,
        h.height > 0,
        h.fits(),
    ensures
        header_of(header_bytes(h) + rest) == Ok::<FrameHeader, FrameError>(h),
{
    let b = header_bytes(h) + rest;
    let lo = (h.timestamp_bits % 0x1_0000_0000) as u32;
    let hi = (h.timestamp_bits / 0x1_0000_0000) as u32;
    assert(b =~= magic() + u32_le_bytes(h.width) + (u32_le_bytes(h.height) + u64_le_bytes(
        h.timestamp_bits,
    ) + rest));
    u32_bytes_read_back(h.width, magic(), u32_le_bytes(h.height) + u64_le_bytes(h.timestamp_bits) + rest);
    assert(b =~= (magic() + u32_le_bytes(h.width)) + u32_le_bytes(h.height) + (u64_le_bytes(
        h.timestamp_bits,
    ) + rest));
    u32_bytes_read_back(h.height, magic() + u32_le_bytes(h.width), u64_le_bytes(h.timestamp_bits) + rest);
    let pre = magic() + u32_le_bytes(h.width) + u32_le_bytes(h.height);
    assert(b =~= pre + u32_le_bytes(lo) + (u32_le_bytes(hi) + rest));
    u32_bytes_read_back(lo, pre, u32_le_bytes(hi) + rest);
    assert(b =~= (pre + u32_le_bytes(lo)) + u32_le_bytes(hi) + rest);
    u32_bytes_read_back(hi, pre + u32_le_bytes(lo), rest);
    assert(h.timestamp_bits == lo + 0x1_0000_0000 * hi);
    assert(b.subrange(0, 4) =~= magic());
}

/// Pixel words written by a producer read back as themselves.
pub proof fn pixels_round_trip(words: Seq<u32>)
    ensures
        pixel_words(words_bytes(words)) == words,
        words_bytes(words).len() == 4 * words.len(),
    decreases words.len(),
{
    if words.len() > 0 {
        let init = words.drop_last();
        pixels_round_trip(init);
        let b = words_bytes(words);
        let bi = words_bytes(init);
        assert forall|i: int| 0 <= i < words.len() implies #[trigger] le_u32(b, 4 * i) == words[i] by {
            if i < words.len() - 1 {
                assert(le_u32(bi, 4 * i) == init[i]);
                assert(b[4 * i] == bi[4 * i]);
                assert(b[4 * i + 1] == bi[4 * i + 1]);
                assert(b[4 * i + 2] == bi[4 * i + 2]);
                assert(b[4 * i + 3] == bi[4 * i + 3]);
            } else {
                u32_bytes_read_back(words.last(), bi, Seq::empty());
                assert(b =~= bi + u32_le_bytes(words.last()) + Seq::<u8>::empty());
            }
        }
        assert(pixel_words(b) =~= words);
    }
}

} // verus!
