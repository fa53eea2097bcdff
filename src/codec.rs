//! The compressed container in which a loaded sample cube is kept on disk:
//! a 20-byte text header, then a zstd frame holding the cube's extents and
//! its samples as packed 32-bit words, little-endian.

use vstd::prelude::*;

verus! {

// ---------------------------------------------------------------------------
// File kinds
// ---------------------------------------------------------------------------

/// How a file is read, by its extension.
#[derive(Clone, Copy, Debug, PartialEq, Eq, Structural)]
pub enum FileKind {
    /// The compressed container (`ttcf`).
    Container,
    /// The text export (`txt`, `tcts`).
    Text,
    Unknown,
}

pub open spec fn file_kind_spec(ext: Seq<u8>) -> FileKind {
    if ext == seq![0x74u8, 0x74, 0x63, 0x66] {
        FileKind::Container
    } else if ext == seq![0x74u8, 0x78, 0x74] || ext == seq![0x74u8, 0x63, 0x74, 0x73] {
        FileKind::Text
    } else {
        FileKind::Unknown
    }
}

fn bytes_eq(a: &[u8], b: &[u8]) -> (r: bool)
    ensures
        r == (a@ == b@),
{
    if a.len() != b.len() {
        return false;
    }
    let mut i: usize = 0;
    while i < a.len()
        invariant
            i <= a@.len(),
            a@.len() == b@.len(),
            forall|j: int| 0 <= j < i ==> a@[j] == b@[j],
        decreases a@.len() - i,
    {
        if a[i] != b[i] {
            return false;
        }
        i += 1;
    }
    assert(a@ =~= b@);
    true
}

/// The kind of a file with extension `ext` (compared byte for byte).
pub fn file_kind(ext: &[u8]) -> (r: FileKind)
    ensures
        r == file_kind_spec(ext@),
{
    let ttcf: [u8; 4] = [0x74, 0x74, 0x63, 0x66];
    let txt: [u8; 3] = [0x74, 0x78, 0x74];
    let tcts: [u8; 4] = [0x74, 0x63, 0x74, 0x73];
    assert(ttcf@ =~= seq![0x74u8, 0x74, 0x63, 0x66]);
    assert(txt@ =~= seq![0x74u8, 0x78, 0x74]);
    assert(tcts@ =~= seq![0x74u8, 0x63, 0x74, 0x73]);
    if bytes_eq(ext, ttcf.as_slice()) {
        FileKind::Container
    } else if bytes_eq(ext, txt.as_slice()) || bytes_eq(ext, tcts.as_slice()) {
        FileKind::Text
    } else {
        FileKind::Unknown
    }
}

// ---------------------------------------------------------------------------
// Packed samples
// ---------------------------------------------------------------------------

/// The packed form of the bits of a single-precision sample: the exponent's
/// top bit moves below the rest of the exponent, then the ten lowest
/// mantissa bits are dropped. Usual samples then start with a run of zeros,
/// which compresses well.
pub open spec fn pack_spec(x: u32) -> u32 {
    (((x & 0x3F80_0000u32) << 1u32) | ((x & 0x4000_0000u32) >> 7u32) | (x & 0x807F_FFFFu32))
        >> 10u32
}

/// The single-precision bits of a packed sample, the dropped mantissa bits
/// being zero.
pub open spec fn unpack_spec(c: u32) -> u32 {
    let x = c << 10u32;
    ((x & 0x7F00_0000u32) >> 1u32) | ((x & 0x0080_0000u32) << 7u32) | (x & 0x807F_FFFFu32)
}

/// Packs the bits of one single-precision sample.
pub fn pack_sample(x: u32) -> (r: u32)
    ensures
        r == pack_spec(x),
{
    ((x & 0x3F80_0000u32) << 1u32 | (x & 0x4000_0000u32) >> 7u32 | (x & 0x807F_FFFFu32)) >> 10u32
}

/// Unpacks one sample into single-precision bits.
pub fn unpack_sample(c: u32) -> (r: u32)
    ensures
        r == unpack_spec(c),
{
    let x = c << 10u32;
    (x & 0x7F00_0000u32) >> 1u32 | (x & 0x0080_0000u32) << 7u32 | (x & 0x807F_FFFFu32)
}

/// Unpacking a packed sample gives its bits back but for the ten lowest,
/// which become zero; packing an unpacked word gives it back when it fits in
/// the 22 bits that packing produces.
pub proof fn lemma_pack_round_trip(x: u32, c: u32)
    ensures
        unpack_spec(pack_spec(x)) == x & 0xFFFF_FC00u32,
        c < 0x40_0000u32 ==> pack_spec(unpack_spec(c)) == c,
        pack_spec(x) < 0x40_0000u32,
{
    assert(unpack_spec(pack_spec(x)) == x & 0xFFFF_FC00u32) by (bit_vector);
    assert(c < 0x40_0000u32 ==> pack_spec(unpack_spec(c)) == c) by (bit_vector);
    assert(pack_spec(x) < 0x40_0000u32) by (bit_vector);
}

// ---------------------------------------------------------------------------
// Little-endian words
// ---------------------------------------------------------------------------

/// Byte `k` (0 to 3) of `x` in little-endian order.
pub open spec fn le_byte(x: u32, k: int) -> u8 {
    if k == 0 {
        (x & 0xFFu32) as u8
    } else if k == 1 {
        ((x >> 8u32) & 0xFFu32) as u8
    } else if k == 2 {
        ((x >> 16u32) & 0xFFu32) as u8
    } else {
        ((x >> 24u32) & 0xFFu32) as u8
    }
}

/// The word of four little-endian bytes.
pub open spec fn le_word(b0: u8, b1: u8, b2: u8, b3: u8) -> u32 {
    (b0 as u32) | ((b1 as u32) << 8u32) | ((b2 as u32) << 16u32) | ((b3 as u32) << 24u32)
}

/// The bytes of a list of words, four per word, little-endian.
pub open spec fn words_bytes(w: Seq<u32>) -> Seq<u8> {
    Seq::new(4 * w.len(), |i: int| le_byte(w[i / 4], i % 4))
}

/// The word at word index `i` of `b`.
pub open spec fn word_at(b: Seq<u8>, i: int) -> u32 {
    le_word(b[4 * i], b[4 * i + 1], b[4 * i + 2], b[4 * i + 3])
}

proof fn lemma_le_round_trip(x: u32)
    ensures
        le_word(le_byte(x, 0), le_byte(x, 1), le_byte(x, 2), le_byte(x, 3)) == x,
{
    let b0 = (x & 0xFFu32) as u8;
    let b1 = ((x >> 8u32) & 0xFFu32) as u8;
    let b2 = ((x >> 16u32) & 0xFFu32) as u8;
    let b3 = ((x >> 24u32) & 0xFFu32) as u8;
    assert((x & 0xFFu32) < 256u32) by (bit_vector);
    assert(((x >> 8u32) & 0xFFu32) < 256u32) by (bit_vector);
    assert(((x >> 16u32) & 0xFFu32) < 256u32) by (bit_vector);
    assert(((x >> 24u32) & 0xFFu32) < 256u32) by (bit_vector);
    assert(b0 as u32 == x & 0xFFu32);
    assert(b1 as u32 == (x >> 8u32) & 0xFFu32);
    assert(b2 as u32 == (x >> 16u32) & 0xFFu32);
    assert(b3 as u32 == (x >> 24u32) & 0xFFu32);
    assert((x & 0xFFu32) | (((x >> 8u32) & 0xFFu32) << 8u32) | (((x >> 16u32) & 0xFFu32)
        << 16u32) | (((x >> 24u32) & 0xFFu32) << 24u32) == x) by (bit_vector);
}

/// Reading back the bytes of a list of words gives the words.
proof fn lemma_words_round_trip(w: Seq<u32>, i: int)
    requires
        0 <= i < w.len(),
    ensures
        word_at(words_bytes(w), i) == w[i],
{
    let b = words_bytes(w);
    assert(b[4 * i] == le_byte(w[i], 0));
    assert(b[4 * i + 1] == le_byte(w[i], 1));
    assert(b[4 * i + 2] == le_byte(w[i], 2));
    assert(b[4 * i + 3] == le_byte(w[i], 3));
    lemma_le_round_trip(w[i]);
}

fn push_word(out: &mut Vec<u8>, x: u32)
    ensures
        final(out)@ == old(out)@ + seq![le_byte(x, 0), le_byte(x, 1), le_byte(x, 2), le_byte(x, 3)],
{
    out.push((x & 0xFFu32) as u8);
    out.push(((x >> 8u32) & 0xFFu32) as u8);
    out.push(((x >> 16u32) & 0xFFu32) as u8);
    out.push(((x >> 24u32) & 0xFFu32) as u8);
    assert(final(out)@ =~= old(out)@ + seq![le_byte(x, 0), le_byte(x, 1), le_byte(x, 2), le_byte(x, 3)]);
}

fn read_word(b: &[u8], i: usize) -> (r: u32)
    requires
        4 * i + 4 <= b@.len(),
    ensures
        r == word_at(b@, i as int),
{
    let len = b.len();
    let k = 4 * i;
    (b[k] as u32) | ((b[k + 1] as u32) << 8u32) | ((b[k + 2] as u32) << 16u32) | ((b[k + 3] as u32)
        << 24u32)
}

// ---------------------------------------------------------------------------
// Payload
// ---------------------------------------------------------------------------

/// Why a container could not be read.
#[derive(Clone, Copy, Debug, PartialEq, Eq, Structural)]
pub enum CodecError {
    /// The data ends before what its header announces.
    Truncated,
    /// The text header is not that of this format.
    BadHeader,
    /// The compressed frame could not be decompressed.
    Corrupt,
}

/// What the compressed frame holds: the frame count and image extents of
/// the sequence, the extents of the stored cube, and its packed samples in
/// storage order.
#[derive(Clone, Debug, PartialEq, Eq)]
pub struct Payload {
    pub frames: u32,
    pub width: u32,
    pub height: u32,
    pub dims: [u32; 3],
    pub samples: Vec<u32>,
}

/// The number of samples that extents `d` call for.
pub open spec fn sample_count(d: [u32; 3]) -> int {
    d[0] as int * d[1] as int * d[2] as int
}

impl Payload {
    /// The stored samples fill the stored extents.
    pub open spec fn wf(&self) -> bool {
        self.samples@.len() == sample_count(self.dims)
    }

    /// The six header words followed by the samples.
    pub open spec fn words(&self) -> Seq<u32> {
        seq![self.frames, self.width, self.height, self.dims[0], self.dims[1], self.dims[2]]
            + self.samples@
    }
}

/// The bytes of a payload.
pub open spec fn payload_bytes(p: Payload) -> Seq<u8> {
    words_bytes(p.words())
}

/// What reading a payload from `b` gives: six header words, then as many
/// sample words as the stored extents call for; bytes after them are not
/// read.
pub open spec fn decode_payload_spec(b: Seq<u8>) -> Result<(u32, u32, u32, Seq<u32>, Seq<u32>), CodecError> {
    if b.len() < 24 {
        Err(CodecError::Truncated)
    } else {
        let d = [word_at(b, 3), word_at(b, 4), word_at(b, 5)];
        let n = sample_count(d);
        if 24 + 4 * n > b.len() {
            Err(CodecError::Truncated)
        } else {
            Ok(
                (
                    word_at(b, 0),
                    word_at(b, 1),
                    word_at(b, 2),
                    seq![word_at(b, 3), word_at(b, 4), word_at(b, 5)],
                    Seq::new(n as nat, |i: int| word_at(b, 6 + i)),
                ),
            )
        }
    }
}

/// The payload `p` stands for what `decode_payload_spec` gave.
pub open spec fn payload_is(
    p: Payload,
    d: Result<(u32, u32, u32, Seq<u32>, Seq<u32>), CodecError>,
) -> bool {
    match d {
        Ok(v) => p.frames == v.0 && p.width == v.1 && p.height == v.2 && p.dims@ == v.3
            && p.samples@ == v.4,
        Err(_) => false,
    }
}

/// The bytes of a payload: its six header words and its samples, each as
/// four little-endian bytes.
pub fn encode_payload(p: &Payload) -> (r: Vec<u8>)
    requires
        4 * (6 + p.samples@.len()) <= usize::MAX,
    ensures
        r@ == payload_bytes(*p),
{
    let mut out: Vec<u8> = Vec::new();
    let ghost w = p.words();
    push_word(&mut out, p.frames);
    push_word(&mut out, p.width);
    push_word(&mut out, p.height);
    push_word(&mut out, p.dims[0]);
    push_word(&mut out, p.dims[1]);
    push_word(&mut out, p.dims[2]);
    assert(out@ =~= words_bytes(w.subrange(0, 6)));
    let mut i: usize = 0;
    while i < p.samples.len()
        invariant
            i <= p.samples@.len(),
            w == p.words(),
            out@ =~= words_bytes(w.subrange(0, 6 + i)),
        decreases p.samples@.len() - i,
    {
        let ghost before = out@;
        push_word(&mut out, p.samples[i]);
        assert(out@ =~= words_bytes(w.subrange(0, 6 + i + 1))) by {
            let ws = w.subrange(0, 6 + i + 1);
            assert forall|k: int| 0 <= k < out@.len() implies out@[k] == words_bytes(ws)[k] by {
                if k < before.len() {
                    assert(words_bytes(w.subrange(0, 6 + i as int))[k] == le_byte(
                        w[k / 4],
                        k % 4,
                    ));
                }
            }
        }
        i += 1;
    }
    assert(w.subrange(0, 6 + p.samples@.len() as int) =~= w);
    out
}

/// Reads a payload: the six header words, then the samples that the stored
/// extents call for. `Truncated` when the bytes end before them.
pub fn decode_payload(b: &[u8]) -> (r: Result<Payload, CodecError>)
    ensures
        r matches Ok(p) ==> p.wf() && payload_is(p, decode_payload_spec(b@)),
        r matches Err(e) ==> decode_payload_spec(b@) == Err::<(u32, u32, u32, Seq<u32>, Seq<u32>), CodecError>(e),
        r is Ok <==> decode_payload_spec(b@) is Ok,
{
    let blen = b.len();
    if blen < 24 {
        return Err(CodecError::Truncated);
    }
    let frames = read_word(b, 0);
    let width = read_word(b, 1);
    let height = read_word(b, 2);
    let d0 = read_word(b, 3);
    let d1 = read_word(b, 4);
    let d2 = read_word(b, 5);
    let ghost n = sample_count([d0, d1, d2]);
    let room: usize = (b.len() - 24) / 4;
    proof {
        assert(d0 as int * d1 as int <= 0xFFFF_FFFF * 0xFFFF_FFFF) by (nonlinear_arith)
            requires
                0 <= d0 <= 0xFFFF_FFFF,
                0 <= d1 <= 0xFFFF_FFFF,
        ;
    }
    let n01: u64 = d0 as u64 * d1 as u64;
    let count: usize = match n01.checked_mul(d2 as u64) {
        Some(c) if c <= room as u64 => c as usize,
        _ => {
            proof {
                assert(n == n01 as int * d2 as int);
                assert(n > room);
            }
            return Err(CodecError::Truncated);
        },
    };
    assert(count == n);
    let mut samples: Vec<u32> = Vec::with_capacity(count);
    let mut i: usize = 0;
    while i < count
        invariant
            i <= count,
            count == n,
            24 + 4 * count <= b@.len(),
            count <= room,
            blen == b@.len(),
            room == (b@.len() - 24) / 4,
            samples@.len() == i,
            forall|j: int| 0 <= j < i ==> #[trigger] samples@[j] == word_at(b@, 6 + j),
        decreases count - i,
    {
        samples.push(read_word(b, 6 + i));
        i += 1;
    }
    let p = Payload { frames, width, height, dims: [d0, d1, d2], samples };
    assert(p.dims@ =~= seq![d0, d1, d2]);
    assert(p.samples@ =~= Seq::new(n as nat, |j: int| word_at(b@, 6 + j)));
    Ok(p)
}

/// Reading back the bytes of a well-formed payload gives the payload.
pub proof fn lemma_payload_round_trip(p: Payload)
    requires
        p.wf(),
    ensures
        payload_is(p, decode_payload_spec(payload_bytes(p))),
{
    let w = p.words();
    let b = payload_bytes(p);
    lemma_words_round_trip(w, 0);
    lemma_words_round_trip(w, 1);
    lemma_words_round_trip(w, 2);
    lemma_words_round_trip(w, 3);
    lemma_words_round_trip(w, 4);
    lemma_words_round_trip(w, 5);
    let n = sample_count(p.dims);
    assert(b.len() == 4 * (6 + n));
    let got = Seq::new(n as nat, |i: int| word_at(b, 6 + i));
    assert forall|i: int| 0 <= i < n implies #[trigger] got[i] == p.samples@[i] by {
        lemma_words_round_trip(w, 6 + i);
    }
    assert(got =~= p.samples@);
    assert(p.dims@ =~= seq![w[3], w[4], w[5]]);
}

// ---------------------------------------------------------------------------
// Container
// ---------------------------------------------------------------------------

/// The length of the text header in front of the compressed frame.
pub const HEADER_LEN: usize = 20;

/// The compression level the container is written with.
pub const COMPRESSION_LEVEL: i32 = 8;

/// The text of the header of this format's first version.
pub open spec fn magic() -> Seq<u8> {
    seq![0x54u8, 0x54, 0x43, 0x46, 0x20, 0x76, 0x31]
}

/// The header as written: the text, padded with zero bytes.
pub open spec fn header_spec() -> Seq<u8> {
    Seq::new(20, |i: int| if i < 7 { magic()[i] } else { 0u8 })
}

/// White space as text trimming knows it in the ASCII range.
pub open spec fn is_space(c: u8) -> bool {
    c == 0x20 || (0x09 <= c <= 0x0D)
}

/// The end of `s[..e]` once trailing zero bytes are removed.
pub open spec fn strip_nul_end(s: Seq<u8>, e: int) -> int
    decreases e,
{
    if e > 0 && s[e - 1] == 0 {
        strip_nul_end(s, e - 1)
    } else {
        e
    }
}

/// The end of `s[..e]` once trailing white space is removed.
pub open spec fn strip_space_end(s: Seq<u8>, e: int) -> int
    decreases e,
{
    if e > 0 && is_space(s[e - 1]) {
        strip_space_end(s, e - 1)
    } else {
        e
    }
}

/// The start of `s[st..e]` once leading white space is removed.
pub open spec fn strip_space_start(s: Seq<u8>, st: int, e: int) -> int
    decreases e - st,
{
    if st < e && is_space(s[st]) {
        strip_space_start(s, st + 1, e)
    } else {
        st
    }
}

/// The text of a header: trailing zero bytes removed, then white space at
/// both ends.
pub open spec fn header_text(s: Seq<u8>) -> Seq<u8> {
    let e = strip_space_end(s, strip_nul_end(s, s.len() as int));
    s.subrange(strip_space_start(s, 0, e), e)
}

proof fn lemma_nul_tail(k: int)
    requires
        7 <= k <= 20,
    ensures
        strip_nul_end(header_spec(), k) == 7,
    decreases k,
{
    if k > 7 {
        assert(header_spec()[k - 1] == 0);
        lemma_nul_tail(k - 1);
    } else {
        assert(header_spec()[6] == 0x31);
    }
}

/// The header this format writes is recognised as its header.
pub proof fn lemma_header_recognised()
    ensures
        header_text(header_spec()) =~= magic(),
{
    let h = header_spec();
    lemma_nul_tail(20);
    assert(h[6] == 0x31);
    assert(strip_space_end(h, 7) == 7);
    assert(h[0] == 0x54);
    assert(strip_space_start(h, 0, 7) == 0);
    assert(h.subrange(0, 7) =~= magic());
}

/// The header of the container.
pub fn container_header() -> (r: Vec<u8>)
    ensures
        r@ == header_spec(),
{
    let mut h: Vec<u8> = vec![0x54u8, 0x54, 0x43, 0x46, 0x20, 0x76, 0x31];
    while h.len() < HEADER_LEN
        invariant
            7 <= h@.len() <= 20,
            forall|i: int| 0 <= i < h@.len() ==> #[trigger] h@[i] == header_spec()[i],
        decreases 20 - h@.len(),
    {
        h.push(0);
    }
    assert(h@ =~= header_spec());
    h
}

/// Whether `s` is the header of this format: its text, without trailing
/// zero bytes and surrounding white space, reads `TTCF v1`.
pub fn header_matches(s: &[u8]) -> (r: bool)
    ensures
        r == (header_text(s@) =~= magic()),
{
    let mut e: usize = s.len();
    while e > 0 && s[e - 1] == 0
        invariant
            e <= s@.len(),
            strip_nul_end(s@, e as int) == strip_nul_end(s@, s@.len() as int),
        decreases e,
    {
        e -= 1;
    }
    while e > 0 && (s[e - 1] == 0x20 || (0x09 <= s[e - 1] && s[e - 1] <= 0x0D))
        invariant
            e <= s@.len(),
            strip_space_end(s@, e as int) == strip_space_end(
                s@,
                strip_nul_end(s@, s@.len() as int),
            ),
        decreases e,
    {
        e -= 1;
    }
    let mut st: usize = 0;
    while st < e && (s[st] == 0x20 || (0x09 <= s[st] && s[st] <= 0x0D))
        invariant
            st <= e <= s@.len(),
            e == strip_space_end(s@, strip_nul_end(s@, s@.len() as int)),
            strip_space_start(s@, st as int, e as int) == strip_space_start(s@, 0, e as int),
        decreases e - st,
    {
        st += 1;
    }
    assert(header_text(s@) == s@.subrange(st as int, e as int));
    if e - st != 7 {
        assert(s@.subrange(st as int, e as int).len() != magic().len());
        return false;
    }
    let m: [u8; 7] = [0x54u8, 0x54, 0x43, 0x46, 0x20, 0x76, 0x31];
    assert(m@ =~= magic());
    let mut k: usize = 0;
    while k < 7
        invariant
            k <= 7,
            st + 7 == e,
            e <= s@.len(),
            m@ == magic(),
            header_text(s@) == s@.subrange(st as int, e as int),
            forall|j: int| 0 <= j < k ==> s@[st + j] == magic()[j],
        decreases 7 - k,
    {
        if s[st + k] != m[k] {
            assert(s@.subrange(st as int, e as int)[k as int] != magic()[k as int]);
            return false;
        }
        k += 1;
    }
    assert(s@.subrange(st as int, e as int) =~= magic());
    true
}

/// Names what zstd writes for `data` at `level`.
pub uninterp spec fn zstd_frame(data: Seq<u8>, level: i32) -> Seq<u8>;

/// Names whether zstd can read `data` as a frame.
pub uninterp spec fn zstd_decodes(data: Seq<u8>) -> bool;

/// Names what zstd reads out of the frame `data`.
pub uninterp spec fn zstd_content(data: Seq<u8>) -> Seq<u8>;

/// Relies on zstd::encode_all: on bytes in memory it succeeds (the level is
/// clamped, and only a failed allocation could stop it, which aborts), the
/// frame it writes is a function of the bytes and the level, and reading
/// that frame gives the bytes back.
#[verifier::external_body]
fn compress(data: &[u8], level: i32) -> (r: Option<Vec<u8>>)
    ensures
        r is Some,
        r matches Some(v) ==> v@ == zstd_frame(data@, level) && zstd_decodes(v@) && zstd_content(
            v@,
        ) == data@,
{
    zstd::encode_all(data, level).ok()
}

/// Relies on zstd::decode_all: whether it reads `data` and what it reads out
/// of it are functions of the bytes.
#[verifier::external_body]
fn decompress(data: &[u8]) -> (r: Option<Vec<u8>>)
    ensures
        r is Some <==> zstd_decodes(data@),
        r matches Some(v) ==> v@ == zstd_content(data@),
{
    zstd::decode_all(data).ok()
}

/// What reading a container gives: `Truncated` when it is shorter than the
/// header, `BadHeader` when the header is not this format's, `Corrupt` when
/// the rest is no zstd frame, else what reading a payload from the frame's
/// content gives.
pub open spec fn container_spec(b: Seq<u8>) -> Result<
    (u32, u32, u32, Seq<u32>, Seq<u32>),
    CodecError,
> {
    if b.len() < 20 {
        Err(CodecError::Truncated)
    } else if header_text(b.subrange(0, 20)) != magic() {
        Err(CodecError::BadHeader)
    } else if !zstd_decodes(b.subrange(20, b.len() as int)) {
        Err(CodecError::Corrupt)
    } else {
        decode_payload_spec(zstd_content(b.subrange(20, b.len() as int)))
    }
}

/// A container made of the header and a zstd frame whose content is the
/// bytes of a well-formed payload reads back as that payload.
pub proof fn lemma_container_round_trip(p: Payload, frame: Seq<u8>)
    requires
        p.wf(),
        zstd_decodes(frame),
        zstd_content(frame) == payload_bytes(p),
    ensures
        payload_is(p, container_spec(header_spec() + frame)),
{
    let b = header_spec() + frame;
    assert(b.subrange(0, 20) =~= header_spec());
    assert(b.subrange(20, b.len() as int) =~= frame);
    lemma_header_recognised();
    lemma_payload_round_trip(p);
}

/// The container of a payload: the header, then the payload's bytes
/// compressed. A well-formed payload reads back from it.
pub fn encode_container(p: &Payload) -> (r: Vec<u8>)
    requires
        4 * (6 + p.samples@.len()) <= usize::MAX,
    ensures
        r@ == header_spec() + zstd_frame(payload_bytes(*p), COMPRESSION_LEVEL),
        p.wf() ==> payload_is(*p, container_spec(r@)),
{
    let body = encode_payload(p);
    let frame = match compress(body.as_slice(), COMPRESSION_LEVEL) {
        Some(frame) => frame,
        None => {
            proof {
                assert(false);
            }
            Vec::new()
        },
    };
    let mut out = container_header();
    let mut i: usize = 0;
    let ghost h = out@;
    while i < frame.len()
        invariant
            i <= frame@.len(),
            out@ == h + frame@.subrange(0, i as int),
        decreases frame@.len() - i,
    {
        out.push(frame[i]);
        assert(frame@.subrange(0, i + 1) =~= frame@.subrange(0, i as int).push(frame@[i as int]));
        i += 1;
    }
    assert(frame@.subrange(0, frame@.len() as int) =~= frame@);
    proof {
        if p.wf() {
            lemma_container_round_trip(*p, frame@);
        }
    }
    out
}

/// Reads a container, as `container_spec` says.
pub fn decode_container(b: &[u8]) -> (r: Result<Payload, CodecError>)
    ensures
        r is Ok <==> container_spec(b@) is Ok,
        r matches Ok(p) ==> p.wf() && payload_is(p, container_spec(b@)),
        r matches Err(e) ==> container_spec(b@) == Err::<
            (u32, u32, u32, Seq<u32>, Seq<u32>),
            CodecError,
        >(e),
{
    if b.len() < HEADER_LEN {
        return Err(CodecError::Truncated);
    }
    let (head, rest) = b.split_at(HEADER_LEN);
    assert(head@ =~= b@.subrange(0, 20));
    assert(rest@ =~= b@.subrange(20, b@.len() as int));
    if !header_matches(head) {
        return Err(CodecError::BadHeader);
    }
    match decompress(rest) {
        Some(body) => decode_payload(body.as_slice()),
        None => Err(CodecError::Corrupt),
    }
}

} // verus!
