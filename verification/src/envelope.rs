//! Text envelope around the binary payload.
//!
//! A persisted request is the ascii85 encoding of a version tag byte
//! followed by the zlib-compressed payload.  Compression and the base-85
//! text form come from outside crates; their results are named here and the
//! envelope functions are specified exactly over those names.

use vstd::prelude::*;

use crate::codec::{read_call, read_test, spec_parse_call, spec_parse_test, spec_ser_call,
    spec_ser_test, write_call, write_test, CallRep, RaycastingCall, TestCase, TestRep,
    CURRENT_VERSION};

verus! {

/// The ascii85 text of a byte string.
pub uninterp spec fn a85_of(data: Seq<u8>) -> Seq<char>;

/// The ascii85 decoding of a text, where the text decodes at all.
pub uninterp spec fn a85_decode_of(text: Seq<char>) -> Option<Seq<u8>>;

/// The zlib stream the compressor produces for a byte string.
pub uninterp spec fn deflate_of(data: Seq<u8>) -> Seq<u8>;

/// The decompression of a byte string, where it is a well-formed zlib
/// stream.
pub uninterp spec fn inflate_of(data: Seq<u8>) -> Option<Seq<u8>>;

/// Relies on ascii85::encode: the Adobe-framed base-85 text of the bytes, a
/// pure function of them, which ascii85::decode inverts.
#[verifier::external_body]
fn a85_encode(data: &Vec<u8>) -> (r: String)
    ensures
        r@ == a85_of(data@),
        a85_decode_of(r@) == Some(data@),
{
    ascii85::encode(data)
}

// ---------------------------------------------------------------------------
// Guard against decoder overflow
//
// The base-85 decoder accumulates each 5-digit group in a 32-bit counter, so
// a group whose value exceeds that range makes it panic (in debug builds).
// The functions below replay the decoder's own trimming, framing and
// grouping exactly, over the characters, and flag precisely those texts;
// they are rejected before the decoder is ever called.
// ---------------------------------------------------------------------------

/// The characters the decoder's outer trimming strips: the whitespace
/// characters of the ASCII range (space and the five controls 9 to 13).
pub open spec fn spec_a85_trim_white(c: int) -> bool {
    c == 32 || (9 <= c <= 13)
}

/// The characters the decoder skips between digits: ASCII whitespace,
/// which leaves out the vertical tab.
pub open spec fn spec_a85_group_white(c: int) -> bool {
    c == 32 || c == 9 || c == 10 || c == 12 || c == 13
}

/// Weight of the digit at the given position of a 5-digit group: the
/// descending powers of 85.
pub open spec fn spec_a85_weight(counter: int) -> int {
    if counter == 0 {
        52200625
    } else if counter == 1 {
        614125
    } else if counter == 2 {
        7225
    } else if counter == 3 {
        85
    } else {
        1
    }
}

/// Sum of the weights from the given position to the end of a group: what
/// the decoder's final padding digits multiply.
pub open spec fn spec_a85_pad_tail(counter: int) -> int {
    if counter == 0 {
        0
    } else if counter == 1 {
        621436
    } else if counter == 2 {
        7311
    } else if counter == 3 {
        86
    } else {
        1
    }
}

/// First position at or after `i` that does not hold outer whitespace.
pub open spec fn spec_a85_past_leading_white(s: Seq<char>, i: int) -> int
    decreases s.len() - i,
{
    if 0 <= i < s.len() && spec_a85_trim_white(s[i] as int) {
        spec_a85_past_leading_white(s, i + 1)
    } else {
        i
    }
}

/// First position at or after `i` once every leading `<~` frame marker is
/// stripped.
pub open spec fn spec_a85_past_leading_frames(s: Seq<char>, i: int) -> int
    decreases s.len() - i,
{
    if 0 <= i && i + 2 <= s.len() && s[i] as int == 60 && s[i + 1] as int == 126 {
        spec_a85_past_leading_frames(s, i + 2)
    } else {
        i
    }
}

/// Last position at or before `j`, not below `lo`, with no outer
/// whitespace behind it.
pub open spec fn spec_a85_before_trailing_white(s: Seq<char>, lo: int, j: int) -> int
    decreases j - lo,
{
    if lo < j <= s.len() && spec_a85_trim_white(s[j - 1] as int) {
        spec_a85_before_trailing_white(s, lo, j - 1)
    } else {
        j
    }
}

/// Last position at or before `j` once every trailing `~>` frame marker is
/// stripped.
pub open spec fn spec_a85_before_trailing_frames(s: Seq<char>, lo: int, j: int) -> int
    decreases j - lo,
{
    if lo + 2 <= j <= s.len() && s[j - 2] as int == 126 && s[j - 1] as int == 62 {
        spec_a85_before_trailing_frames(s, lo, j - 2)
    } else {
        j
    }
}

/// Replays the decoder's digit walk from position `i` with the given group
/// state: true exactly when a 32-bit group accumulation would overflow.
/// Inner whitespace is skipped, the walk stops at the first character
/// outside the digit range (where the decoder reports an error instead),
/// and a trailing partial group is padded with the top digit, as the
/// decoder pads it.
pub open spec fn spec_a85_overflows(s: Seq<char>, i: int, end: int, counter: int, chunk: int) -> bool
    decreases end - i,
{
    if !(0 <= i < end && end <= s.len()) {
        counter != 0 && chunk + 84 * spec_a85_pad_tail(counter) > 0xFFFF_FFFF
    } else {
        let c = s[i] as int;
        if spec_a85_group_white(c) {
            spec_a85_overflows(s, i + 1, end, counter, chunk)
        } else if c < 33 || c > 117 {
            false
        } else {
            let next = chunk + (c - 33) * spec_a85_weight(counter);
            if next > 0xFFFF_FFFF {
                true
            } else if counter == 4 {
                spec_a85_overflows(s, i + 1, end, 0, 0)
            } else {
                spec_a85_overflows(s, i + 1, end, counter + 1, next)
            }
        }
    }
}

/// Whether the decoder accepts the text without its group accumulator
/// overflowing: the text is ASCII and, after the decoder's own trimming
/// and frame stripping, every 5-digit group value fits in 32 bits.
pub open spec fn spec_a85_text_safe(s: Seq<char>) -> bool {
    &&& vstd::utf8::is_ascii_chars(s)
    &&& {
        let i0 = spec_a85_past_leading_white(s, 0);
        let i1 = spec_a85_past_leading_frames(s, i0);
        let j0 = spec_a85_before_trailing_white(s, i1, s.len() as int);
        let j1 = spec_a85_before_trailing_frames(s, i1, j0);
        !spec_a85_overflows(s, i1, j1, 0, 0)
    }
}

fn a85_weight(counter: u32) -> (r: u64)
    ensures
        r == spec_a85_weight(counter as int),
{
    if counter == 0 {
        52200625
    } else if counter == 1 {
        614125
    } else if counter == 2 {
        7225
    } else if counter == 3 {
        85
    } else {
        1
    }
}

fn a85_pad_tail(counter: u32) -> (r: u64)
    ensures
        r == spec_a85_pad_tail(counter as int),
{
    if counter == 0 {
        0
    } else if counter == 1 {
        621436
    } else if counter == 2 {
        7311
    } else if counter == 3 {
        86
    } else {
        1
    }
}

/// Decides `spec_a85_text_safe` for a given text.
fn a85_text_is_safe(text: &str) -> (r: bool)
    ensures
        r == spec_a85_text_safe(text@),
{
    broadcast use vstd::string::is_ascii_spec_bytes;
    broadcast use vstd::utf8::is_ascii_chars_nat_bound;

    if !text.is_ascii() {
        return false;
    }
    let bytes: &[u8] = text.as_bytes();
    let ghost s = text@;
    proof {
        assert(bytes@.len() == s.len());
        assert(forall|k: int| 0 <= k < s.len() ==> bytes@[k] == #[trigger] s[k] as u8);
        assert(forall|k: int| 0 <= k < s.len() ==> (#[trigger] s[k] as int) < 128);
        assert(forall|k: int| 0 <= k < s.len() ==> bytes@[k] as int == #[trigger] s[k] as int);
    }
    let n: usize = bytes.len();

    let mut i: usize = 0;
    while i < n && (bytes[i] == 32 || (9 <= bytes[i] && bytes[i] <= 13))
        invariant
            i <= n,
            n == s.len(),
            bytes@.len() == n,
            forall|k: int| 0 <= k < s.len() ==> bytes@[k] as int == #[trigger] s[k] as int,
            spec_a85_past_leading_white(s, 0) == spec_a85_past_leading_white(s, i as int),
        decreases n - i,
    {
        i = i + 1;
    }
    let i1_start: usize = i;
    proof {
        assert(spec_a85_past_leading_white(s, 0) == i1_start as int);
    }

    while i < n && i + 1 < n && bytes[i] == 60 && bytes[i + 1] == 126
        invariant
            i1_start <= i <= n,
            n == s.len(),
            bytes@.len() == n,
            forall|k: int| 0 <= k < s.len() ==> bytes@[k] as int == #[trigger] s[k] as int,
            spec_a85_past_leading_frames(s, i1_start as int) == spec_a85_past_leading_frames(s, i as int),
        decreases n - i,
    {
        i = i + 2;
    }
    let i1: usize = i;
    proof {
        assert(spec_a85_past_leading_frames(s, i1_start as int) == i1 as int);
    }

    let mut j: usize = n;
    while j > i1 && (bytes[j - 1] == 32 || (9 <= bytes[j - 1] && bytes[j - 1] <= 13))
        invariant
            i1 <= j <= n,
            n == s.len(),
            bytes@.len() == n,
            forall|k: int| 0 <= k < s.len() ==> bytes@[k] as int == #[trigger] s[k] as int,
            spec_a85_before_trailing_white(s, i1 as int, n as int)
                == spec_a85_before_trailing_white(s, i1 as int, j as int),
        decreases j,
    {
        j = j - 1;
    }
    proof {
        assert(spec_a85_before_trailing_white(s, i1 as int, n as int) == j as int);
    }
    let ghost j0 = j as int;

    while j >= 2 && j - 2 >= i1 && bytes[j - 2] == 126 && bytes[j - 1] == 62
        invariant
            i1 <= j <= n,
            n == s.len(),
            bytes@.len() == n,
            forall|k: int| 0 <= k < s.len() ==> bytes@[k] as int == #[trigger] s[k] as int,
            spec_a85_before_trailing_frames(s, i1 as int, j0)
                == spec_a85_before_trailing_frames(s, i1 as int, j as int),
        decreases j,
    {
        j = j - 2;
    }
    let j1: usize = j;
    proof {
        assert(spec_a85_before_trailing_frames(s, i1 as int, j0) == j1 as int);
    }

    proof {
        assert(spec_a85_text_safe(s) == !spec_a85_overflows(s, i1 as int, j1 as int, 0, 0));
    }
    let mut k: usize = i1;
    let mut counter: u32 = 0;
    let mut chunk: u64 = 0;
    while k < j1
        invariant
            s == text@,
            i1 <= k <= j1 <= n,
            n == s.len(),
            bytes@.len() == n,
            counter <= 4,
            chunk <= 0xFFFF_FFFF,
            forall|m: int| 0 <= m < s.len() ==> bytes@[m] as int == #[trigger] s[m] as int,
            spec_a85_text_safe(s)
                == !spec_a85_overflows(s, k as int, j1 as int, counter as int, chunk as int),
        decreases j1 - k,
    {
        proof {
            assert(bytes@[k as int] as int == s[k as int] as int);
        }
        let b: u8 = bytes[k];
        if b == 32 || b == 9 || b == 10 || b == 12 || b == 13 {
            k = k + 1;
        } else if b < 33 || b > 117 {
            // The decoder stops with an error here; nothing can overflow.
            proof {
                assert(!spec_a85_overflows(s, k as int, j1 as int, counter as int, chunk as int));
            }
            return true;
        } else {
            let w: u64 = a85_weight(counter);
            proof {
                assert(w <= 52200625);
                assert(((b - 33) as int) * (w as int) <= 84 * 52200625) by (nonlinear_arith)
                    requires
                        0 <= (b - 33) as int <= 84,
                        0 <= w as int <= 52200625,
                ;
            }
            let next: u64 = chunk + ((b - 33) as u64) * w;
            if next > 0xFFFF_FFFF {
                proof {
                    assert(spec_a85_overflows(s, k as int, j1 as int, counter as int, chunk as int));
                }
                return false;
            }
            if counter == 4 {
                counter = 0;
                chunk = 0;
            } else {
                counter = counter + 1;
                chunk = next;
            }
            k = k + 1;
        }
    }
    let tail: u64 = a85_pad_tail(counter);
    proof {
        assert(tail <= 621436);
    }
    if counter != 0 && chunk + 84 * tail > 0xFFFF_FFFF {
        return false;
    }
    true
}

/// Relies on ascii85::decode: a pure function of the text that rejects
/// characters outside the base-85 alphabet.  Its 32-bit group accumulator
/// overflows on texts with a too-large 5-digit group, so the precondition
/// admits only texts whose groups all fit.
#[verifier::external_body]
fn a85_decode(text: &str) -> (r: Option<Vec<u8>>)
    requires
        spec_a85_text_safe(text@),
    ensures
        match r {
            Some(d) => a85_decode_of(text@) == Some(d@),
            None => a85_decode_of(text@) is None,
        },
{
    match ascii85::decode(text) {
        Ok(d) => Some(d),
        Err(_) => None,
    }
}

/// Relies on yazi::compress with the zlib format at a fixed level: a pure
/// function of the input whose output yazi::decompress restores.
/// Compressing into a vector cannot fail — the vector sink's `write` and
/// `put_bits` always return `Ok` and a fresh stream is never finished — so
/// the result is unconditional.
#[verifier::external_body]
fn zlib_compress(data: &Vec<u8>) -> (r: Vec<u8>)
    ensures
        r@ == deflate_of(data@),
        inflate_of(r@) == Some(data@),
{
    yazi::compress(data, yazi::Format::Zlib, yazi::CompressionLevel::BestSize).unwrap()
}

/// Relies on yazi::decompress with the zlib format: a pure function of the
/// input bytes, failing exactly on malformed streams.
#[verifier::external_body]
fn zlib_decompress(data: &Vec<u8>) -> (r: Option<Vec<u8>>)
    ensures
        match r {
            Some(d) => inflate_of(data@) == Some(d@),
            None => inflate_of(data@) is None,
        },
{
    match yazi::decompress(data, yazi::Format::Zlib) {
        Ok((d, _)) => Some(d),
        Err(_) => None,
    }
}

/// Why a text envelope was rejected.
#[derive(Debug, Copy, Clone, PartialEq, Eq, Structural)]
pub enum EnvelopeError {
    /// The text is not valid ascii85.
    BadAscii85,
    /// The version tag is newer than this library understands.
    UnknownVersion,
    /// The compressed body is not a well-formed zlib stream.
    BadCompression,
    /// The decompressed payload does not parse under the tagged version.
    Malformed,
}

/// The text envelope of a payload: version tag, zlib body, ascii85 text.
pub open spec fn spec_envelope_of(payload: Seq<u8>) -> Seq<char> {
    a85_of(seq![CURRENT_VERSION] + deflate_of(payload))
}

/// Exact outcome of decoding a request envelope, step by step: ascii85,
/// version check, zlib, payload parse.  Trailing payload bytes after the
/// request are tolerated, as the format has always done.  A text whose
/// base-85 groups would overflow the decoder's 32-bit accumulator is
/// rejected as bad ascii85 up front, before the decoder sees it.
pub open spec fn spec_decode_envelope(text: Seq<char>) -> Result<CallRep, EnvelopeError> {
    if !spec_a85_text_safe(text) {
        Err(EnvelopeError::BadAscii85)
    } else {
        spec_decode_safe_envelope(text)
    }
}

/// Decode of a request envelope whose text the decoder can take.
pub open spec fn spec_decode_safe_envelope(text: Seq<char>) -> Result<CallRep, EnvelopeError> {
    match a85_decode_of(text) {
        None => Err(EnvelopeError::BadAscii85),
        Some(framed) => if framed.len() == 0 {
            Err(EnvelopeError::Malformed)
        } else if framed[0] > CURRENT_VERSION {
            Err(EnvelopeError::UnknownVersion)
        } else {
            match inflate_of(framed.skip(1)) {
                None => Err(EnvelopeError::BadCompression),
                Some(payload) => match spec_parse_call(payload, 0, framed[0]) {
                    None => Err(EnvelopeError::Malformed),
                    Some((c, _)) => Ok(c),
                },
            }
        },
    }
}

/// Exact outcome of decoding a test case envelope, with the same
/// accumulator-overflow gate as the request envelope.
pub open spec fn spec_decode_test_envelope(text: Seq<char>) -> Result<TestRep, EnvelopeError> {
    if !spec_a85_text_safe(text) {
        Err(EnvelopeError::BadAscii85)
    } else {
        spec_decode_safe_test_envelope(text)
    }
}

/// Decode of a test case envelope whose text the decoder can take.
pub open spec fn spec_decode_safe_test_envelope(text: Seq<char>) -> Result<TestRep, EnvelopeError> {
    match a85_decode_of(text) {
        None => Err(EnvelopeError::BadAscii85),
        Some(framed) => if framed.len() == 0 {
            Err(EnvelopeError::Malformed)
        } else if framed[0] > CURRENT_VERSION {
            Err(EnvelopeError::UnknownVersion)
        } else {
            match inflate_of(framed.skip(1)) {
                None => Err(EnvelopeError::BadCompression),
                Some(payload) => match spec_parse_test(payload, 0, framed[0]) {
                    None => Err(EnvelopeError::Malformed),
                    Some((t, _)) => Ok(t),
                },
            }
        },
    }
}

/// Serializes a request into its text envelope: exactly the envelope of
/// the request's byte image, and decoding the text is guaranteed to
/// restore that image.
pub fn serialize_ascii85(call: &RaycastingCall) -> (r: String)
    requires
        call.walls@.len() < 0x1_0000_0000,
        call.roofs@.len() < 0x1_0000_0000,
    ensures
        r@ == spec_envelope_of(spec_ser_call(call@)),
        a85_decode_of(r@) == Some(seq![CURRENT_VERSION] + deflate_of(spec_ser_call(call@))),
        inflate_of(deflate_of(spec_ser_call(call@))) == Some(spec_ser_call(call@)),
{
    let mut payload: Vec<u8> = Vec::new();
    write_call(&mut payload, call);
    let mut compressed = zlib_compress(&payload);
    let mut framed: Vec<u8> = Vec::new();
    framed.push(CURRENT_VERSION);
    framed.append(&mut compressed);
    proof {
        assert(framed@ =~= seq![CURRENT_VERSION] + deflate_of(spec_ser_call(call@)));
    }
    a85_encode(&framed)
}

/// Serializes a recorded test case into its text envelope.
pub fn serialize_test_ascii85(test: &TestCase) -> (r: String)
    requires
        test.call.walls@.len() < 0x1_0000_0000,
        test.call.roofs@.len() < 0x1_0000_0000,
        test.los@.len() < 0x1_0000_0000,
        test.fov@.len() < 0x1_0000_0000,
    ensures
        r@ == spec_envelope_of(spec_ser_test(test@)),
        a85_decode_of(r@) == Some(seq![CURRENT_VERSION] + deflate_of(spec_ser_test(test@))),
        inflate_of(deflate_of(spec_ser_test(test@))) == Some(spec_ser_test(test@)),
{
    let mut payload: Vec<u8> = Vec::new();
    write_test(&mut payload, test);
    let mut compressed = zlib_compress(&payload);
    let mut framed: Vec<u8> = Vec::new();
    framed.push(CURRENT_VERSION);
    framed.append(&mut compressed);
    proof {
        assert(framed@ =~= seq![CURRENT_VERSION] + deflate_of(spec_ser_test(test@)));
    }
    a85_encode(&framed)
}

/// Parses a text envelope back into a request, reporting exactly which
/// stage rejected a malformed one.
pub fn deserialize_ascii85(input: &str) -> (r: Result<RaycastingCall, EnvelopeError>)
    ensures
        match r {
            Ok(c) => spec_decode_envelope(input@) == Ok::<CallRep, EnvelopeError>(c@),
            Err(e) => spec_decode_envelope(input@) == Err::<CallRep, EnvelopeError>(e),
        },
{
    if !a85_text_is_safe(input) {
        return Err(EnvelopeError::BadAscii85);
    }
    let mut framed = match a85_decode(input) {
        None => { return Err(EnvelopeError::BadAscii85); },
        Some(d) => d,
    };
    if framed.len() == 0 {
        return Err(EnvelopeError::Malformed);
    }
    let version = framed[0];
    if version > CURRENT_VERSION {
        return Err(EnvelopeError::UnknownVersion);
    }
    let ghost framed0 = framed@;
    let body = framed.split_off(1);
    proof {
        assert(body@ =~= framed0.skip(1));
    }
    let payload = match zlib_decompress(&body) {
        None => { return Err(EnvelopeError::BadCompression); },
        Some(p) => p,
    };
    match read_call(&payload, 0, version) {
        None => Err(EnvelopeError::Malformed),
        Some((c, _)) => Ok(c),
    }
}

/// Parses a text envelope back into a recorded test case.
pub fn deserialize_test_ascii85(input: &str) -> (r: Result<TestCase, EnvelopeError>)
    ensures
        match r {
            Ok(t) => spec_decode_test_envelope(input@) == Ok::<TestRep, EnvelopeError>(t@),
            Err(e) => spec_decode_test_envelope(input@) == Err::<TestRep, EnvelopeError>(e),
        },
{
    if !a85_text_is_safe(input) {
        return Err(EnvelopeError::BadAscii85);
    }
    let mut framed = match a85_decode(input) {
        None => { return Err(EnvelopeError::BadAscii85); },
        Some(d) => d,
    };
    if framed.len() == 0 {
        return Err(EnvelopeError::Malformed);
    }
    let version = framed[0];
    if version > CURRENT_VERSION {
        return Err(EnvelopeError::UnknownVersion);
    }
    let ghost framed0 = framed@;
    let body = framed.split_off(1);
    proof {
        assert(body@ =~= framed0.skip(1));
    }
    let payload = match zlib_decompress(&body) {
        None => { return Err(EnvelopeError::BadCompression); },
        Some(p) => p,
    };
    match read_test(&payload, 0, version) {
        None => Err(EnvelopeError::Malformed),
        Some((t, _)) => Ok(t),
    }
}

} // verus!
