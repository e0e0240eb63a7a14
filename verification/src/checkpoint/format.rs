use vstd::prelude::*;
use vstd::bytes::*;
use vstd::utf8::*;
use vstd::string::StringExecFns;

use crate::text::{decimal_string, spec_decimal};

verus! {

/// Number of bytes in the magic line that opens every checkpoint.
pub const MAGIC_LEN: usize = 22;

/// Checkpoint format version written and accepted by this library.
pub const VERSION: u32 = 2;

/// Length of the header: magic, version, tensor count.
pub const HEADER_LEN: usize = 30;

/// Length of the fixed part of a tensor record: name length (u32), element
/// count (u64), byte count (u64), scale count (u64), global scale bits (u32).
pub const RECORD_PREFIX_LEN: usize = 32;

/// The magic line `GPT2_NVFP4_CHECKPOINT\n` as bytes.
pub open spec fn spec_magic() -> Seq<u8> {
    seq![
        71u8, 80u8, 84u8, 50u8, 95u8, 78u8, 86u8, 70u8, 80u8, 52u8, 95u8,
        67u8, 72u8, 69u8, 67u8, 75u8, 80u8, 79u8, 73u8, 78u8, 84u8, 10u8,
    ]
}

/// The header that announces `count` tensors.
pub open spec fn spec_header(count: u32) -> Seq<u8> {
    spec_magic() + spec_u32_to_le_bytes(VERSION) + spec_u32_to_le_bytes(count)
}

/// Errors of the byte-level checkpoint format.
#[derive(Clone, Copy, Debug, PartialEq, Eq, Structural)]
pub enum FormatError {
    /// The input ended before a field was complete.
    UnexpectedEof,
    /// The file does not start with the checkpoint magic line.
    InvalidMagic,
    /// The header names a version other than [`VERSION`].
    UnsupportedVersion(u32),
    /// A tensor name is not valid UTF-8.
    InvalidUtf8,
}

/// The message that reports a format error.
pub open spec fn format_message(e: FormatError) -> Seq<char> {
    match e {
        FormatError::UnexpectedEof => "failed to fill whole buffer"@,
        FormatError::InvalidMagic => "invalid GPT2 NVFP4 checkpoint magic"@,
        FormatError::UnsupportedVersion(v) => "unsupported checkpoint version "@ + spec_decimal(
            v as nat,
        ),
        FormatError::InvalidUtf8 => "invalid utf-8 in checkpoint tensor name"@,
    }
}

impl FormatError {
    /// The message that reports this error.
    pub fn message(&self) -> (r: String)
        ensures
            r@ == format_message(*self),
    {
        match self {
            FormatError::UnexpectedEof => String::from_str("failed to fill whole buffer"),
            FormatError::InvalidMagic => String::from_str("invalid GPT2 NVFP4 checkpoint magic"),
            FormatError::UnsupportedVersion(v) => {
                let mut r = String::from_str("unsupported checkpoint version ");
                r.append(decimal_string(*v as usize).as_str());
                r
            },
            FormatError::InvalidUtf8 => String::from_str("invalid utf-8 in checkpoint tensor name"),
        }
    }
}

/// What a tensor record holds, as mathematical values.
pub struct TensorRecord {
    pub name: Seq<char>,
    pub len: usize,
    pub global_scale_bits: u32,
    pub bytes: Seq<u8>,
    pub scales: Seq<u8>,
}

/// One tensor as stored in a checkpoint: its name, its element count, the
/// bit pattern of its `f32` global scale, its packed bytes and its scales.
pub struct CheckpointTensor {
    pub name: String,
    pub len: usize,
    pub global_scale_bits: u32,
    pub bytes: Vec<u8>,
    pub scales: Vec<u8>,
}

impl View for CheckpointTensor {
    type V = TensorRecord;

    open spec fn view(&self) -> TensorRecord {
        TensorRecord {
            name: self.name@,
            len: self.len,
            global_scale_bits: self.global_scale_bits,
            bytes: self.bytes@,
            scales: self.scales@,
        }
    }
}

/// The bytes of one tensor record: the fixed-size prefix, then the UTF-8
/// name, the packed bytes and the scales.
pub open spec fn spec_record(t: TensorRecord) -> Seq<u8> {
    let name = encode_utf8(t.name);
    spec_u32_to_le_bytes(name.len() as u32)
        + spec_u64_to_le_bytes(t.len as u64)
        + spec_u64_to_le_bytes(t.bytes.len() as u64)
        + spec_u64_to_le_bytes(t.scales.len() as u64)
        + spec_u32_to_le_bytes(t.global_scale_bits)
        + name + t.bytes + t.scales
}

/// The bytes of the records `ts`, one after another.
pub open spec fn spec_records(ts: Seq<TensorRecord>) -> Seq<u8>
    decreases ts.len(),
{
    if ts.len() == 0 {
        seq![]
    } else {
        spec_records(ts.drop_last()) + spec_record(ts.last())
    }
}

/// The bytes of two runs of records are the bytes of each run, in order.
pub proof fn records_concat(a: Seq<TensorRecord>, b: Seq<TensorRecord>)
    ensures
        spec_records(a + b) == spec_records(a) + spec_records(b),
    decreases b.len(),
{
    if b.len() == 0 {
        assert(a + b =~= a);
        assert(spec_records(b) =~= Seq::<u8>::empty());
        assert(spec_records(a) + spec_records(b) =~= spec_records(a));
    } else {
        records_concat(a, b.drop_last());
        assert((a + b).drop_last() =~= a + b.drop_last());
        assert((a + b).last() == b.last());
        assert(spec_records(a + b) =~= spec_records(a) + spec_records(b));
    }
}

/// Whether a record of `t` can be written and read back unchanged: every
/// length fits the width of its field.
pub open spec fn record_fits(t: TensorRecord) -> bool {
    &&& encode_utf8(t.name).len() <= u32::MAX
    &&& t.bytes.len() <= u64::MAX
    &&& t.scales.len() <= u64::MAX
}

/// Name length announced by the record prefix at the start of `s`.
pub open spec fn rec_name_len(s: Seq<u8>) -> int {
    spec_u32_from_le_bytes(s.subrange(0, 4)) as int
}

/// Element count announced by the record prefix at the start of `s`.
pub open spec fn rec_raw_len(s: Seq<u8>) -> u64 {
    spec_u64_from_le_bytes(s.subrange(4, 12))
}

/// Byte count announced by the record prefix at the start of `s`.
pub open spec fn rec_byte_len(s: Seq<u8>) -> int {
    spec_u64_from_le_bytes(s.subrange(12, 20)) as int
}

/// Scale count announced by the record prefix at the start of `s`.
pub open spec fn rec_scale_len(s: Seq<u8>) -> int {
    spec_u64_from_le_bytes(s.subrange(20, 28)) as int
}

/// Global scale bits announced by the record prefix at the start of `s`.
pub open spec fn rec_scale_bits(s: Seq<u8>) -> u32 {
    spec_u32_from_le_bytes(s.subrange(28, 32))
}

/// Offset just past the name of the record at the start of `s`.
pub open spec fn rec_name_end(s: Seq<u8>) -> int {
    RECORD_PREFIX_LEN + rec_name_len(s)
}

/// Offset just past the packed bytes of the record at the start of `s`.
pub open spec fn rec_bytes_end(s: Seq<u8>) -> int {
    rec_name_end(s) + rec_byte_len(s)
}

/// Offset just past the whole record at the start of `s`.
pub open spec fn rec_end(s: Seq<u8>) -> int {
    rec_bytes_end(s) + rec_scale_len(s)
}

/// Reading one tensor record from the start of `s`: the record and the
/// number of bytes it takes, or the error that stops the read.
pub open spec fn spec_decode_record(s: Seq<u8>) -> Result<(TensorRecord, int), FormatError> {
    if s.len() < RECORD_PREFIX_LEN || s.len() < rec_name_end(s) {
        Err(FormatError::UnexpectedEof)
    } else if !valid_utf8(s.subrange(RECORD_PREFIX_LEN as int, rec_name_end(s))) {
        Err(FormatError::InvalidUtf8)
    } else if s.len() < rec_end(s) {
        Err(FormatError::UnexpectedEof)
    } else {
        Ok(
            (
                TensorRecord {
                    name: decode_utf8(s.subrange(RECORD_PREFIX_LEN as int, rec_name_end(s))),
                    len: rec_raw_len(s) as usize,
                    global_scale_bits: rec_scale_bits(s),
                    bytes: s.subrange(rec_name_end(s), rec_bytes_end(s)),
                    scales: s.subrange(rec_bytes_end(s), rec_end(s)),
                },
                rec_end(s),
            ),
        )
    }
}

/// Reading the header from the start of `s`: the announced tensor count, or
/// the error that stops the read.
pub open spec fn spec_decode_header(s: Seq<u8>) -> Result<u32, FormatError> {
    if s.len() < MAGIC_LEN {
        Err(FormatError::UnexpectedEof)
    } else if s.subrange(0, MAGIC_LEN as int) != spec_magic() {
        Err(FormatError::InvalidMagic)
    } else if s.len() < MAGIC_LEN + 4 {
        Err(FormatError::UnexpectedEof)
    } else if spec_u32_from_le_bytes(s.subrange(22, 26)) != VERSION {
        Err(FormatError::UnsupportedVersion(spec_u32_from_le_bytes(s.subrange(22, 26))))
    } else if s.len() < HEADER_LEN {
        Err(FormatError::UnexpectedEof)
    } else {
        Ok(spec_u32_from_le_bytes(s.subrange(26, 30)))
    }
}

/// A header read back from the bytes written for it gives the same count,
/// whatever follows the header.
pub proof fn header_roundtrip(count: u32, rest: Seq<u8>)
    ensures
        spec_header(count).len() == HEADER_LEN,
        spec_decode_header(spec_header(count) + rest) == Ok::<u32, FormatError>(count),
        (spec_header(count) + rest).skip(HEADER_LEN as int) == rest,
{
    lemma_auto_spec_u32_to_from_le_bytes();
    let h = spec_header(count);
    let s = h + rest;
    assert(s.subrange(0, 22) =~= spec_magic());
    assert(s.subrange(22, 26) =~= spec_u32_to_le_bytes(VERSION));
    assert(s.subrange(26, 30) =~= spec_u32_to_le_bytes(count));
    assert(s.skip(30) =~= rest);
}

/// A tensor record read back from the bytes written for it gives the same
/// tensor and takes exactly those bytes, whatever follows the record.
pub proof fn record_roundtrip(t: TensorRecord, rest: Seq<u8>)
    requires
        record_fits(t),
    ensures
        spec_decode_record(spec_record(t) + rest) == Ok::<(TensorRecord, int), FormatError>(
            (t, spec_record(t).len() as int),
        ),
        (spec_record(t) + rest).skip(spec_record(t).len() as int) == rest,
{
    lemma_auto_spec_u32_to_from_le_bytes();
    lemma_auto_spec_u64_to_from_le_bytes();
    encode_utf8_valid_utf8(t.name);
    encode_utf8_decode_utf8(t.name);
    let name = encode_utf8(t.name);
    let r = spec_record(t);
    let s = r + rest;
    let nl = name.len() as int;
    let bl = t.bytes.len() as int;
    let sl = t.scales.len() as int;
    assert(s.subrange(0, 4) =~= spec_u32_to_le_bytes(name.len() as u32));
    assert(s.subrange(4, 12) =~= spec_u64_to_le_bytes(t.len as u64));
    assert(s.subrange(12, 20) =~= spec_u64_to_le_bytes(t.bytes.len() as u64));
    assert(s.subrange(20, 28) =~= spec_u64_to_le_bytes(t.scales.len() as u64));
    assert(s.subrange(28, 32) =~= spec_u32_to_le_bytes(t.global_scale_bits));
    assert(rec_name_len(s) == nl);
    assert(rec_byte_len(s) == bl);
    assert(rec_scale_len(s) == sl);
    assert(r.len() == 32 + nl + bl + sl);
    assert(s.subrange(32, 32 + nl) =~= name);
    assert(s.subrange(32 + nl, 32 + nl + bl) =~= t.bytes);
    assert(s.subrange(32 + nl + bl, 32 + nl + bl + sl) =~= t.scales);
    assert(((t.len as u64) as usize) == t.len);
    assert(s.skip(r.len() as int) =~= rest);
}

/// Layout of the header: the magic line `GPT2_NVFP4_CHECKPOINT\n` in bytes
/// 0 to 22, the format version 2 as a little-endian `u32` in bytes 22 to
/// 26, and the tensor count as a little-endian `u32` in bytes 26 to 30.
pub proof fn header_layout(count: u32)
    ensures
        spec_header(count).len() == 30,
        spec_header(count).subrange(0, 22) == seq![
            71u8, 80u8, 84u8, 50u8, 95u8, 78u8, 86u8, 70u8, 80u8, 52u8, 95u8,
            67u8, 72u8, 69u8, 67u8, 75u8, 80u8, 79u8, 73u8, 78u8, 84u8, 10u8,
        ],
        spec_u32_from_le_bytes(spec_header(count).subrange(22, 26)) == 2,
        spec_u32_from_le_bytes(spec_header(count).subrange(26, 30)) == count,
{
    lemma_auto_spec_u32_to_from_le_bytes();
    let h = spec_header(count);
    assert(h.subrange(0, 22) =~= spec_magic());
    assert(h.subrange(22, 26) =~= spec_u32_to_le_bytes(VERSION));
    assert(h.subrange(26, 30) =~= spec_u32_to_le_bytes(count));
}

/// Layout of a tensor record: the name's UTF-8 length as a little-endian
/// `u32` in bytes 0 to 4, then as little-endian `u64`s the element count
/// (bytes 4 to 12), the packed byte count (12 to 20) and the scale count
/// (20 to 28), the global scale bits as a little-endian `u32` (28 to 32),
/// and after that the UTF-8 name, the packed bytes and the scales.
pub proof fn record_layout(t: TensorRecord)
    requires
        record_fits(t),
    ensures
        ({
            let r = spec_record(t);
            let nl = encode_utf8(t.name).len() as int;
            let bl = t.bytes.len() as int;
            &&& r.len() == 32 + nl + bl + t.scales.len()
            &&& spec_u32_from_le_bytes(r.subrange(0, 4)) == nl
            &&& spec_u64_from_le_bytes(r.subrange(4, 12)) == t.len
            &&& spec_u64_from_le_bytes(r.subrange(12, 20)) == bl
            &&& spec_u64_from_le_bytes(r.subrange(20, 28)) == t.scales.len()
            &&& spec_u32_from_le_bytes(r.subrange(28, 32)) == t.global_scale_bits
            &&& r.subrange(32, 32 + nl) == encode_utf8(t.name)
            &&& r.subrange(32 + nl, 32 + nl + bl) == t.bytes
            &&& r.subrange(32 + nl + bl, r.len() as int) == t.scales
        }),
{
    lemma_auto_spec_u32_to_from_le_bytes();
    lemma_auto_spec_u64_to_from_le_bytes();
    let name = encode_utf8(t.name);
    let r = spec_record(t);
    let nl = name.len() as int;
    let bl = t.bytes.len() as int;
    assert(r.subrange(0, 4) =~= spec_u32_to_le_bytes(name.len() as u32));
    assert(r.subrange(4, 12) =~= spec_u64_to_le_bytes(t.len as u64));
    assert(r.subrange(12, 20) =~= spec_u64_to_le_bytes(t.bytes.len() as u64));
    assert(r.subrange(20, 28) =~= spec_u64_to_le_bytes(t.scales.len() as u64));
    assert(r.subrange(28, 32) =~= spec_u32_to_le_bytes(t.global_scale_bits));
    assert(r.subrange(32, 32 + nl) =~= name);
    assert(r.subrange(32 + nl, 32 + nl + bl) =~= t.bytes);
    assert(r.subrange(32 + nl + bl, r.len() as int) =~= t.scales);
}

} // verus!
