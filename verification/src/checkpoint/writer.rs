use vstd::prelude::*;
use vstd::bytes::*;
use vstd::utf8::encode_utf8;

use super::format::{spec_header, spec_magic, spec_record, TensorRecord, VERSION};

verus! {

/// Collects the bytes of a checkpoint in memory, field by field.
pub struct CheckpointWriter {
    bytes: Vec<u8>,
}

impl CheckpointWriter {
    /// Everything written so far.
    pub closed spec fn written(&self) -> Seq<u8> {
        self.bytes@
    }

    /// A writer that has written nothing yet.
    pub fn new() -> (w: Self)
        ensures
            w.written() == Seq::<u8>::empty(),
    {
        CheckpointWriter { bytes: Vec::new() }
    }

    /// Appends raw bytes.
    fn write_all(&mut self, data: &[u8])
        ensures
            final(self).written() == old(self).written() + data@,
    {
        self.bytes.extend_from_slice(data);
    }

    /// Writes the header announcing `tensor_count` tensors.
    pub fn write_header(&mut self, tensor_count: u32)
        ensures
            final(self).written() == old(self).written() + spec_header(tensor_count),
    {
        let magic: Vec<u8> = vec![
            71u8, 80u8, 84u8, 50u8, 95u8, 78u8, 86u8, 70u8, 80u8, 52u8, 95u8,
            67u8, 72u8, 69u8, 67u8, 75u8, 80u8, 79u8, 73u8, 78u8, 84u8, 10u8,
        ];
        assert(magic@ =~= spec_magic());
        self.write_all(magic.as_slice());
        self.write_u32(VERSION);
        self.write_u32(tensor_count);
        assert(self.written() =~= old(self).written() + spec_header(tensor_count));
    }

    /// Writes one tensor record. The name length is written as a `u32` and
    /// the other lengths as `u64`.
    pub fn write_tensor(
        &mut self,
        name: &str,
        len: usize,
        global_scale_bits: u32,
        bytes: &[u8],
        scales: &[u8],
    )
        ensures
            final(self).written() == old(self).written() + spec_record(
                TensorRecord {
                    name: name@,
                    len,
                    global_scale_bits,
                    bytes: bytes@,
                    scales: scales@,
                },
            ),
    {
        let name_bytes = name.as_bytes();
        let name_len = name_bytes.len();
        assert(name_bytes@ == encode_utf8(name@));
        self.write_u32(#[verifier::truncate] (name_len as u32));
        self.write_u64(len as u64);
        self.write_u64(bytes.len() as u64);
        self.write_u64(scales.len() as u64);
        self.write_u32(global_scale_bits);
        self.write_all(name_bytes);
        self.write_all(bytes);
        self.write_all(scales);
        assert(self.written() =~= old(self).written() + spec_record(
            TensorRecord {
                name: name@,
                len,
                global_scale_bits,
                bytes: bytes@,
                scales: scales@,
            },
        ));
    }

    /// Hands out everything written, leaving the writer empty.
    pub fn finish(&mut self) -> (out: Vec<u8>)
        ensures
            out@ == old(self).written(),
            final(self).written() == Seq::<u8>::empty(),
    {
        let mut out: Vec<u8> = Vec::new();
        out.append(&mut self.bytes);
        out
    }

    /// Writes a little-endian `u32`.
    pub fn write_u32(&mut self, value: u32)
        ensures
            final(self).written() == old(self).written() + spec_u32_to_le_bytes(value),
    {
        let b = u32_to_le_bytes(value);
        self.write_all(b.as_slice());
    }

    /// Writes a little-endian `u64`.
    pub fn write_u64(&mut self, value: u64)
        ensures
            final(self).written() == old(self).written() + spec_u64_to_le_bytes(value),
    {
        let b = u64_to_le_bytes(value);
        self.write_all(b.as_slice());
    }
}

} // verus!
