use vstd::prelude::*;
use vstd::bytes::*;
use vstd::slice::*;
use vstd::utf8::*;

use super::format::{
    rec_end, rec_name_end, rec_bytes_end, spec_decode_header, spec_decode_record,
    spec_magic, CheckpointTensor, FormatError, HEADER_LEN, MAGIC_LEN, VERSION,
};

verus! {

/// `String::from_utf8`: the call succeeds exactly when the bytes are valid
/// UTF-8, and the string then holds the characters they encode.
#[verifier::external_body]
fn string_from_utf8(bytes: Vec<u8>) -> (r: Option<String>)
    ensures
        r is Some <==> valid_utf8(bytes@),
        r matches Some(s) ==> s@ == decode_utf8(bytes@),
{
    String::from_utf8(bytes).ok()
}

/// The magic line as a vector of bytes.
fn magic_bytes() -> (v: Vec<u8>)
    ensures
        v@ == spec_magic(),
{
    let v: Vec<u8> = vec![
        71u8, 80u8, 84u8, 50u8, 95u8, 78u8, 86u8, 70u8, 80u8, 52u8, 95u8,
        67u8, 72u8, 69u8, 67u8, 75u8, 80u8, 79u8, 73u8, 78u8, 84u8, 10u8,
    ];
    assert(v@ =~= spec_magic());
    v
}

/// Reads checkpoint fields in order from an in-memory byte buffer.
pub struct CheckpointReader {
    bytes: Vec<u8>,
    pos: usize,
}

impl CheckpointReader {
    #[verifier::type_invariant]
    spec fn inv(self) -> bool {
        self.pos <= self.bytes.len()
    }

    /// The bytes that have not been read yet.
    pub closed spec fn remaining(&self) -> Seq<u8> {
        self.bytes@.subrange(self.pos as int, self.bytes@.len() as int)
    }

    /// All bytes the reader was made with, read or not.
    pub closed spec fn source(&self) -> Seq<u8> {
        self.bytes@
    }

    /// A reader positioned at the start of `bytes`.
    pub fn new(bytes: Vec<u8>) -> (r: Self)
        ensures
            r.remaining() == bytes@,
            r.source() == bytes@,
    {
        let r = CheckpointReader { bytes, pos: 0 };
        assert(r.remaining() =~= r.bytes@);
        r
    }

    /// Takes the next `n` bytes, or fails with `UnexpectedEof` when fewer remain.
    fn read_bytes(&mut self, n: u64) -> (r: Result<Vec<u8>, FormatError>)
        ensures
            final(self).source() == old(self).source(),
            n > old(self).remaining().len() ==> r == Err::<Vec<u8>, FormatError>(
                FormatError::UnexpectedEof,
            ),
            n <= old(self).remaining().len() ==> {
                &&& r matches Ok(v) && v@ == old(self).remaining().take(n as int)
                &&& final(self).remaining() == old(self).remaining().skip(n as int)
            },
    {
        proof {
            use_type_invariant(&*self);
        }
        let avail = self.bytes.len() - self.pos;
        if n > avail as u64 {
            return Err(FormatError::UnexpectedEof);
        }
        let k = n as usize;
        let v = slice_to_vec(slice_subrange(self.bytes.as_slice(), self.pos, self.pos + k));
        self.pos = self.pos + k;
        proof {
            assert(v@ =~= old(self).remaining().take(n as int));
            assert(self.remaining() =~= old(self).remaining().skip(n as int));
        }
        Ok(v)
    }

    /// Reads the header: checks the magic line and the version and returns
    /// the announced tensor count.
    pub fn read_header(&mut self) -> (r: Result<u32, FormatError>)
        ensures
            final(self).source() == old(self).source(),
            r == spec_decode_header(old(self).remaining()),
            r is Ok ==> final(self).remaining() == old(self).remaining().skip(HEADER_LEN as int),
    {
        let ghost s = self.remaining();
        let magic = self.read_bytes(MAGIC_LEN as u64)?;
        let expected = magic_bytes();
        if !(magic == expected) {
            proof {
                assert(magic@ != spec_magic());
            }
            return Err(FormatError::InvalidMagic);
        }
        proof {
            assert(magic@ =~= spec_magic());
            assert(s.subrange(0, 22) =~= magic@);
            if s.len() >= 26 {
                assert(s.skip(22).take(4) =~= s.subrange(22, 26));
            }
        }
        let version = self.read_u32()?;
        if version != VERSION {
            return Err(FormatError::UnsupportedVersion(version));
        }
        proof {
            if s.len() >= 30 {
                assert(s.skip(22).skip(4).take(4) =~= s.subrange(26, 30));
                assert(s.skip(22).skip(4).skip(4) =~= s.skip(30));
            }
        }
        self.read_u32()
    }

    /// Reads one tensor record: its fixed-size prefix, its UTF-8 name, its
    /// packed bytes and its scales.
    pub fn read_tensor(&mut self) -> (r: Result<CheckpointTensor, FormatError>)
        ensures
            final(self).source() == old(self).source(),
            match spec_decode_record(old(self).remaining()) {
                Ok((t, n)) => {
                    &&& r matches Ok(v) && v@ == t
                    &&& final(self).remaining() == old(self).remaining().skip(n)
                },
                Err(e) => r == Err::<CheckpointTensor, FormatError>(e),
            },
    {
        let ghost s = self.remaining();
        let name_len = self.read_u32()?;
        let len = self.read_u64()?;
        let byte_len = self.read_u64()?;
        let scale_len = self.read_u64()?;
        let global_scale_bits = self.read_u32()?;
        proof {
            assert(s.skip(4).take(8) =~= s.subrange(4, 12));
            assert(s.skip(4).skip(8).take(8) =~= s.subrange(12, 20));
            assert(s.skip(4).skip(8).skip(8).take(8) =~= s.subrange(20, 28));
            assert(s.skip(4).skip(8).skip(8).skip(8).take(4) =~= s.subrange(28, 32));
            assert(s.skip(4).skip(8).skip(8).skip(8).skip(4) =~= s.skip(32));
            assert(s.take(4) =~= s.subrange(0, 4));
            assert(self.remaining() =~= s.skip(32));
        }
        let name_bytes = self.read_bytes(name_len as u64)?;
        proof {
            assert(name_bytes@ =~= s.subrange(32, rec_name_end(s)));
            assert(self.remaining() =~= s.skip(rec_name_end(s)));
        }
        let name = match string_from_utf8(name_bytes) {
            Some(name) => name,
            None => return Err(FormatError::InvalidUtf8),
        };
        let bytes = self.read_bytes(byte_len)?;
        proof {
            assert(bytes@ =~= s.subrange(rec_name_end(s), rec_bytes_end(s)));
            assert(self.remaining() =~= s.skip(rec_bytes_end(s)));
        }
        let scales = self.read_bytes(scale_len)?;
        proof {
            assert(scales@ =~= s.subrange(rec_bytes_end(s), rec_end(s)));
            assert(self.remaining() =~= s.skip(rec_end(s)));
        }
        Ok(CheckpointTensor { name, len: len as usize, global_scale_bits, bytes, scales })
    }

    /// Reads a little-endian `u32`.
    pub fn read_u32(&mut self) -> (r: Result<u32, FormatError>)
        ensures
            final(self).source() == old(self).source(),
            old(self).remaining().len() < 4 ==> r == Err::<u32, FormatError>(
                FormatError::UnexpectedEof,
            ),
            old(self).remaining().len() >= 4 ==> {
                &&& r == Ok::<u32, FormatError>(
                    spec_u32_from_le_bytes(old(self).remaining().take(4)),
                )
                &&& final(self).remaining() == old(self).remaining().skip(4)
            },
    {
        let b = self.read_bytes(4)?;
        Ok(u32_from_le_bytes(b.as_slice()))
    }

    /// Reads a little-endian `u64`.
    pub fn read_u64(&mut self) -> (r: Result<u64, FormatError>)
        ensures
            final(self).source() == old(self).source(),
            old(self).remaining().len() < 8 ==> r == Err::<u64, FormatError>(
                FormatError::UnexpectedEof,
            ),
            old(self).remaining().len() >= 8 ==> {
                &&& r == Ok::<u64, FormatError>(
                    spec_u64_from_le_bytes(old(self).remaining().take(8)),
                )
                &&& final(self).remaining() == old(self).remaining().skip(8)
            },
    {
        let b = self.read_bytes(8)?;
        Ok(u64_from_le_bytes(b.as_slice()))
    }
}

} // verus!
