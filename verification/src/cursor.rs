//! Bounds-checked read cursor over a borrowed byte buffer, and a growable
//! write buffer, with little-endian fixed-width integer accessors.

use vstd::prelude::*;

use crate::DbError;
use crate::strings;
use crate::strings::StrEncoding;

verus! {

/// Little-endian value of two bytes.
pub open spec fn u16_of_le(b0: u8, b1: u8) -> int {
    b0 + 0x100 * b1
}

/// Little-endian value of four bytes.
pub open spec fn u32_of_le(b0: u8, b1: u8, b2: u8, b3: u8) -> int {
    b0 + 0x100 * b1 + 0x1_0000 * b2 + 0x100_0000 * b3
}

/// Little-endian value of eight bytes.
pub open spec fn u64_of_le(b: Seq<u8>) -> int {
    b[0] + 0x100 * b[1] + 0x1_0000 * b[2] + 0x100_0000 * b[3] + 0x1_0000_0000 * b[4]
        + 0x100_0000_0000 * b[5] + 0x1_0000_0000_0000 * b[6] + 0x100_0000_0000_0000 * b[7]
}

/// The two little-endian bytes of a 16-bit value.
pub open spec fn le16(v: u16) -> Seq<u8> {
    seq![(v % 0x100) as u8, ((v / 0x100) % 0x100) as u8]
}

/// The four little-endian bytes of a 32-bit value.
pub open spec fn le32(v: u32) -> Seq<u8> {
    seq![
        (v % 0x100) as u8,
        ((v / 0x100) % 0x100) as u8,
        ((v / 0x1_0000) % 0x100) as u8,
        ((v / 0x100_0000) % 0x100) as u8,
    ]
}

/// The eight little-endian bytes of a 64-bit value.
pub open spec fn le64(v: u64) -> Seq<u8> {
    seq![
        (v % 0x100) as u8,
        ((v / 0x100) % 0x100) as u8,
        ((v / 0x1_0000) % 0x100) as u8,
        ((v / 0x100_0000) % 0x100) as u8,
        ((v / 0x1_0000_0000) % 0x100) as u8,
        ((v / 0x100_0000_0000) % 0x100) as u8,
        ((v / 0x1_0000_0000_0000) % 0x100) as u8,
        ((v / 0x100_0000_0000_0000) % 0x100) as u8,
    ]
}

/// Reading a 16-bit value back from its own little-endian bytes is the
/// identity: the write and read operations are symmetric.
pub proof fn lemma_le16_roundtrip(v: u16)
    ensures
        u16_of_le(le16(v)[0], le16(v)[1]) == v,
{
}

/// The 32-bit read inverts the 32-bit write.
pub proof fn lemma_le32_roundtrip(v: u32)
    ensures
        u32_of_le(le32(v)[0], le32(v)[1], le32(v)[2], le32(v)[3]) == v,
{
}

/// The 64-bit read inverts the 64-bit write.
pub proof fn lemma_le64_roundtrip(v: u64)
    ensures
        u64_of_le(le64(v)) == v,
{
    let x = v as int;
    let q1 = x / 0x100;
    let q2 = x / 0x1_0000;
    let q3 = x / 0x100_0000;
    let q4 = x / 0x1_0000_0000;
    let q5 = x / 0x100_0000_0000;
    let q6 = x / 0x1_0000_0000_0000;
    let q7 = x / 0x100_0000_0000_0000;
    vstd::arithmetic::div_mod::lemma_div_denominator(x, 0x100, 0x100);
    vstd::arithmetic::div_mod::lemma_div_denominator(x, 0x1_0000, 0x100);
    vstd::arithmetic::div_mod::lemma_div_denominator(x, 0x100_0000, 0x100);
    vstd::arithmetic::div_mod::lemma_div_denominator(x, 0x1_0000_0000, 0x100);
    vstd::arithmetic::div_mod::lemma_div_denominator(x, 0x100_0000_0000, 0x100);
    vstd::arithmetic::div_mod::lemma_div_denominator(x, 0x1_0000_0000_0000, 0x100);
    assert(q1 / 0x100 == q2 && q2 / 0x100 == q3 && q3 / 0x100 == q4 && q4 / 0x100 == q5 && q5
        / 0x100 == q6 && q6 / 0x100 == q7);
    assert(x == x % 0x100 + 0x100 * q1);
    assert(q1 == q1 % 0x100 + 0x100 * q2);
    assert(q2 == q2 % 0x100 + 0x100 * q3);
    assert(q3 == q3 % 0x100 + 0x100 * q4);
    assert(q4 == q4 % 0x100 + 0x100 * q5);
    assert(q5 == q5 % 0x100 + 0x100 * q6);
    assert(q6 == q6 % 0x100 + 0x100 * q7);
    assert(q7 % 0x100 == q7) by {
        assert(q7 < 0x100);
    }
}

/// Concatenation of byte sequences is associative.
pub proof fn lemma_concat_assoc(a: Seq<u8>, b: Seq<u8>, c: Seq<u8>)
    ensures
        a + b + c == a + (b + c),
{
    assert(a + b + c =~= a + (b + c));
}

pub proof fn lemma_concat_empty(a: Seq<u8>)
    ensures
        a + Seq::<u8>::empty() == a,
        Seq::<u8>::empty() + a == a,
{
    assert(a + Seq::<u8>::empty() =~= a);
    assert(Seq::<u8>::empty() + a =~= a);
}

/// Bounds-checked read cursor over a borrowed byte buffer. Every read that
/// would cross the buffer bound fails with `DbError::OutOfBounds` instead of
/// reading undefined memory or silently truncating.
pub struct ByteCursor<'a> {
    pub buf: &'a [u8],
    pub pos: usize,
}

impl<'a> ByteCursor<'a> {
    pub open spec fn wf(self) -> bool {
        self.pos <= self.buf@.len()
    }

    pub fn new(buf: &'a [u8]) -> (r: ByteCursor<'a>)
        ensures
            r.buf@ == buf@,
            r.pos == 0,
            r.wf(),
    {
        ByteCursor { buf, pos: 0 }
    }

    /// Bytes left between the position and the end of the buffer.
    pub fn remaining(&self) -> (r: usize)
        requires
            self.wf(),
        ensures
            r == self.buf@.len() - self.pos,
    {
        self.buf.len() - self.pos
    }

    /// Moves the position to an absolute offset; fails past the end.
    pub fn seek(&mut self, offset: usize) -> (r: Result<(), DbError>)
        ensures
            final(self).buf@ == old(self).buf@,
            offset <= old(self).buf@.len() ==> r == Ok::<(), DbError>(()) && final(self).pos
                == offset,
            offset > old(self).buf@.len() ==> r == Err::<(), DbError>(
                DbError::OutOfBounds {
                    offset,
                    requested: 0,
                    buffer_len: old(self).buf@.len() as usize,
                },
            ) && final(self).pos == old(self).pos,
    {
        if offset <= self.buf.len() {
            self.pos = offset;
            Ok(())
        } else {
            Err(DbError::OutOfBounds { offset, requested: 0, buffer_len: self.buf.len() })
        }
    }

    /// The out-of-bounds error for a read of `n` bytes at the position.
    pub open spec fn oob(self, n: usize) -> DbError {
        DbError::OutOfBounds {
            offset: self.pos,
            requested: n,
            buffer_len: self.buf@.len() as usize,
        }
    }

    /// True when `n` more bytes can be read.
    pub open spec fn can_read(self, n: usize) -> bool {
        self.pos + n <= self.buf@.len()
    }

    pub fn read_u8(&mut self) -> (r: Result<u8, DbError>)
        requires
            old(self).wf(),
        ensures
            final(self).buf@ == old(self).buf@,
            final(self).wf(),
            old(self).can_read(1) ==> r == Ok::<u8, DbError>(old(self).buf@[old(self).pos as int])
                && final(self).pos == old(self).pos + 1,
            !old(self).can_read(1) ==> r == Err::<u8, DbError>(old(self).oob(1))
                && final(self).pos == old(self).pos,
    {
        if self.pos < self.buf.len() {
            let b = self.buf[self.pos];
            self.pos = self.pos + 1;
            Ok(b)
        } else {
            Err(DbError::OutOfBounds { offset: self.pos, requested: 1, buffer_len: self.buf.len() })
        }
    }

    pub fn read_u16(&mut self) -> (r: Result<u16, DbError>)
        requires
            old(self).wf(),
        ensures
            final(self).buf@ == old(self).buf@,
            final(self).wf(),
            old(self).can_read(2) ==> r == Ok::<u16, DbError>(
                (u16_of_le(old(self).buf@[old(self).pos as int], old(self).buf@[old(self).pos + 1]))
                    as u16,
            ) && final(self).pos == old(self).pos + 2,
            !old(self).can_read(2) ==> r == Err::<u16, DbError>(old(self).oob(2))
                && final(self).pos == old(self).pos,
    {
        if 2 <= self.buf.len() - self.pos {
            let b0 = self.buf[self.pos];
            let b1 = self.buf[self.pos + 1];
            self.pos = self.pos + 2;
            Ok(b0 as u16 + 0x100 * (b1 as u16))
        } else {
            Err(DbError::OutOfBounds { offset: self.pos, requested: 2, buffer_len: self.buf.len() })
        }
    }

    pub fn read_u32(&mut self) -> (r: Result<u32, DbError>)
        requires
            old(self).wf(),
        ensures
            final(self).buf@ == old(self).buf@,
            final(self).wf(),
            old(self).can_read(4) ==> r == Ok::<u32, DbError>(
                (u32_of_le(
                    old(self).buf@[old(self).pos as int],
                    old(self).buf@[old(self).pos + 1],
                    old(self).buf@[old(self).pos + 2],
                    old(self).buf@[old(self).pos + 3],
                )) as u32,
            ) && final(self).pos == old(self).pos + 4,
            !old(self).can_read(4) ==> r == Err::<u32, DbError>(old(self).oob(4))
                && final(self).pos == old(self).pos,
    {
        if 4 <= self.buf.len() - self.pos {
            let b0 = self.buf[self.pos];
            let b1 = self.buf[self.pos + 1];
            let b2 = self.buf[self.pos + 2];
            let b3 = self.buf[self.pos + 3];
            self.pos = self.pos + 4;
            Ok(b0 as u32 + 0x100 * (b1 as u32) + 0x1_0000 * (b2 as u32) + 0x100_0000 * (b3 as u32))
        } else {
            Err(DbError::OutOfBounds { offset: self.pos, requested: 4, buffer_len: self.buf.len() })
        }
    }

    pub fn read_u64(&mut self) -> (r: Result<u64, DbError>)
        requires
            old(self).wf(),
        ensures
            final(self).buf@ == old(self).buf@,
            final(self).wf(),
            old(self).can_read(8) ==> r == Ok::<u64, DbError>(
                (u64_of_le(old(self).buf@.subrange(old(self).pos as int, old(self).pos + 8)))
                    as u64,
            ) && final(self).pos == old(self).pos + 8,
            !old(self).can_read(8) ==> r == Err::<u64, DbError>(old(self).oob(8))
                && final(self).pos == old(self).pos,
    {
        if 8 <= self.buf.len() - self.pos {
            let ghost sub = self.buf@.subrange(self.pos as int, self.pos + 8);
            let b0 = self.buf[self.pos];
            let b1 = self.buf[self.pos + 1];
            let b2 = self.buf[self.pos + 2];
            let b3 = self.buf[self.pos + 3];
            let b4 = self.buf[self.pos + 4];
            let b5 = self.buf[self.pos + 5];
            let b6 = self.buf[self.pos + 6];
            let b7 = self.buf[self.pos + 7];
            let lo: u64 = b0 as u64 + 0x100 * (b1 as u64) + 0x1_0000 * (b2 as u64) + 0x100_0000
                * (b3 as u64);
            let hi: u64 = b4 as u64 + 0x100 * (b5 as u64) + 0x1_0000 * (b6 as u64) + 0x100_0000
                * (b7 as u64);
            self.pos = self.pos + 8;
            let v: u64 = lo + 0x1_0000_0000 * hi;
            proof {
                assert(sub[0] == b0 && sub[1] == b1 && sub[2] == b2 && sub[3] == b3 && sub[4] == b4
                    && sub[5] == b5 && sub[6] == b6 && sub[7] == b7);
            }
            Ok(v)
        } else {
            Err(DbError::OutOfBounds { offset: self.pos, requested: 8, buffer_len: self.buf.len() })
        }
    }

    /// Reads exactly `n` bytes as an owned copy.
    pub fn read_fixed_bytes(&mut self, n: usize) -> (r: Result<Vec<u8>, DbError>)
        requires
            old(self).wf(),
        ensures
            final(self).buf@ == old(self).buf@,
            final(self).wf(),
            old(self).can_read(n) ==> (match r {
                Ok(v) => v@ == old(self).buf@.subrange(old(self).pos as int, old(self).pos + n)
                    && final(self).pos == old(self).pos + n,
                Err(_) => false,
            }),
            !old(self).can_read(n) ==> r == Err::<Vec<u8>, DbError>(old(self).oob(n))
                && final(self).pos == old(self).pos,
    {
        if n <= self.buf.len() - self.pos {
            let mut out: Vec<u8> = Vec::new();
            let mut i: usize = 0;
            while i < n
                invariant
                    self.wf(),
                    self.pos + n <= self.buf@.len(),
                    self.buf@.len() <= usize::MAX,
                    i <= n,
                    out@ == self.buf@.subrange(self.pos as int, self.pos + i),
                decreases n - i,
            {
                out.push(self.buf[self.pos + i]);
                i = i + 1;
                proof {
                    assert(out@ =~= self.buf@.subrange(self.pos as int, self.pos + i));
                }
            }
            self.pos = self.pos + n;
            Ok(out)
        } else {
            Err(DbError::OutOfBounds { offset: self.pos, requested: n, buffer_len: self.buf.len() })
        }
    }

    /// Reads the four tag bytes at the position without advancing.
    pub fn peek_tag(&self) -> (r: Result<(u8, u8, u8, u8), DbError>)
        requires
            self.wf(),
        ensures
            self.can_read(4) ==> r == Ok::<(u8, u8, u8, u8), DbError>(
                (
                    self.buf@[self.pos as int],
                    self.buf@[self.pos + 1],
                    self.buf@[self.pos + 2],
                    self.buf@[self.pos + 3],
                ),
            ),
            !self.can_read(4) ==> r == Err::<(u8, u8, u8, u8), DbError>(self.oob(4)),
    {
        if 4 <= self.buf.len() - self.pos {
            Ok((
                self.buf[self.pos],
                self.buf[self.pos + 1],
                self.buf[self.pos + 2],
                self.buf[self.pos + 3],
            ))
        } else {
            Err(DbError::OutOfBounds { offset: self.pos, requested: 4, buffer_len: self.buf.len() })
        }
    }

    /// Reads `byte_len` bytes and decodes them as a string in the given
    /// encoding; fails with `DbError::Encoding` on malformed payloads.
    pub fn read_string(&mut self, byte_len: usize, encoding: StrEncoding) -> (r: Result<
        String,
        DbError,
    >)
        requires
            old(self).wf(),
        ensures
            final(self).buf@ == old(self).buf@,
            final(self).wf(),
            !old(self).can_read(byte_len) ==> r == Err::<String, DbError>(old(self).oob(byte_len)),
            old(self).can_read(byte_len) ==> (match r {
                Ok(s) => strings::decode_spec(
                    old(self).buf@.subrange(old(self).pos as int, old(self).pos + byte_len),
                    encoding,
                ) == Some(s@) && final(self).pos == old(self).pos + byte_len,
                Err(e) => e == DbError::Encoding && strings::decode_spec(
                    old(self).buf@.subrange(old(self).pos as int, old(self).pos + byte_len),
                    encoding,
                ) is None,
            }),
    {
        let bytes = self.read_fixed_bytes(byte_len)?;
        strings::decode_string(&bytes, encoding)
    }
}

/// Growable output buffer with little-endian write operations, the encoder's
/// counterpart of `ByteCursor`.
pub struct ByteWriter {
    pub out: Vec<u8>,
}

impl ByteWriter {
    pub fn new() -> (r: ByteWriter)
        ensures
            r.out@ == Seq::<u8>::empty(),
    {
        ByteWriter { out: Vec::new() }
    }

    pub fn len(&self) -> (r: usize)
        ensures
            r == self.out@.len(),
    {
        self.out.len()
    }

    pub fn into_bytes(self) -> (r: Vec<u8>)
        ensures
            r@ == self.out@,
    {
        self.out
    }

    pub fn write_u8(&mut self, v: u8)
        ensures
            final(self).out@ == old(self).out@ + seq![v],
    {
        self.out.push(v);
        proof {
            assert(self.out@ =~= old(self).out@ + seq![v]);
        }
    }

    pub fn write_u16(&mut self, v: u16)
        ensures
            final(self).out@ == old(self).out@ + le16(v),
    {
        self.out.push((v % 0x100) as u8);
        self.out.push(((v / 0x100) % 0x100) as u8);
        proof {
            assert(self.out@ =~= old(self).out@ + le16(v));
        }
    }

    pub fn write_u32(&mut self, v: u32)
        ensures
            final(self).out@ == old(self).out@ + le32(v),
    {
        self.out.push((v % 0x100) as u8);
        self.out.push(((v / 0x100) % 0x100) as u8);
        self.out.push(((v / 0x1_0000) % 0x100) as u8);
        self.out.push(((v / 0x100_0000) % 0x100) as u8);
        proof {
            assert(self.out@ =~= old(self).out@ + le32(v));
        }
    }

    pub fn write_u64(&mut self, v: u64)
        ensures
            final(self).out@ == old(self).out@ + le64(v),
    {
        self.out.push((v % 0x100) as u8);
        self.out.push(((v / 0x100) % 0x100) as u8);
        self.out.push(((v / 0x1_0000) % 0x100) as u8);
        self.out.push(((v / 0x100_0000) % 0x100) as u8);
        self.out.push(((v / 0x1_0000_0000) % 0x100) as u8);
        self.out.push(((v / 0x100_0000_0000) % 0x100) as u8);
        self.out.push(((v / 0x1_0000_0000_0000) % 0x100) as u8);
        self.out.push(((v / 0x100_0000_0000_0000) % 0x100) as u8);
        proof {
            assert(self.out@ =~= old(self).out@ + le64(v));
        }
    }

    pub fn write_bytes(&mut self, bytes: &[u8])
        ensures
            final(self).out@ == old(self).out@ + bytes@,
    {
        let mut i: usize = 0;
        while i < bytes.len()
            invariant
                i <= bytes@.len(),
                self.out@ == old(self).out@ + bytes@.subrange(0, i as int),
            decreases bytes@.len() - i,
        {
            self.out.push(bytes[i]);
            i = i + 1;
            proof {
                assert(self.out@ =~= old(self).out@ + bytes@.subrange(0, i as int));
            }
        }
        proof {
            assert(bytes@.subrange(0, bytes@.len() as int) =~= bytes@);
        }
    }
}

} // verus!
