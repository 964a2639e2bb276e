//! A byte source over an in-memory buffer, with typed little-endian reads.
//!
//! Every read checks availability first: a read that fails leaves the
//! position untouched and reports `Truncated`, so record walks can stop or
//! resynchronize cleanly.  The position may stand beyond the end of the
//! buffer (a skip is free to move it there); every read at such a position
//! fails.

use vstd::prelude::*;

verus! {

/// Why a stream operation failed.
#[derive(Clone, Copy, Debug, PartialEq, Eq, Structural)]
pub enum StreamError {
    /// The requested bytes are not in the buffer (or the position cannot
    /// advance that far).
    Truncated,
}

/// The unsigned little-endian 16-bit value at offset `p`.
pub open spec fn le16_at(d: Seq<u8>, p: int) -> int {
    d[p] + 0x100 * d[p + 1]
}

/// The unsigned little-endian 32-bit value at offset `p`.
pub open spec fn le32_at(d: Seq<u8>, p: int) -> int {
    d[p] + 0x100 * d[p + 1] + 0x1_0000 * d[p + 2] + 0x100_0000 * d[p + 3]
}

/// The unsigned little-endian 64-bit value at offset `p`.
pub open spec fn le64_at(d: Seq<u8>, p: int) -> int {
    le32_at(d, p) + 0x1_0000_0000 * le32_at(d, p + 4)
}

/// A 16-bit unsigned value read back as two's complement.
pub open spec fn sign16(v: int) -> int {
    if v < 0x8000 {
        v
    } else {
        v - 0x1_0000
    }
}

/// A 32-bit unsigned value read back as two's complement.
pub open spec fn sign32(v: int) -> int {
    if v < 0x8000_0000 {
        v
    } else {
        v - 0x1_0000_0000
    }
}

/// An in-memory byte stream: the whole buffer and a read position.
pub struct ByteStream {
    /// The underlying bytes.
    pub data: Vec<u8>,
    /// The next byte to read.
    pub pos: usize,
}

impl ByteStream {
    /// Opens a stream over a buffer, positioned at its first byte.
    pub fn new(data: Vec<u8>) -> (s: Self)
        ensures
            s.data == data,
            s.pos == 0,
    {
        ByteStream { data, pos: 0 }
    }

    /// Reads one byte.
    pub fn read_u8(&mut self) -> (r: Result<u8, StreamError>)
        ensures
            final(self).data == old(self).data,
            r is Ok <==> old(self).pos < old(self).data@.len(),
            r is Ok ==> r->Ok_0 == old(self).data@[old(self).pos as int] && final(self).pos == old(self).pos + 1,
            r is Err ==> final(self).pos == old(self).pos && r->Err_0 == StreamError::Truncated,
    {
        if self.pos < self.data.len() {
            let b = self.data[self.pos];
            self.pos = self.pos + 1;
            Ok(b)
        } else {
            Err(StreamError::Truncated)
        }
    }

    /// Reads an unsigned 16-bit little-endian value.
    pub fn read_u16_le(&mut self) -> (r: Result<u16, StreamError>)
        ensures
            final(self).data == old(self).data,
            r is Ok <==> old(self).pos + 2 <= old(self).data@.len(),
            r is Ok ==> r->Ok_0 == le16_at(old(self).data@, old(self).pos as int) && final(self).pos == old(self).pos + 2,
            r is Err ==> final(self).pos == old(self).pos && r->Err_0 == StreamError::Truncated,
    {
        if self.data.len() >= 2 && self.pos <= self.data.len() - 2 {
            let b0 = self.data[self.pos];
            let b1 = self.data[self.pos + 1];
            self.pos = self.pos + 2;
            Ok(b0 as u16 + (b1 as u16) * 0x100)
        } else {
            Err(StreamError::Truncated)
        }
    }

    /// Reads an unsigned 32-bit little-endian value.
    pub fn read_u32_le(&mut self) -> (r: Result<u32, StreamError>)
        ensures
            final(self).data == old(self).data,
            r is Ok <==> old(self).pos + 4 <= old(self).data@.len(),
            r is Ok ==> r->Ok_0 == le32_at(old(self).data@, old(self).pos as int) && final(self).pos == old(self).pos + 4,
            r is Err ==> final(self).pos == old(self).pos && r->Err_0 == StreamError::Truncated,
    {
        if self.data.len() >= 4 && self.pos <= self.data.len() - 4 {
            let b0 = self.data[self.pos];
            let b1 = self.data[self.pos + 1];
            let b2 = self.data[self.pos + 2];
            let b3 = self.data[self.pos + 3];
            self.pos = self.pos + 4;
            Ok(b0 as u32 + (b1 as u32) * 0x100 + (b2 as u32) * 0x1_0000 + (b3 as u32) * 0x100_0000)
        } else {
            Err(StreamError::Truncated)
        }
    }

    /// Reads a signed 16-bit little-endian value.
    pub fn read_i16_le(&mut self) -> (r: Result<i16, StreamError>)
        ensures
            final(self).data == old(self).data,
            r is Ok <==> old(self).pos + 2 <= old(self).data@.len(),
            r is Ok ==> r->Ok_0 == sign16(le16_at(old(self).data@, old(self).pos as int)) && final(self).pos == old(self).pos + 2,
            r is Err ==> final(self).pos == old(self).pos && r->Err_0 == StreamError::Truncated,
    {
        match self.read_u16_le() {
            Ok(v) => {
                let sv: i32 = v as i32 - (if v >= 0x8000 {
                    0x1_0000
                } else {
                    0
                });
                Ok(sv as i16)
            },
            Err(e) => Err(e),
        }
    }

    /// Reads a signed 32-bit little-endian value.
    pub fn read_i32_le(&mut self) -> (r: Result<i32, StreamError>)
        ensures
            final(self).data == old(self).data,
            r is Ok <==> old(self).pos + 4 <= old(self).data@.len(),
            r is Ok ==> r->Ok_0 == sign32(le32_at(old(self).data@, old(self).pos as int)) && final(self).pos == old(self).pos + 4,
            r is Err ==> final(self).pos == old(self).pos && r->Err_0 == StreamError::Truncated,
    {
        match self.read_u32_le() {
            Ok(v) => {
                let sv: i64 = v as i64 - (if v >= 0x8000_0000 {
                    0x1_0000_0000
                } else {
                    0
                });
                Ok(sv as i32)
            },
            Err(e) => Err(e),
        }
    }

    /// Reads the raw bits of a little-endian 32-bit float.  Interpreting
    /// the bits is left to callers outside the verified core.
    pub fn read_f32_bits(&mut self) -> (r: Result<u32, StreamError>)
        ensures
            final(self).data == old(self).data,
            r is Ok <==> old(self).pos + 4 <= old(self).data@.len(),
            r is Ok ==> r->Ok_0 == le32_at(old(self).data@, old(self).pos as int) && final(self).pos == old(self).pos + 4,
            r is Err ==> final(self).pos == old(self).pos && r->Err_0 == StreamError::Truncated,
    {
        self.read_u32_le()
    }

    /// Reads the raw bits of a little-endian 64-bit float.  Interpreting
    /// the bits is left to callers outside the verified core.
    pub fn read_f64_bits(&mut self) -> (r: Result<u64, StreamError>)
        ensures
            final(self).data == old(self).data,
            r is Ok <==> old(self).pos + 8 <= old(self).data@.len(),
            r is Ok ==> r->Ok_0 == le64_at(old(self).data@, old(self).pos as int) && final(self).pos == old(self).pos + 8,
            r is Err ==> final(self).pos == old(self).pos && r->Err_0 == StreamError::Truncated,
    {
        if self.data.len() >= 8 && self.pos <= self.data.len() - 8 {
            let lo = match self.read_u32_le() {
                Ok(v) => v,
                Err(e) => { return Err(e) },
            };
            let hi = match self.read_u32_le() {
                Ok(v) => v,
                Err(e) => { return Err(e) },
            };
            Ok(lo as u64 + (hi as u64) * 0x1_0000_0000)
        } else {
            Err(StreamError::Truncated)
        }
    }

    /// Reads exactly `n` bytes.
    pub fn read_bytes(&mut self, n: usize) -> (r: Result<Vec<u8>, StreamError>)
        ensures
            final(self).data == old(self).data,
            r is Ok <==> old(self).pos + n <= old(self).data@.len(),
            r is Ok ==> (r->Ok_0)@ == old(self).data@.subrange(
                old(self).pos as int,
                old(self).pos + n,
            ) && final(self).pos == old(self).pos + n,
            r is Err ==> final(self).pos == old(self).pos && r->Err_0 == StreamError::Truncated,
    {
        if self.data.len() >= n && self.pos <= self.data.len() - n {
            let start = self.pos;
            let mut out: Vec<u8> = Vec::new();
            let mut i: usize = 0;
            while i < n
                invariant
                    self.data@.len() <= usize::MAX,
                    start + n <= self.data@.len(),
                    i <= n,
                    out@.len() == i,
                    forall|j: int| 0 <= j < i ==> #[trigger] out@[j] == self.data@[start + j],
                decreases n - i,
            {
                out.push(self.data[start + i]);
                i = i + 1;
            }
            self.pos = start + n;
            proof {
                assert(out@ =~= self.data@.subrange(start as int, start + n));
            }
            Ok(out)
        } else {
            Err(StreamError::Truncated)
        }
    }

    /// Reads a fixed-width field of `n` bytes, padding with spaces where
    /// the buffer runs out; never fails.  The position advances over the
    /// bytes actually read.
    pub fn read_padded(&mut self, n: usize) -> (r: Vec<u8>)
        ensures
            final(self).data == old(self).data,
            r@.len() == n,
            forall|j: int|
                0 <= j < n ==> #[trigger] r@[j] == (if old(self).pos + j < old(self).data@.len() {
                    old(self).data@[old(self).pos + j]
                } else {
                    0x20u8
                }),
            final(self).pos == (if old(self).pos >= old(self).data@.len() {
                old(self).pos as int
            } else if old(self).pos + n <= old(self).data@.len() {
                old(self).pos + n
            } else {
                old(self).data@.len() as int
            }),
    {
        let start = self.pos;
        let mut out: Vec<u8> = Vec::new();
        let mut i: usize = 0;
        while i < n
            invariant
                self.data == old(self).data,
                start == old(self).pos,
                i <= n,
                out@.len() == i,
                forall|j: int|
                    0 <= j < i ==> #[trigger] out@[j] == (if start + j < self.data@.len() {
                        self.data@[start + j]
                    } else {
                        0x20u8
                    }),
                self.pos == (if start >= self.data@.len() {
                    start as int
                } else if start + i <= self.data@.len() {
                    start + i
                } else {
                    self.data@.len() as int
                }),
            decreases n - i,
        {
            if self.pos < self.data.len() {
                out.push(self.data[self.pos]);
                self.pos = self.pos + 1;
            } else {
                out.push(0x20);
            }
            i = i + 1;
        }
        out
    }

    /// Advances the position by exactly `n` bytes, possibly beyond the end
    /// of the buffer; fails only when the position cannot be represented.
    pub fn skip(&mut self, n: usize) -> (r: Result<(), StreamError>)
        ensures
            final(self).data == old(self).data,
            r is Ok <==> old(self).pos + n <= usize::MAX,
            r is Ok ==> final(self).pos == old(self).pos + n,
            r is Err ==> final(self).pos == old(self).pos && r->Err_0 == StreamError::Truncated,
    {
        if n <= usize::MAX - self.pos {
            self.pos = self.pos + n;
            Ok(())
        } else {
            Err(StreamError::Truncated)
        }
    }
}

} // verus!
