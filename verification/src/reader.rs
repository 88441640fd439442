//! Sequential, bounds-checked, big-endian reader over an immutable byte
//! buffer.
//!
//! The cursor only moves forward, by exactly the number of bytes a read
//! consumes, and never past the end of the buffer.  Every read either
//! returns the value the contract describes or fails with
//! [`Mp4Error::Truncated`] carrying the requested length, the current
//! position and the buffer length.

use vstd::prelude::*;

use crate::error::Mp4Error;
use crate::fixed::{Fixed1616, Fixed88};
use crate::strings::{lossy_text_of, string_from_utf8, string_from_utf8_lossy};
use vstd::utf8::{decode_utf8, valid_utf8};

verus! {

/// The value of the two bytes at `i` read as a big-endian 16-bit integer.
pub open spec fn be16_at(b: Seq<u8>, i: int) -> int
    recommends
        0 <= i,
        i + 2 <= b.len(),
{
    b[i] * 0x100 + b[i + 1]
}

/// The value of the four bytes at `i` read as a big-endian 32-bit integer.
pub open spec fn be32_at(b: Seq<u8>, i: int) -> int
    recommends
        0 <= i,
        i + 4 <= b.len(),
{
    be16_at(b, i) * 0x1_0000 + be16_at(b, i + 2)
}

/// The value of the eight bytes at `i` read as a big-endian 64-bit integer.
pub open spec fn be64_at(b: Seq<u8>, i: int) -> int
    recommends
        0 <= i,
        i + 8 <= b.len(),
{
    be32_at(b, i) * 0x1_0000_0000 + be32_at(b, i + 4)
}

/// Cursor over a borrowed byte buffer.  The buffer itself is never mutated.
pub struct Reader<'a> {
    buf: &'a [u8],
    pos: usize,
}

impl<'a> Reader<'a> {
    /// The underlying bytes, as a mathematical sequence.
    pub closed spec fn bytes(self) -> Seq<u8> {
        self.buf@
    }

    /// The current cursor position.
    pub closed spec fn cursor(self) -> int {
        self.pos as int
    }

    /// The cursor always lies inside the buffer (one-past-the-end included),
    /// and the buffer itself is addressable.
    pub open spec fn wf(self) -> bool {
        0 <= self.cursor() <= self.bytes().len() <= usize::MAX
    }

    pub fn new(buf: &'a [u8]) -> (r: Self)
        ensures
            r.wf(),
            r.bytes() == buf@,
            r.cursor() == 0,
    {
        let n = buf.len();
        proof {
            assert(buf@.len() == n);
        }
        Self { buf, pos: 0 }
    }

    /// Pure query of the current offset.
    pub fn position(&self) -> (r: u64)
        ensures
            r == self.cursor(),
    {
        self.pos as u64
    }

    /// How many bytes are left between the cursor and the end of the buffer.
    pub fn remaining(&self) -> (r: usize)
        requires
            self.wf(),
        ensures
            r == self.bytes().len() - self.cursor(),
    {
        self.buf.len() - self.pos
    }

    /// The `Truncated` error for a read of `requested` bytes at the current
    /// position.
    fn truncated(&self, requested: u64) -> (e: Mp4Error)
        ensures
            e == (Mp4Error::Truncated {
                requested,
                position: self.cursor() as u64,
                length: self.bytes().len() as u64,
            }),
    {
        Mp4Error::Truncated {
            requested,
            position: self.pos as u64,
            length: self.buf.len() as u64,
        }
    }

    pub fn read_u8(&mut self) -> (r: Result<u8, Mp4Error>)
        requires
            old(self).wf(),
        ensures
            final(self).wf(),
            final(self).bytes() == old(self).bytes(),
            old(self).cursor() + 1 <= final(self).bytes().len() ==> {
                &&& r matches Ok(v) && v == final(self).bytes()[old(self).cursor()]
                &&& final(self).cursor() == old(self).cursor() + 1
            },
            old(self).cursor() + 1 > final(self).bytes().len() ==> {
                &&& r == Err::<u8, Mp4Error>(Mp4Error::Truncated {
                    requested: 1,
                    position: old(self).cursor() as u64,
                    length: final(self).bytes().len() as u64,
                })
                &&& final(self).cursor() == old(self).cursor()
            },
    {
        if self.buf.len() - self.pos >= 1 {
            let v = self.buf[self.pos];
            self.pos = self.pos + 1;
            Ok(v)
        } else {
            Err(self.truncated(1))
        }
    }

    pub fn read_u16(&mut self) -> (r: Result<u16, Mp4Error>)
        requires
            old(self).wf(),
        ensures
            final(self).wf(),
            final(self).bytes() == old(self).bytes(),
            old(self).cursor() + 2 <= final(self).bytes().len() ==> {
                &&& r matches Ok(v) && v == be16_at(final(self).bytes(), old(self).cursor())
                &&& final(self).cursor() == old(self).cursor() + 2
            },
            old(self).cursor() + 2 > final(self).bytes().len() ==> {
                &&& r == Err::<u16, Mp4Error>(Mp4Error::Truncated {
                    requested: 2,
                    position: old(self).cursor() as u64,
                    length: final(self).bytes().len() as u64,
                })
                &&& final(self).cursor() == old(self).cursor()
            },
    {
        if self.buf.len() - self.pos >= 2 {
            let b0 = self.buf[self.pos];
            let b1 = self.buf[self.pos + 1];
            self.pos = self.pos + 2;
            Ok((b0 as u16) * 0x100 + (b1 as u16))
        } else {
            Err(self.truncated(2))
        }
    }

    pub fn read_i16(&mut self) -> (r: Result<i16, Mp4Error>)
        requires
            old(self).wf(),
        ensures
            final(self).wf(),
            final(self).bytes() == old(self).bytes(),
            old(self).cursor() + 2 <= final(self).bytes().len() ==> {
                &&& r matches Ok(v) && v == be16_at(final(self).bytes(), old(self).cursor()) as u16 as i16
                &&& final(self).cursor() == old(self).cursor() + 2
            },
            old(self).cursor() + 2 > final(self).bytes().len() ==> {
                &&& r == Err::<i16, Mp4Error>(Mp4Error::Truncated {
                    requested: 2,
                    position: old(self).cursor() as u64,
                    length: final(self).bytes().len() as u64,
                })
                &&& final(self).cursor() == old(self).cursor()
            },
    {
        match self.read_u16() {
            Ok(v) => Ok(v as i16),
            Err(e) => Err(e),
        }
    }

    pub fn read_u32(&mut self) -> (r: Result<u32, Mp4Error>)
        requires
            old(self).wf(),
        ensures
            final(self).wf(),
            final(self).bytes() == old(self).bytes(),
            old(self).cursor() + 4 <= final(self).bytes().len() ==> {
                &&& r matches Ok(v) && v == be32_at(final(self).bytes(), old(self).cursor())
                &&& final(self).cursor() == old(self).cursor() + 4
            },
            old(self).cursor() + 4 > final(self).bytes().len() ==> {
                &&& r == Err::<u32, Mp4Error>(Mp4Error::Truncated {
                    requested: 4,
                    position: old(self).cursor() as u64,
                    length: final(self).bytes().len() as u64,
                })
                &&& final(self).cursor() == old(self).cursor()
            },
    {
        if self.buf.len() - self.pos >= 4 {
            let b0 = self.buf[self.pos];
            let b1 = self.buf[self.pos + 1];
            let b2 = self.buf[self.pos + 2];
            let b3 = self.buf[self.pos + 3];
            self.pos = self.pos + 4;
            Ok((b0 as u32) * 0x100_0000 + (b1 as u32) * 0x1_0000 + (b2 as u32) * 0x100
                + (b3 as u32))
        } else {
            Err(self.truncated(4))
        }
    }

    pub fn read_i32(&mut self) -> (r: Result<i32, Mp4Error>)
        requires
            old(self).wf(),
        ensures
            final(self).wf(),
            final(self).bytes() == old(self).bytes(),
            old(self).cursor() + 4 <= final(self).bytes().len() ==> {
                &&& r matches Ok(v) && v == be32_at(final(self).bytes(), old(self).cursor()) as u32 as i32
                &&& final(self).cursor() == old(self).cursor() + 4
            },
            old(self).cursor() + 4 > final(self).bytes().len() ==> {
                &&& r == Err::<i32, Mp4Error>(Mp4Error::Truncated {
                    requested: 4,
                    position: old(self).cursor() as u64,
                    length: final(self).bytes().len() as u64,
                })
                &&& final(self).cursor() == old(self).cursor()
            },
    {
        match self.read_u32() {
            Ok(v) => Ok(v as i32),
            Err(e) => Err(e),
        }
    }

    pub fn read_u64(&mut self) -> (r: Result<u64, Mp4Error>)
        requires
            old(self).wf(),
        ensures
            final(self).wf(),
            final(self).bytes() == old(self).bytes(),
            old(self).cursor() + 8 <= final(self).bytes().len() ==> {
                &&& r matches Ok(v) && v == be64_at(final(self).bytes(), old(self).cursor())
                &&& final(self).cursor() == old(self).cursor() + 8
            },
            old(self).cursor() + 8 > final(self).bytes().len() ==> {
                &&& r == Err::<u64, Mp4Error>(Mp4Error::Truncated {
                    requested: 8,
                    position: old(self).cursor() as u64,
                    length: final(self).bytes().len() as u64,
                })
                &&& final(self).cursor() == old(self).cursor()
            },
    {
        let hi = match self.read_u32() {
            Ok(v) => v,
            Err(_) => {
                return Err(self.truncated(8));
            },
        };
        match self.read_u32() {
            Ok(lo) => Ok((hi as u64) * 0x1_0000_0000 + (lo as u64)),
            Err(_) => {
                // The first word fit, so fewer than eight bytes remained at
                // the original cursor; report the failure there.
                self.pos = self.pos - 4;
                Err(self.truncated(8))
            },
        }
    }

    /// Read `n_bytes` raw bytes.
    #[verifier::loop_isolation(false)]
    pub fn read_bytes(&mut self, n_bytes: usize) -> (r: Result<Vec<u8>, Mp4Error>)
        requires
            old(self).wf(),
        ensures
            final(self).wf(),
            final(self).bytes() == old(self).bytes(),
            old(self).cursor() + n_bytes <= final(self).bytes().len() ==> {
                &&& r matches Ok(v) && v@ == final(self).bytes().subrange(
                    old(self).cursor(),
                    old(self).cursor() + n_bytes,
                )
                &&& final(self).cursor() == old(self).cursor() + n_bytes
            },
            old(self).cursor() + n_bytes > final(self).bytes().len() ==> {
                &&& r == Err::<Vec<u8>, Mp4Error>(Mp4Error::Truncated {
                    requested: n_bytes as u64,
                    position: old(self).cursor() as u64,
                    length: final(self).bytes().len() as u64,
                })
                &&& final(self).cursor() == old(self).cursor()
            },
    {
        if self.buf.len() - self.pos >= n_bytes {
            let mut v: Vec<u8> = Vec::new();
            let mut i: usize = 0;
            while i < n_bytes
                invariant
                    self.wf(),
                    i <= n_bytes,
                    self.cursor() + n_bytes <= self.bytes().len(),
                    self.bytes().len() <= usize::MAX,
                    v@ == self.bytes().subrange(self.cursor(), self.cursor() + i),
                decreases n_bytes - i,
            {
                v.push(self.buf[self.pos + i]);
                i = i + 1;
                proof {
                    assert(v@ =~= self.bytes().subrange(self.cursor(), self.cursor() + i));
                }
            }
            self.pos = self.pos + n_bytes;
            Ok(v)
        } else {
            Err(self.truncated(n_bytes as u64))
        }
    }

    /// Read exactly `n_bytes` raw bytes; a synonym for [`Self::read_bytes`]
    /// kept for callers that phrase the read as filling a fixed-size field.
    pub fn read_exact(&mut self, n_bytes: usize) -> (r: Result<Vec<u8>, Mp4Error>)
        requires
            old(self).wf(),
        ensures
            final(self).wf(),
            final(self).bytes() == old(self).bytes(),
            old(self).cursor() + n_bytes <= final(self).bytes().len() ==> {
                &&& r matches Ok(v) && v@ == final(self).bytes().subrange(
                    old(self).cursor(),
                    old(self).cursor() + n_bytes,
                )
                &&& final(self).cursor() == old(self).cursor() + n_bytes
            },
            old(self).cursor() + n_bytes > final(self).bytes().len() ==> {
                &&& r == Err::<Vec<u8>, Mp4Error>(Mp4Error::Truncated {
                    requested: n_bytes as u64,
                    position: old(self).cursor() as u64,
                    length: final(self).bytes().len() as u64,
                })
                &&& final(self).cursor() == old(self).cursor()
            },
    {
        self.read_bytes(n_bytes)
    }

    /// Read an exact-length text string.  Fails with `Truncated` when the
    /// buffer is too short and with `InvalidString` when the bytes are not
    /// valid UTF-8; in the latter case the cursor has still advanced past
    /// the bytes, as the decode aborts anyway.
    pub fn read_string(&mut self, len: usize) -> (r: Result<String, Mp4Error>)
        requires
            old(self).wf(),
        ensures
            final(self).wf(),
            final(self).bytes() == old(self).bytes(),
            old(self).cursor() + len <= final(self).bytes().len() ==> {
                &&& final(self).cursor() == old(self).cursor() + len
                &&& valid_utf8(
                    final(self).bytes().subrange(old(self).cursor(), old(self).cursor() + len),
                ) ==> (r matches Ok(s) && s@ == decode_utf8(
                    final(self).bytes().subrange(old(self).cursor(), old(self).cursor() + len),
                ))
                &&& !valid_utf8(
                    final(self).bytes().subrange(old(self).cursor(), old(self).cursor() + len),
                ) ==> r == Err::<String, Mp4Error>(Mp4Error::InvalidString {
                    position: old(self).cursor() as u64,
                    length: len as u64,
                })
            },
            old(self).cursor() + len > final(self).bytes().len() ==> {
                &&& r == Err::<String, Mp4Error>(Mp4Error::Truncated {
                    requested: len as u64,
                    position: old(self).cursor() as u64,
                    length: final(self).bytes().len() as u64,
                })
                &&& final(self).cursor() == old(self).cursor()
            },
    {
        let start = self.pos as u64;
        let bytes = match self.read_bytes(len) {
            Ok(b) => b,
            Err(e) => {
                return Err(e);
            },
        };
        match string_from_utf8(&bytes) {
            Some(s) => Ok(s),
            None => Err(Mp4Error::InvalidString { position: start, length: len as u64 }),
        }
    }

    /// Best-effort text read for diagnostic dumps near malformed input:
    /// reads up to `max_len` bytes (fewer when the buffer ends first) and
    /// decodes them lossily.
    pub fn read_string_inexact(&mut self, max_len: usize) -> (r: String)
        requires
            old(self).wf(),
        ensures
            final(self).wf(),
            final(self).bytes() == old(self).bytes(),
            final(self).cursor() == if old(self).cursor() + max_len <= final(self).bytes().len() {
                old(self).cursor() + max_len
            } else {
                final(self).bytes().len() as int
            },
            r@ == lossy_text_of(
                final(self).bytes().subrange(old(self).cursor(), final(self).cursor()),
            ),
    {
        let remaining = self.buf.len() - self.pos;
        let n = if max_len <= remaining {
            max_len
        } else {
            remaining
        };
        let bytes = match self.read_bytes(n) {
            Ok(b) => b,
            Err(e) => {
                // n never exceeds the remaining length.
                proof {
                    assert(false);
                }
                Vec::new()
            },
        };
        string_from_utf8_lossy(&bytes)
    }

    /// Read a 32-bit big-endian value as a 16.16 fixed-point number.
    pub fn read_fixed_point_16_16(&mut self) -> (r: Result<Fixed1616, Mp4Error>)
        requires
            old(self).wf(),
        ensures
            final(self).wf(),
            final(self).bytes() == old(self).bytes(),
            old(self).cursor() + 4 <= final(self).bytes().len() ==> {
                &&& r matches Ok(v) && v.raw == be32_at(final(self).bytes(), old(self).cursor())
                &&& final(self).cursor() == old(self).cursor() + 4
            },
            old(self).cursor() + 4 > final(self).bytes().len() ==> {
                &&& (r matches Err(e) && e matches Mp4Error::Truncated { .. })
                &&& final(self).cursor() == old(self).cursor()
            },
    {
        let raw = self.read_u32()?;
        Ok(Fixed1616 { raw })
    }

    /// Read a 16-bit big-endian value as an 8.8 fixed-point number.
    pub fn read_fixed_point_8_8(&mut self) -> (r: Result<Fixed88, Mp4Error>)
        requires
            old(self).wf(),
        ensures
            final(self).wf(),
            final(self).bytes() == old(self).bytes(),
            old(self).cursor() + 2 <= final(self).bytes().len() ==> {
                &&& r matches Ok(v) && v.raw == be16_at(final(self).bytes(), old(self).cursor())
                &&& final(self).cursor() == old(self).cursor() + 2
            },
            old(self).cursor() + 2 > final(self).bytes().len() ==> {
                &&& (r matches Err(e) && e matches Mp4Error::Truncated { .. })
                &&& final(self).cursor() == old(self).cursor()
            },
    {
        let raw = self.read_u16()?;
        Ok(Fixed88 { raw })
    }

    /// Advance the cursor by `n_bytes` without returning the bytes.
    pub fn skip_bytes(&mut self, n_bytes: u64) -> (r: Result<(), Mp4Error>)
        requires
            old(self).wf(),
        ensures
            final(self).wf(),
            final(self).bytes() == old(self).bytes(),
            old(self).cursor() + n_bytes <= final(self).bytes().len() ==> {
                &&& r is Ok
                &&& final(self).cursor() == old(self).cursor() + n_bytes
            },
            old(self).cursor() + n_bytes > final(self).bytes().len() ==> {
                &&& r == Err::<(), Mp4Error>(Mp4Error::Truncated {
                    requested: n_bytes,
                    position: old(self).cursor() as u64,
                    length: final(self).bytes().len() as u64,
                })
                &&& final(self).cursor() == old(self).cursor()
            },
    {
        if (self.buf.len() - self.pos) as u64 >= n_bytes {
            self.pos = self.pos + (n_bytes as usize);
            Ok(())
        } else {
            Err(self.truncated(n_bytes))
        }
    }
}

} // verus!
