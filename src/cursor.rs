use vstd::prelude::*;

use crate::error::DecodeError;
use crate::script::Tag;

verus! {

/// The big-endian 16-bit unsigned integer stored at `p`.
pub open spec fn u16_at(d: Seq<u8>, p: int) -> u16 {
    (d[p] as int * 256 + d[p + 1] as int) as u16
}

/// The big-endian 16-bit two's-complement integer stored at `p`.
pub open spec fn i16_at(d: Seq<u8>, p: int) -> i16 {
    let u = u16_at(d, p) as int;
    if u < 32768 {
        u as i16
    } else {
        (u - 65536) as i16
    }
}

/// The big-endian 32-bit unsigned integer stored at `p`.
pub open spec fn u32_at(d: Seq<u8>, p: int) -> u32 {
    (u16_at(d, p) as int * 65536 + u16_at(d, p + 2) as int) as u32
}

/// The `n` big-endian 16-bit unsigned integers stored from `p` on.
pub open spec fn u16s_at(d: Seq<u8>, p: int, n: int) -> Seq<u16> {
    Seq::new(n as nat, |i: int| u16_at(d, p + 2 * i))
}

/// A random-access reader over an immutable byte buffer.
pub struct Cursor<'a> {
    data: &'a [u8],
    pos: u64,
}

impl<'a> Cursor<'a> {
    /// The bytes read from.
    pub closed spec fn data(&self) -> Seq<u8> {
        self.data@
    }

    /// The current position, as a byte offset from the start of the buffer.
    pub closed spec fn pos(&self) -> int {
        self.pos as int
    }

    /// Whether `n` more bytes can be read from the current position.
    pub open spec fn fits(&self, n: int) -> bool {
        self.pos() + n <= self.data().len()
    }

    #[verifier::type_invariant]
    closed spec fn inv(&self) -> bool {
        self.pos <= self.data@.len() <= u64::MAX
    }

    /// A cursor at the start of `data`.
    pub fn new(data: &'a [u8]) -> (r: Cursor<'a>)
        ensures
            r.data() == data@,
            r.pos() == 0,
    {
        proof {
            assert(data@.len() == data.len());
        }
        Cursor { data, pos: 0 }
    }

    /// The current position.
    pub fn position(&self) -> (r: u64)
        ensures
            r as int == self.pos(),
            self.pos() <= self.data().len() <= u64::MAX,
    {
        proof {
            use_type_invariant(self);
        }
        self.pos
    }

    /// The length of the buffer.
    pub fn len(&self) -> (r: u64)
        ensures
            r == self.data().len(),
    {
        self.data.len() as u64
    }

    /// Moves to the absolute position `target`, which may be the end of the
    /// buffer but not beyond it.
    pub fn seek(&mut self, target: u64) -> (r: Result<(), DecodeError>)
        ensures
            final(self).data() == old(self).data(),
            target <= old(self).data().len() ==> r is Ok && final(self).pos() == target,
            target > old(self).data().len() ==> r == Err::<(), DecodeError>(
                DecodeError::OutOfBounds,
            ) && final(self).pos() == old(self).pos(),
    {
        if target > self.data.len() as u64 {
            return Err(DecodeError::OutOfBounds);
        }
        self.pos = target;
        Ok(())
    }

    /// Reads one byte.
    pub fn read_u8(&mut self) -> (r: Result<u8, DecodeError>)
        ensures
            final(self).data() == old(self).data(),
            old(self).fits(1) ==> r == Ok::<u8, DecodeError>(old(self).data()[old(self).pos()])
                && final(self).pos() == old(self).pos() + 1,
            !old(self).fits(1) ==> r == Err::<u8, DecodeError>(DecodeError::Truncated)
                && final(self).pos() == old(self).pos(),
    {
        proof {
            use_type_invariant(&*self);
        }
        if self.pos >= self.data.len() as u64 {
            return Err(DecodeError::Truncated);
        }
        let v = self.data[self.pos as usize];
        self.pos = self.pos + 1;
        Ok(v)
    }

    /// Reads the 16-bit unsigned integer at the current position, without
    /// moving.
    pub fn peek_u16(&self) -> (r: Result<u16, DecodeError>)
        ensures
            self.fits(2) ==> r == Ok::<u16, DecodeError>(u16_at(self.data(), self.pos())),
            !self.fits(2) ==> r == Err::<u16, DecodeError>(DecodeError::Truncated),
    {
        proof {
            use_type_invariant(self);
        }
        if (self.data.len() as u64) - self.pos < 2 {
            return Err(DecodeError::Truncated);
        }
        let p = self.pos as usize;
        Ok(self.data[p] as u16 * 256 + self.data[p + 1] as u16)
    }

    /// Reads a big-endian 16-bit unsigned integer.
    pub fn read_u16(&mut self) -> (r: Result<u16, DecodeError>)
        ensures
            final(self).data() == old(self).data(),
            old(self).fits(2) ==> r == Ok::<u16, DecodeError>(
                u16_at(old(self).data(), old(self).pos()),
            ) && final(self).pos() == old(self).pos() + 2,
            !old(self).fits(2) ==> r == Err::<u16, DecodeError>(DecodeError::Truncated)
                && final(self).pos() == old(self).pos(),
    {
        proof {
            use_type_invariant(&*self);
        }
        let v = self.peek_u16()?;
        self.pos = self.pos + 2;
        Ok(v)
    }

    /// Reads a big-endian 16-bit two's-complement integer.
    pub fn read_i16(&mut self) -> (r: Result<i16, DecodeError>)
        ensures
            final(self).data() == old(self).data(),
            old(self).fits(2) ==> r == Ok::<i16, DecodeError>(
                i16_at(old(self).data(), old(self).pos()),
            ) && final(self).pos() == old(self).pos() + 2,
            !old(self).fits(2) ==> r == Err::<i16, DecodeError>(DecodeError::Truncated)
                && final(self).pos() == old(self).pos(),
    {
        let u = self.read_u16()?;
        if u < 32768 {
            Ok(u as i16)
        } else {
            Ok((u - 32768) as i16 + i16::MIN)
        }
    }

    /// Reads a big-endian 32-bit unsigned integer.
    pub fn read_u32(&mut self) -> (r: Result<u32, DecodeError>)
        ensures
            final(self).data() == old(self).data(),
            old(self).fits(4) ==> r == Ok::<u32, DecodeError>(
                u32_at(old(self).data(), old(self).pos()),
            ) && final(self).pos() == old(self).pos() + 4,
            !old(self).fits(4) ==> r == Err::<u32, DecodeError>(DecodeError::Truncated)
                && final(self).pos() == old(self).pos(),
    {
        proof {
            use_type_invariant(&*self);
        }
        if (self.data.len() as u64) - self.pos < 4 {
            return Err(DecodeError::Truncated);
        }
        let high = self.read_u16()?;
        let low = self.read_u16()?;
        Ok(high as u32 * 65536 + low as u32)
    }

    /// Reads a four-byte tag.
    pub fn read_tag(&mut self) -> (r: Result<Tag, DecodeError>)
        ensures
            final(self).data() == old(self).data(),
            old(self).fits(4) ==> r == Ok::<Tag, DecodeError>(
                Tag(u32_at(old(self).data(), old(self).pos())),
            ) && final(self).pos() == old(self).pos() + 4,
            !old(self).fits(4) ==> r == Err::<Tag, DecodeError>(DecodeError::Truncated)
                && final(self).pos() == old(self).pos(),
    {
        let value = self.read_u32()?;
        Ok(Tag(value))
    }

    /// Reads `n` big-endian 16-bit unsigned integers.
    pub fn read_u16s(&mut self, n: u16) -> (r: Result<Vec<u16>, DecodeError>)
        ensures
            final(self).data() == old(self).data(),
            old(self).fits(2 * n) ==> (r matches Ok(v) && v@ == u16s_at(
                old(self).data(),
                old(self).pos(),
                n as int,
            )) && final(self).pos() == old(self).pos() + 2 * n,
            !old(self).fits(2 * n) ==> r == Err::<Vec<u16>, DecodeError>(DecodeError::Truncated)
                && final(self).pos() == old(self).pos(),
    {
        proof {
            use_type_invariant(&*self);
        }
        if (self.data.len() as u64) - self.pos < 2 * (n as u64) {
            return Err(DecodeError::Truncated);
        }
        let ghost start = self.pos();
        let mut values: Vec<u16> = Vec::new();
        let mut i: u16 = 0;
        while i < n
            invariant
                i <= n,
                self.data() == old(self).data(),
                start == old(self).pos(),
                self.pos() == start + 2 * i,
                start + 2 * n <= self.data().len(),
                values@ == u16s_at(self.data(), start, i as int),
            decreases n - i,
        {
            let v = self.read_u16()?;
            values.push(v);
            i = i + 1;
            assert(values@ =~= u16s_at(self.data(), start, i as int));
        }
        Ok(values)
    }
}

} // verus!
