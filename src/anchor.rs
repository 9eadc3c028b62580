use vstd::prelude::*;

use crate::context::Standalone;
use crate::cursor::{i16_at, u16_at, Cursor};
use crate::decode::{optional_decodes, optional_failure, with_jump, Decode};
use crate::device::Device;
use crate::error::{DecodeError, Table};

verus! {

/// An anchor: an attachment point on a glyph, in one of three formats.
#[derive(Clone, Debug)]
pub enum Anchor {
    Format1(Anchor1),
    Format2(Anchor2),
    Format3(Anchor3),
}

/// An anchor in format 1: design coordinates only.
#[derive(Clone, Copy, Debug, PartialEq, Eq, Structural)]
pub struct Anchor1 {
    pub format: u16,
    pub x: i16,
    pub y: i16,
}

/// An anchor in format 2: design coordinates and a contour point.
#[derive(Clone, Copy, Debug, PartialEq, Eq, Structural)]
pub struct Anchor2 {
    pub format: u16,
    pub x: i16,
    pub y: i16,
    pub index: u16,
}

/// An anchor in format 3: design coordinates and a device table for each,
/// whose offsets are relative to the anchor itself.
#[derive(Clone, Debug)]
pub struct Anchor3 {
    pub format: u16,
    pub x: i16,
    pub y: i16,
    pub device_x_offset: u16,
    pub device_y_offset: u16,
    pub device_x: Option<Device>,
    pub device_y: Option<Device>,
}

/// The first error met when the format field at `p` must be `format`.
pub open spec fn format_failure(d: Seq<u8>, p: int, format: u16) -> Option<DecodeError> {
    if p + 2 > d.len() {
        Some(DecodeError::Truncated)
    } else if u16_at(d, p) != format {
        Some(DecodeError::UnknownFormat(Table::Anchor, u16_at(d, p)))
    } else {
        None
    }
}

/// Reads a format field that must hold `format`.
fn read_format(c: &mut Cursor, format: u16) -> (r: Result<u16, DecodeError>)
    ensures
        final(c).data() == old(c).data(),
        match r {
            Ok(v) => format_failure(old(c).data(), old(c).pos(), format) is None && v == format
                && final(c).pos() == old(c).pos() + 2,
            Err(e) => format_failure(old(c).data(), old(c).pos(), format) == Some(e),
        },
{
    let value = c.read_u16()?;
    if value != format {
        return Err(DecodeError::UnknownFormat(Table::Anchor, value));
    }
    Ok(value)
}

impl Decode for Anchor1 {
    type Parameter = Standalone;

    open spec fn failure(d: Seq<u8>, p: int, param: Standalone) -> Option<DecodeError> {
        if format_failure(d, p, 1) is Some {
            format_failure(d, p, 1)
        } else if p + 6 > d.len() {
            Some(DecodeError::Truncated)
        } else {
            None
        }
    }

    open spec fn decodes(d: Seq<u8>, p: int, param: Standalone, value: Anchor1) -> bool {
        value == Anchor1 { format: 1, x: i16_at(d, p + 2), y: i16_at(d, p + 4) }
    }

    open spec fn end(d: Seq<u8>, p: int, param: Standalone) -> int {
        p + 6
    }

    fn read(c: &mut Cursor, param: Standalone) -> (r: Result<Anchor1, DecodeError>) {
        let format = read_format(c, 1)?;
        let x = c.read_i16()?;
        let y = c.read_i16()?;
        Ok(Anchor1 { format, x, y })
    }
}

impl Decode for Anchor2 {
    type Parameter = Standalone;

    open spec fn failure(d: Seq<u8>, p: int, param: Standalone) -> Option<DecodeError> {
        if format_failure(d, p, 2) is Some {
            format_failure(d, p, 2)
        } else if p + 8 > d.len() {
            Some(DecodeError::Truncated)
        } else {
            None
        }
    }

    open spec fn decodes(d: Seq<u8>, p: int, param: Standalone, value: Anchor2) -> bool {
        value == Anchor2 {
            format: 2,
            x: i16_at(d, p + 2),
            y: i16_at(d, p + 4),
            index: u16_at(d, p + 6),
        }
    }

    open spec fn end(d: Seq<u8>, p: int, param: Standalone) -> int {
        p + 8
    }

    fn read(c: &mut Cursor, param: Standalone) -> (r: Result<Anchor2, DecodeError>) {
        let format = read_format(c, 2)?;
        let x = c.read_i16()?;
        let y = c.read_i16()?;
        let index = c.read_u16()?;
        Ok(Anchor2 { format, x, y, index })
    }
}

impl Decode for Anchor3 {
    type Parameter = Standalone;

    open spec fn failure(d: Seq<u8>, p: int, param: Standalone) -> Option<DecodeError> {
        if format_failure(d, p, 3) is Some {
            format_failure(d, p, 3)
        } else if p + 10 > d.len() {
            Some(DecodeError::Truncated)
        } else if optional_failure::<Device>(d, p, u16_at(d, p + 6), Standalone) is Some {
            optional_failure::<Device>(d, p, u16_at(d, p + 6), Standalone)
        } else {
            optional_failure::<Device>(d, p, u16_at(d, p + 8), Standalone)
        }
    }

    open spec fn decodes(d: Seq<u8>, p: int, param: Standalone, value: Anchor3) -> bool {
        &&& value.format == 3
        &&& value.x == i16_at(d, p + 2)
        &&& value.y == i16_at(d, p + 4)
        &&& value.device_x_offset == u16_at(d, p + 6)
        &&& value.device_y_offset == u16_at(d, p + 8)
        &&& optional_decodes(d, p, value.device_x_offset, Standalone, value.device_x)
        &&& optional_decodes(d, p, value.device_y_offset, Standalone, value.device_y)
    }

    open spec fn end(d: Seq<u8>, p: int, param: Standalone) -> int {
        p + 10
    }

    fn read(c: &mut Cursor, param: Standalone) -> (r: Result<Anchor3, DecodeError>) {
        let position = c.position();
        let format = read_format(c, 3)?;
        let x = c.read_i16()?;
        let y = c.read_i16()?;
        let device_x_offset = c.read_u16()?;
        let device_y_offset = c.read_u16()?;
        let device_x = with_jump(c, position, device_x_offset, Standalone)?;
        let device_y = with_jump(c, position, device_y_offset, Standalone)?;
        Ok(Anchor3 { format, x, y, device_x_offset, device_y_offset, device_x, device_y })
    }
}

impl Decode for Anchor {
    type Parameter = Standalone;

    open spec fn failure(d: Seq<u8>, p: int, param: Standalone) -> Option<DecodeError> {
        if p + 2 > d.len() {
            Some(DecodeError::Truncated)
        } else if u16_at(d, p) == 1 {
            Anchor1::failure(d, p, param)
        } else if u16_at(d, p) == 2 {
            Anchor2::failure(d, p, param)
        } else if u16_at(d, p) == 3 {
            Anchor3::failure(d, p, param)
        } else {
            Some(DecodeError::UnknownFormat(Table::Anchor, u16_at(d, p)))
        }
    }

    open spec fn decodes(d: Seq<u8>, p: int, param: Standalone, value: Anchor) -> bool {
        match value {
            Anchor::Format1(a) => u16_at(d, p) == 1 && Anchor1::decodes(d, p, param, a),
            Anchor::Format2(a) => u16_at(d, p) == 2 && Anchor2::decodes(d, p, param, a),
            Anchor::Format3(a) => u16_at(d, p) == 3 && Anchor3::decodes(d, p, param, a),
        }
    }

    open spec fn end(d: Seq<u8>, p: int, param: Standalone) -> int {
        if u16_at(d, p) == 1 {
            p + 6
        } else if u16_at(d, p) == 2 {
            p + 8
        } else {
            p + 10
        }
    }

    fn read(c: &mut Cursor, param: Standalone) -> (r: Result<Anchor, DecodeError>) {
        let format = c.peek_u16()?;
        if format == 1 {
            Ok(Anchor::Format1(Anchor1::read(c, param)?))
        } else if format == 2 {
            Ok(Anchor::Format2(Anchor2::read(c, param)?))
        } else if format == 3 {
            Ok(Anchor::Format3(Anchor3::read(c, param)?))
        } else {
            Err(DecodeError::UnknownFormat(Table::Anchor, format))
        }
    }
}

/// An anchor whose format field names none of the three formats fails with
/// that format, whatever follows it.
pub proof fn lemma_anchor_unknown_format(d: Seq<u8>, p: int)
    requires
        0 <= p,
        p + 2 <= d.len(),
        u16_at(d, p) != 1 && u16_at(d, p) != 2 && u16_at(d, p) != 3,
    ensures
        Anchor::failure(d, p, Standalone) == Some(
            DecodeError::UnknownFormat(Table::Anchor, u16_at(d, p)),
        ),
{
}

/// The two bytes of `v`, high byte first.
pub open spec fn u16_bytes(v: u16) -> Seq<u8> {
    seq![(v / 256) as u8, (v % 256) as u8]
}

/// The two bytes of `v` in two's complement, high byte first.
pub open spec fn i16_bytes(v: i16) -> Seq<u8> {
    if v < 0 {
        u16_bytes((v + 65536) as u16)
    } else {
        u16_bytes(v as u16)
    }
}

impl Anchor1 {
    /// The six bytes that store this anchor.
    pub open spec fn bytes(self) -> Seq<u8> {
        u16_bytes(self.format) + i16_bytes(self.x) + i16_bytes(self.y)
    }

    /// Stores this anchor in its six bytes.
    pub fn encode(&self) -> (r: Vec<u8>)
        ensures
            r@ == self.bytes(),
    {
        let mut out: Vec<u8> = Vec::new();
        push_u16(&mut out, self.format);
        push_i16(&mut out, self.x);
        push_i16(&mut out, self.y);
        proof {
            assert(out@ =~= self.bytes());
        }
        out
    }
}

/// Appends the two bytes of `v`, high byte first.
fn push_u16(out: &mut Vec<u8>, v: u16)
    ensures
        final(out)@ == old(out)@ + u16_bytes(v),
{
    out.push((v / 256) as u8);
    out.push((v % 256) as u8);
    assert(out@ =~= old(out)@ + u16_bytes(v));
}

/// Appends the two bytes of `v` in two's complement, high byte first.
fn push_i16(out: &mut Vec<u8>, v: i16)
    ensures
        final(out)@ == old(out)@ + i16_bytes(v),
{
    if v < 0 {
        push_u16(out, (v as i32 + 65536) as u16);
    } else {
        push_u16(out, v as u16);
    }
}

/// Reading back the bytes of a 16-bit integer gives the integer.
proof fn lemma_u16_bytes(v: u16, d: Seq<u8>, p: int)
    requires
        0 <= p,
        p + 2 <= d.len(),
        d.subrange(p, p + 2) == u16_bytes(v),
    ensures
        u16_at(d, p) == v,
{
    assert(d[p] == d.subrange(p, p + 2)[0]);
    assert(d[p + 1] == d.subrange(p, p + 2)[1]);
}

/// Reading back the bytes of a signed 16-bit integer gives the integer.
proof fn lemma_i16_bytes(v: i16, d: Seq<u8>, p: int)
    requires
        0 <= p,
        p + 2 <= d.len(),
        d.subrange(p, p + 2) == i16_bytes(v),
    ensures
        i16_at(d, p) == v,
{
    if v < 0 {
        lemma_u16_bytes((v + 65536) as u16, d, p);
    } else {
        lemma_u16_bytes(v as u16, d, p);
    }
}

/// Decoding the bytes of an anchor in format 1 gives back the same anchor,
/// whatever its coordinates.
pub proof fn lemma_anchor1_round_trip(a: Anchor1)
    requires
        a.format == 1,
    ensures
        Anchor::failure(a.bytes(), 0, Standalone) is None,
        Anchor::decodes(a.bytes(), 0, Standalone, Anchor::Format1(a)),
        Anchor::end(a.bytes(), 0, Standalone) == a.bytes().len(),
{
    let d = a.bytes();
    assert(d.subrange(0, 2) =~= u16_bytes(a.format));
    assert(d.subrange(2, 4) =~= i16_bytes(a.x));
    assert(d.subrange(4, 6) =~= i16_bytes(a.y));
    lemma_u16_bytes(a.format, d, 0);
    lemma_i16_bytes(a.x, d, 2);
    lemma_i16_bytes(a.y, d, 4);
}

} // verus!
