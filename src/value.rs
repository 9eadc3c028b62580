use vstd::prelude::*;

use crate::cursor::{i16_at, u16_at, Cursor};
use crate::decode::{
    array_decodes, array_failure, optional_decodes, optional_failure, read_array, with_jump,
    Decode, FixedSize,
};
use crate::context::{ClassPairs, Pairs, Standalone, Values};
use crate::device::Device;
use crate::error::DecodeError;

verus! {

/// A glyph identifier.
pub type GlyphID = u16;

/// The flags that say which fields a value record holds.
#[derive(Clone, Copy, Debug, PartialEq, Eq, Structural)]
pub struct SingleFlags(pub u16);

// The bits of the flags, one for each field, in the order the fields are
// stored; the high byte is reserved.
pub const X_PLACEMENT: u16 = 0x0001;
pub const Y_PLACEMENT: u16 = 0x0002;
pub const X_ADVANCE: u16 = 0x0004;
pub const Y_ADVANCE: u16 = 0x0008;
pub const DEVICE_X_PLACEMENT: u16 = 0x0010;
pub const DEVICE_Y_PLACEMENT: u16 = 0x0020;
pub const DEVICE_X_ADVANCE: u16 = 0x0040;
pub const DEVICE_Y_ADVANCE: u16 = 0x0080;
pub const RESERVED: u16 = 0xff00;

impl SingleFlags {
    /// Whether the bit of `mask` is set.
    pub open spec fn has(self, mask: u16) -> bool {
        self.0 & mask != 0
    }

    pub fn has_x_placement(&self) -> (r: bool)
        ensures
            r == self.has(X_PLACEMENT),
    {
        self.0 & X_PLACEMENT != 0
    }

    pub fn has_y_placement(&self) -> (r: bool)
        ensures
            r == self.has(Y_PLACEMENT),
    {
        self.0 & Y_PLACEMENT != 0
    }

    pub fn has_x_advance(&self) -> (r: bool)
        ensures
            r == self.has(X_ADVANCE),
    {
        self.0 & X_ADVANCE != 0
    }

    pub fn has_y_advance(&self) -> (r: bool)
        ensures
            r == self.has(Y_ADVANCE),
    {
        self.0 & Y_ADVANCE != 0
    }

    pub fn has_device_x_placement(&self) -> (r: bool)
        ensures
            r == self.has(DEVICE_X_PLACEMENT),
    {
        self.0 & DEVICE_X_PLACEMENT != 0
    }

    pub fn has_device_y_placement(&self) -> (r: bool)
        ensures
            r == self.has(DEVICE_Y_PLACEMENT),
    {
        self.0 & DEVICE_Y_PLACEMENT != 0
    }

    pub fn has_device_x_advance(&self) -> (r: bool)
        ensures
            r == self.has(DEVICE_X_ADVANCE),
    {
        self.0 & DEVICE_X_ADVANCE != 0
    }

    pub fn has_device_y_advance(&self) -> (r: bool)
        ensures
            r == self.has(DEVICE_Y_ADVANCE),
    {
        self.0 & DEVICE_Y_ADVANCE != 0
    }

    /// Whether a reserved bit is set.
    pub fn is_invalid(&self) -> (r: bool)
        ensures
            r == self.has(RESERVED),
    {
        self.0 & RESERVED != 0
    }

    /// The number of bytes the field of `mask` takes: two where present.
    pub open spec fn width(self, mask: u16) -> int {
        if self.has(mask) {
            2
        } else {
            0
        }
    }

    /// Where the field of `mask` stands in a value record: the widths of the
    /// fields of lower bits come first.
    pub open spec fn offset_of(self, mask: u16) -> int {
        (if mask > X_PLACEMENT { self.width(X_PLACEMENT) } else { 0 }) + (if mask > Y_PLACEMENT {
            self.width(Y_PLACEMENT)
        } else {
            0
        }) + (if mask > X_ADVANCE { self.width(X_ADVANCE) } else { 0 }) + (if mask > Y_ADVANCE {
            self.width(Y_ADVANCE)
        } else {
            0
        }) + (if mask > DEVICE_X_PLACEMENT { self.width(DEVICE_X_PLACEMENT) } else { 0 }) + (
        if mask > DEVICE_Y_PLACEMENT {
            self.width(DEVICE_Y_PLACEMENT)
        } else {
            0
        }) + (if mask > DEVICE_X_ADVANCE { self.width(DEVICE_X_ADVANCE) } else { 0 }) + (
        if mask > DEVICE_Y_ADVANCE {
            self.width(DEVICE_Y_ADVANCE)
        } else {
            0
        })
    }

    /// The number of bytes a value record with these flags occupies.
    pub open spec fn size(self) -> nat {
        self.offset_of(0x100) as nat
    }
}

/// The signed field of `mask` of the value record at `p`, if the flags hold it.
pub open spec fn signed_field(d: Seq<u8>, p: int, flags: SingleFlags, mask: u16) -> Option<i16> {
    if flags.has(mask) {
        Some(i16_at(d, p + flags.offset_of(mask)))
    } else {
        None
    }
}

/// The offset field of `mask` of the value record at `p`, if the flags hold it.
pub open spec fn offset_field(d: Seq<u8>, p: int, flags: SingleFlags, mask: u16) -> Option<u16> {
    if flags.has(mask) {
        Some(u16_at(d, p + flags.offset_of(mask)))
    } else {
        None
    }
}

/// The first error met when resolving a device offset field.
pub open spec fn device_failure(d: Seq<u8>, base: int, offset: Option<u16>) -> Option<DecodeError> {
    match offset {
        Some(o) => optional_failure::<Device>(d, base, o, Standalone),
        None => None,
    }
}

/// Whether `device` is what a device offset field refers to.
pub open spec fn device_decodes(
    d: Seq<u8>,
    base: int,
    offset: Option<u16>,
    device: Option<Device>,
) -> bool {
    match offset {
        Some(o) => optional_decodes::<Device>(d, base, o, Standalone, device),
        None => device is None,
    }
}

/// A value record: the adjustments of a glyph's placement and advance, each
/// present only where the flags say so.
#[derive(Clone, Debug)]
pub struct Single {
    pub x_placement: Option<i16>,
    pub y_placement: Option<i16>,
    pub x_advance: Option<i16>,
    pub y_advance: Option<i16>,
    pub device_x_placement_offset: Option<u16>,
    pub device_y_placement_offset: Option<u16>,
    pub device_x_advance_offset: Option<u16>,
    pub device_y_advance_offset: Option<u16>,
    pub device_x_placement: Option<Device>,
    pub device_y_placement: Option<Device>,
    pub device_x_advance: Option<Device>,
    pub device_y_advance: Option<Device>,
}

/// Reads the field of `mask` as a signed integer if the flags hold it.
fn read_signed(c: &mut Cursor, flags: SingleFlags, mask: u16) -> (r: Result<Option<i16>, DecodeError>)
    ensures
        final(c).data() == old(c).data(),
        !flags.has(mask) ==> r == Ok::<Option<i16>, DecodeError>(None) && final(c).pos() == old(
            c,
        ).pos(),
        flags.has(mask) && old(c).fits(2) ==> r == Ok::<Option<i16>, DecodeError>(
            Some(i16_at(old(c).data(), old(c).pos())),
        ) && final(c).pos() == old(c).pos() + 2,
        flags.has(mask) && !old(c).fits(2) ==> r == Err::<Option<i16>, DecodeError>(
            DecodeError::Truncated,
        ),
{
    if flags.0 & mask != 0 {
        let v = c.read_i16()?;
        Ok(Some(v))
    } else {
        Ok(None)
    }
}

/// Reads the field of `mask` as an offset if the flags hold it.
fn read_offset(c: &mut Cursor, flags: SingleFlags, mask: u16) -> (r: Result<Option<u16>, DecodeError>)
    ensures
        final(c).data() == old(c).data(),
        !flags.has(mask) ==> r == Ok::<Option<u16>, DecodeError>(None) && final(c).pos() == old(
            c,
        ).pos(),
        flags.has(mask) && old(c).fits(2) ==> r == Ok::<Option<u16>, DecodeError>(
            Some(u16_at(old(c).data(), old(c).pos())),
        ) && final(c).pos() == old(c).pos() + 2,
        flags.has(mask) && !old(c).fits(2) ==> r == Err::<Option<u16>, DecodeError>(
            DecodeError::Truncated,
        ),
{
    if flags.0 & mask != 0 {
        let v = c.read_u16()?;
        Ok(Some(v))
    } else {
        Ok(None)
    }
}

/// Reads the four adjustments of a value record.
fn read_adjustments(c: &mut Cursor, flags: SingleFlags) -> (r: Result<
    (Option<i16>, Option<i16>, Option<i16>, Option<i16>),
    DecodeError,
>)
    ensures
        final(c).data() == old(c).data(),
        match r {
            Ok(v) => {
                &&& v.0 == signed_field(old(c).data(), old(c).pos(), flags, X_PLACEMENT)
                &&& v.1 == signed_field(old(c).data(), old(c).pos(), flags, Y_PLACEMENT)
                &&& v.2 == signed_field(old(c).data(), old(c).pos(), flags, X_ADVANCE)
                &&& v.3 == signed_field(old(c).data(), old(c).pos(), flags, Y_ADVANCE)
                &&& final(c).pos() == old(c).pos() + flags.offset_of(DEVICE_X_PLACEMENT)
            },
            Err(e) => e == DecodeError::Truncated && !old(c).fits(flags.size() as int),
        },
{
    let x_placement = read_signed(c, flags, X_PLACEMENT)?;
    let y_placement = read_signed(c, flags, Y_PLACEMENT)?;
    let x_advance = read_signed(c, flags, X_ADVANCE)?;
    let y_advance = read_signed(c, flags, Y_ADVANCE)?;
    Ok((x_placement, y_placement, x_advance, y_advance))
}

/// Reads the four device offsets of a value record, which follow its
/// adjustments.
fn read_device_offsets(c: &mut Cursor, flags: SingleFlags, Ghost(p): Ghost<int>) -> (r: Result<
    (Option<u16>, Option<u16>, Option<u16>, Option<u16>),
    DecodeError,
>)
    requires
        old(c).pos() == p + flags.offset_of(DEVICE_X_PLACEMENT),
    ensures
        final(c).data() == old(c).data(),
        match r {
            Ok(v) => {
                &&& v.0 == offset_field(old(c).data(), p, flags, DEVICE_X_PLACEMENT)
                &&& v.1 == offset_field(old(c).data(), p, flags, DEVICE_Y_PLACEMENT)
                &&& v.2 == offset_field(old(c).data(), p, flags, DEVICE_X_ADVANCE)
                &&& v.3 == offset_field(old(c).data(), p, flags, DEVICE_Y_ADVANCE)
                &&& final(c).pos() == p + flags.size()
                &&& p + flags.size() <= old(c).data().len()
            },
            Err(e) => e == DecodeError::Truncated && p + flags.size() > old(c).data().len(),
        },
{
    let x_placement = read_offset(c, flags, DEVICE_X_PLACEMENT)?;
    let y_placement = read_offset(c, flags, DEVICE_Y_PLACEMENT)?;
    let x_advance = read_offset(c, flags, DEVICE_X_ADVANCE)?;
    let y_advance = read_offset(c, flags, DEVICE_Y_ADVANCE)?;
    // The cursor never passes the end of the buffer, so the record fits.
    c.position();
    Ok((x_placement, y_placement, x_advance, y_advance))
}

/// Resolves a device offset field against `base`.
fn read_device(c: &mut Cursor, base: u64, offset: Option<u16>) -> (r: Result<
    Option<Device>,
    DecodeError,
>)
    ensures
        final(c).data() == old(c).data(),
        match r {
            Ok(v) => device_failure(old(c).data(), base as int, offset) is None && device_decodes(
                old(c).data(),
                base as int,
                offset,
                v,
            ) && final(c).pos() == old(c).pos(),
            Err(e) => device_failure(old(c).data(), base as int, offset) == Some(e),
        },
{
    match offset {
        Some(o) => with_jump(c, base, o, Standalone),
        None => Ok(None),
    }
}

impl Single {
    /// Whether the record holds no field at all.
    pub open spec fn is_blank(self) -> bool {
        &&& self.x_placement is None
        &&& self.y_placement is None
        &&& self.x_advance is None
        &&& self.y_advance is None
        &&& self.device_x_placement_offset is None
        &&& self.device_y_placement_offset is None
        &&& self.device_x_advance_offset is None
        &&& self.device_y_advance_offset is None
        &&& self.device_x_placement is None
        &&& self.device_y_placement is None
        &&& self.device_x_advance is None
        &&& self.device_y_advance is None
    }
}

impl Decode for Single {
    type Parameter = Values;

    open spec fn failure(d: Seq<u8>, p: int, param: Values) -> Option<DecodeError> {
        let base = param.position;
        let flags = param.flags;
        if p + flags.size() > d.len() {
            Some(DecodeError::Truncated)
        } else if device_failure(d, base as int, offset_field(d, p, flags, DEVICE_X_PLACEMENT)) is Some {
            device_failure(d, base as int, offset_field(d, p, flags, DEVICE_X_PLACEMENT))
        } else if device_failure(d, base as int, offset_field(d, p, flags, DEVICE_Y_PLACEMENT)) is Some {
            device_failure(d, base as int, offset_field(d, p, flags, DEVICE_Y_PLACEMENT))
        } else if device_failure(d, base as int, offset_field(d, p, flags, DEVICE_X_ADVANCE)) is Some {
            device_failure(d, base as int, offset_field(d, p, flags, DEVICE_X_ADVANCE))
        } else {
            device_failure(d, base as int, offset_field(d, p, flags, DEVICE_Y_ADVANCE))
        }
    }

    open spec fn decodes(d: Seq<u8>, p: int, param: Values, value: Single) -> bool {
        let base = param.position;
        let flags = param.flags;
        &&& value.x_placement == signed_field(d, p, flags, X_PLACEMENT)
        &&& value.y_placement == signed_field(d, p, flags, Y_PLACEMENT)
        &&& value.x_advance == signed_field(d, p, flags, X_ADVANCE)
        &&& value.y_advance == signed_field(d, p, flags, Y_ADVANCE)
        &&& value.device_x_placement_offset == offset_field(d, p, flags, DEVICE_X_PLACEMENT)
        &&& value.device_y_placement_offset == offset_field(d, p, flags, DEVICE_Y_PLACEMENT)
        &&& value.device_x_advance_offset == offset_field(d, p, flags, DEVICE_X_ADVANCE)
        &&& value.device_y_advance_offset == offset_field(d, p, flags, DEVICE_Y_ADVANCE)
        &&& device_decodes(
            d,
            base as int,
            value.device_x_placement_offset,
            value.device_x_placement,
        )
        &&& device_decodes(
            d,
            base as int,
            value.device_y_placement_offset,
            value.device_y_placement,
        )
        &&& device_decodes(d, base as int, value.device_x_advance_offset, value.device_x_advance)
        &&& device_decodes(d, base as int, value.device_y_advance_offset, value.device_y_advance)
    }

    open spec fn end(d: Seq<u8>, p: int, param: Values) -> int {
        p + param.flags.size()
    }

    fn read(c: &mut Cursor, param: Values) -> (r: Result<Single, DecodeError>) {
        let base = param.position;
        let flags = param.flags;
        let ghost d = c.data();
        let ghost p = c.pos();
        let (x_placement, y_placement, x_advance, y_advance) = read_adjustments(c, flags)?;
        let (
            device_x_placement_offset,
            device_y_placement_offset,
            device_x_advance_offset,
            device_y_advance_offset,
        ) = read_device_offsets(c, flags, Ghost(p))?;
        let device_x_placement = read_device(c, base, device_x_placement_offset)?;
        let device_y_placement = read_device(c, base, device_y_placement_offset)?;
        let device_x_advance = read_device(c, base, device_x_advance_offset)?;
        let device_y_advance = read_device(c, base, device_y_advance_offset)?;
        Ok(Single {
            x_placement,
            y_placement,
            x_advance,
            y_advance,
            device_x_placement_offset,
            device_y_placement_offset,
            device_x_advance_offset,
            device_y_advance_offset,
            device_x_placement,
            device_y_placement,
            device_x_advance,
            device_y_advance,
        })
    }
}

/// A pair adjustment in format 1: the second glyph and the value records of
/// both glyphs.
#[derive(Clone, Debug)]
pub struct Pair1 {
    pub glyph2_id: GlyphID,
    pub value1: Single,
    pub value2: Single,
}

impl Decode for Pair1 {
    type Parameter = Pairs;

    open spec fn failure(d: Seq<u8>, p: int, param: Pairs) -> Option<DecodeError> {
        if p + 2 > d.len() {
            Some(DecodeError::Truncated)
        } else if Single::failure(d, p + 2, param.first()) is Some {
            Single::failure(d, p + 2, param.first())
        } else {
            Single::failure(d, p + 2 + param.value1_flags.size(), param.second())
        }
    }

    open spec fn decodes(d: Seq<u8>, p: int, param: Pairs, value: Pair1) -> bool {
        &&& value.glyph2_id == u16_at(d, p)
        &&& Single::decodes(d, p + 2, param.first(), value.value1)
        &&& Single::decodes(d, p + 2 + param.value1_flags.size(), param.second(), value.value2)
    }

    open spec fn end(d: Seq<u8>, p: int, param: Pairs) -> int {
        p + 2 + param.value1_flags.size() + param.value2_flags.size()
    }

    fn read(c: &mut Cursor, param: Pairs) -> (r: Result<Pair1, DecodeError>) {
        let glyph2_id = c.read_u16()?;
        let value1 = Single::read(
            c,
            Values { position: param.position, flags: param.value1_flags },
        )?;
        let value2 = Single::read(
            c,
            Values { position: param.position, flags: param.value2_flags },
        )?;
        Ok(Pair1 { glyph2_id, value1, value2 })
    }
}

impl FixedSize for Pair1 {
    open spec fn stride(param: Pairs) -> nat {
        2 + param.value1_flags.size() + param.value2_flags.size()
    }

    proof fn lemma_end(d: Seq<u8>, p: int, param: Pairs) {
    }
}

/// The pair adjustments in format 1 of one first glyph.
#[derive(Clone, Debug)]
pub struct Pair1s {
    pub count: u16,
    pub records: Vec<Pair1>,
}

impl Decode for Pair1s {
    type Parameter = Pairs;

    open spec fn failure(d: Seq<u8>, p: int, param: Pairs) -> Option<DecodeError> {
        if p + 2 > d.len() {
            Some(DecodeError::Truncated)
        } else {
            array_failure::<Pair1>(d, p + 2, u16_at(d, p) as int, param)
        }
    }

    open spec fn decodes(d: Seq<u8>, p: int, param: Pairs, value: Pair1s) -> bool {
        &&& value.count == u16_at(d, p)
        &&& value.records@.len() == value.count
        &&& array_decodes::<Pair1>(d, p + 2, param, value.records@)
    }

    open spec fn end(d: Seq<u8>, p: int, param: Pairs) -> int {
        p + 2 + u16_at(d, p) * Pair1::stride(param)
    }

    fn read(c: &mut Cursor, param: Pairs) -> (r: Result<Pair1s, DecodeError>) {
        let count = c.read_u16()?;
        let records = read_array::<Pair1>(c, count, param)?;
        Ok(Pair1s { count, records })
    }
}

/// A pair adjustment in format 2: the value records of both glyphs for one
/// second-glyph class.
#[derive(Clone, Debug)]
pub struct Pair2 {
    pub value1: Single,
    pub value2: Single,
}

impl Decode for Pair2 {
    type Parameter = Pairs;

    open spec fn failure(d: Seq<u8>, p: int, param: Pairs) -> Option<DecodeError> {
        if Single::failure(d, p, param.first()) is Some {
            Single::failure(d, p, param.first())
        } else {
            Single::failure(d, p + param.value1_flags.size(), param.second())
        }
    }

    open spec fn decodes(d: Seq<u8>, p: int, param: Pairs, value: Pair2) -> bool {
        &&& Single::decodes(d, p, param.first(), value.value1)
        &&& Single::decodes(d, p + param.value1_flags.size(), param.second(), value.value2)
    }

    open spec fn end(d: Seq<u8>, p: int, param: Pairs) -> int {
        p + param.value1_flags.size() + param.value2_flags.size()
    }

    fn read(c: &mut Cursor, param: Pairs) -> (r: Result<Pair2, DecodeError>) {
        let value1 = Single::read(
            c,
            Values { position: param.position, flags: param.value1_flags },
        )?;
        let value2 = Single::read(
            c,
            Values { position: param.position, flags: param.value2_flags },
        )?;
        Ok(Pair2 { value1, value2 })
    }
}

impl FixedSize for Pair2 {
    open spec fn stride(param: Pairs) -> nat {
        param.value1_flags.size() + param.value2_flags.size()
    }

    proof fn lemma_end(d: Seq<u8>, p: int, param: Pairs) {
    }
}

/// The pair adjustments in format 2 of one first-glyph class: one for each
/// second-glyph class, with no count of its own.
#[derive(Clone, Debug)]
pub struct Pair2s {
    pub records: Vec<Pair2>,
}

impl Decode for Pair2s {
    type Parameter = ClassPairs;

    open spec fn failure(d: Seq<u8>, p: int, param: ClassPairs) -> Option<DecodeError> {
        array_failure::<Pair2>(d, p, param.class2_count as int, param.pairs())
    }

    open spec fn decodes(d: Seq<u8>, p: int, param: ClassPairs, value: Pair2s) -> bool {
        &&& value.records@.len() == param.class2_count
        &&& array_decodes::<Pair2>(d, p, param.pairs(), value.records@)
    }

    open spec fn end(d: Seq<u8>, p: int, param: ClassPairs) -> int {
        p + param.class2_count * Pair2::stride(param.pairs())
    }

    fn read(c: &mut Cursor, param: ClassPairs) -> (r: Result<Pair2s, DecodeError>) {
        let pairs = Pairs {
            position: param.position,
            value1_flags: param.value1_flags,
            value2_flags: param.value2_flags,
        };
        let records = read_array::<Pair2>(c, param.class2_count, pairs)?;
        Ok(Pair2s { records })
    }
}

/// Empty flags hold no field.
proof fn lemma_no_flags(flags: SingleFlags)
    requires
        flags.0 == 0,
    ensures
        forall|mask: u16| !#[trigger] flags.has(mask),
        flags.size() == 0,
{
    assert(forall|mask: u16| 0u16 & mask == 0) by (bit_vector);
}

/// With empty flags a value record takes no byte, cannot fail, and holds no
/// field.
pub proof fn lemma_blank_single(d: Seq<u8>, p: int, param: Values)
    requires
        0 <= p <= d.len(),
        param.flags.0 == 0,
    ensures
        Single::failure(d, p, param) is None,
        Single::end(d, p, param) == p,
        forall|v: Single| #[trigger] Single::decodes(d, p, param, v) ==> v.is_blank(),
{
    lemma_no_flags(param.flags);
}

/// Pairs of empty value records: any number of them decode from any
/// position, take no byte, and hold no field.
proof fn lemma_blank_pairs(d: Seq<u8>, p: int, n: int, param: Pairs)
    requires
        0 <= p <= d.len(),
        0 <= n,
        param.value1_flags.0 == 0,
        param.value2_flags.0 == 0,
    ensures
        array_failure::<Pair2>(d, p, n, param) is None,
    decreases n,
{
    lemma_no_flags(param.value1_flags);
    lemma_no_flags(param.value2_flags);
    lemma_blank_single(d, p, param.first());
    lemma_blank_single(d, p, param.second());
    if n > 0 {
        lemma_blank_pairs(d, p, n - 1, param);
    }
}

/// Given a class-2 count and empty flags for both value records, the
/// class-2 array decodes into that many pairs of empty records, reads no
/// count field and takes no byte.
pub proof fn lemma_blank_class_pairs(d: Seq<u8>, p: int, param: ClassPairs)
    requires
        0 <= p <= d.len(),
        param.value1_flags.0 == 0,
        param.value2_flags.0 == 0,
    ensures
        Pair2s::failure(d, p, param) is None,
        Pair2s::end(d, p, param) == p,
        forall|v: Pair2s| #[trigger]
            Pair2s::decodes(d, p, param, v) ==> {
                &&& v.records@.len() == param.class2_count
                &&& forall|i: int|
                    0 <= i < v.records@.len() ==> (#[trigger] v.records@[i]).value1.is_blank()
                        && v.records@[i].value2.is_blank()
            },
{
    let pairs = param.pairs();
    lemma_no_flags(param.value1_flags);
    lemma_no_flags(param.value2_flags);
    lemma_blank_single(d, p, pairs.first());
    lemma_blank_single(d, p, pairs.second());
    lemma_blank_pairs(d, p, param.class2_count as int, pairs);
    assert forall|v: Pair2s| #[trigger] Pair2s::decodes(d, p, param, v) implies forall|i: int|
        0 <= i < v.records@.len() ==> (#[trigger] v.records@[i]).value1.is_blank()
            && v.records@[i].value2.is_blank() by {
        assert forall|i: int| 0 <= i < v.records@.len() implies (#[trigger] v.records@[
            i
        ]).value1.is_blank() && v.records@[i].value2.is_blank() by {
            assert(Pair2::decodes(d, p + i * Pair2::stride(pairs), pairs, v.records@[i]));
        }
    }
}

} // verus!
