use vstd::prelude::*;

use crate::anchor::Anchor;
use crate::context::{Anchors, ClassCount, Origin, Standalone};
use crate::cursor::{u16_at, u16s_at, Cursor};
use crate::decode::{
    array_decodes, array_failure, jump_required, optional_decodes, optional_failure,
    optional_list_decodes, optional_list_failure, read_array, required_failure,
    required_list_decodes, required_list_failure, resolve_all, resolve_each, with_jump, Decode,
    FixedSize,
};
use crate::error::{DecodeError, Table};

verus! {

/// The first error met when decoding a record of `class_count` anchor
/// offsets at `p`, each relative to `position`.
pub open spec fn anchor_row_failure(d: Seq<u8>, p: int, param: Anchors) -> Option<DecodeError> {
    if p + 2 * param.class_count > d.len() {
        Some(DecodeError::Truncated)
    } else {
        optional_list_failure::<Anchor>(
            d,
            param.position as int,
            u16s_at(d, p, param.class_count as int),
            param.class_count as int,
            Standalone,
        )
    }
}

/// Whether `offsets` and `anchors` are what a record of `class_count` anchor
/// offsets at `p` holds.
pub open spec fn anchor_row_decodes(
    d: Seq<u8>,
    p: int,
    param: Anchors,
    offsets: Seq<u16>,
    anchors: Seq<Option<Anchor>>,
) -> bool {
    &&& offsets == u16s_at(d, p, param.class_count as int)
    &&& optional_list_decodes::<Anchor>(d, param.position as int, offsets, Standalone, anchors)
}

/// Reads a record of `class_count` anchor offsets and resolves each.
fn read_anchor_row(c: &mut Cursor, param: Anchors) -> (r: Result<
    (Vec<u16>, Vec<Option<Anchor>>),
    DecodeError,
>)
    ensures
        final(c).data() == old(c).data(),
        match r {
            Ok(v) => {
                &&& anchor_row_failure(old(c).data(), old(c).pos(), param) is None
                &&& anchor_row_decodes(old(c).data(), old(c).pos(), param, v.0@, v.1@)
                &&& final(c).pos() == old(c).pos() + 2 * param.class_count
            },
            Err(e) => anchor_row_failure(old(c).data(), old(c).pos(), param) == Some(e),
        },
{
    let offsets = c.read_u16s(param.class_count)?;
    let anchors = resolve_each(c, param.position, &offsets, Standalone)?;
    Ok((offsets, anchors))
}

/// A base attachment: one anchor for each mark class, relative to the base
/// array.
#[derive(Clone, Debug)]
pub struct Base {
    pub anchor_offsets: Vec<u16>,
    pub anchors: Vec<Option<Anchor>>,
}

impl Decode for Base {
    type Parameter = Anchors;

    open spec fn failure(d: Seq<u8>, p: int, param: Anchors) -> Option<DecodeError> {
        anchor_row_failure(d, p, param)
    }

    open spec fn decodes(d: Seq<u8>, p: int, param: Anchors, value: Base) -> bool {
        anchor_row_decodes(d, p, param, value.anchor_offsets@, value.anchors@)
    }

    open spec fn end(d: Seq<u8>, p: int, param: Anchors) -> int {
        p + 2 * param.class_count
    }

    fn read(c: &mut Cursor, param: Anchors) -> (r: Result<Base, DecodeError>) {
        let (anchor_offsets, anchors) = read_anchor_row(c, param)?;
        Ok(Base { anchor_offsets, anchors })
    }
}

impl FixedSize for Base {
    open spec fn stride(param: Anchors) -> nat {
        2 * param.class_count as nat
    }

    proof fn lemma_end(d: Seq<u8>, p: int, param: Anchors) {
    }
}

/// A component attachment: one anchor for each mark class, relative to the
/// ligature attachment.
#[derive(Clone, Debug)]
pub struct Component {
    pub anchor_offsets: Vec<u16>,
    pub anchors: Vec<Option<Anchor>>,
}

impl Decode for Component {
    type Parameter = Anchors;

    open spec fn failure(d: Seq<u8>, p: int, param: Anchors) -> Option<DecodeError> {
        anchor_row_failure(d, p, param)
    }

    open spec fn decodes(d: Seq<u8>, p: int, param: Anchors, value: Component) -> bool {
        anchor_row_decodes(d, p, param, value.anchor_offsets@, value.anchors@)
    }

    open spec fn end(d: Seq<u8>, p: int, param: Anchors) -> int {
        p + 2 * param.class_count
    }

    fn read(c: &mut Cursor, param: Anchors) -> (r: Result<Component, DecodeError>) {
        let (anchor_offsets, anchors) = read_anchor_row(c, param)?;
        Ok(Component { anchor_offsets, anchors })
    }
}

impl FixedSize for Component {
    open spec fn stride(param: Anchors) -> nat {
        2 * param.class_count as nat
    }

    proof fn lemma_end(d: Seq<u8>, p: int, param: Anchors) {
    }
}

/// A mark attachment in format 2: one anchor for each mark class, relative
/// to the mark-2 array.
#[derive(Clone, Debug)]
pub struct Mark2 {
    pub anchor_offsets: Vec<u16>,
    pub anchors: Vec<Option<Anchor>>,
}

impl Decode for Mark2 {
    type Parameter = Anchors;

    open spec fn failure(d: Seq<u8>, p: int, param: Anchors) -> Option<DecodeError> {
        anchor_row_failure(d, p, param)
    }

    open spec fn decodes(d: Seq<u8>, p: int, param: Anchors, value: Mark2) -> bool {
        anchor_row_decodes(d, p, param, value.anchor_offsets@, value.anchors@)
    }

    open spec fn end(d: Seq<u8>, p: int, param: Anchors) -> int {
        p + 2 * param.class_count
    }

    fn read(c: &mut Cursor, param: Anchors) -> (r: Result<Mark2, DecodeError>) {
        let (anchor_offsets, anchors) = read_anchor_row(c, param)?;
        Ok(Mark2 { anchor_offsets, anchors })
    }
}

impl FixedSize for Mark2 {
    open spec fn stride(param: Anchors) -> nat {
        2 * param.class_count as nat
    }

    proof fn lemma_end(d: Seq<u8>, p: int, param: Anchors) {
    }
}

/// The parameter of the rows of a counted array at `p`: their anchors are
/// relative to the array itself.
pub open spec fn rows_at(p: int, param: ClassCount) -> Anchors {
    Anchors { position: p as u64, class_count: param.class_count }
}

/// The set of base attachments of a mark-to-base table.
#[derive(Clone, Debug)]
pub struct Bases {
    pub count: u16,
    pub records: Vec<Base>,
}

impl Decode for Bases {
    type Parameter = ClassCount;

    open spec fn failure(d: Seq<u8>, p: int, param: ClassCount) -> Option<DecodeError> {
        if p + 2 > d.len() {
            Some(DecodeError::Truncated)
        } else {
            array_failure::<Base>(d, p + 2, u16_at(d, p) as int, rows_at(p, param))
        }
    }

    open spec fn decodes(d: Seq<u8>, p: int, param: ClassCount, value: Bases) -> bool {
        &&& value.count == u16_at(d, p)
        &&& value.records@.len() == value.count
        &&& array_decodes::<Base>(d, p + 2, rows_at(p, param), value.records@)
    }

    open spec fn end(d: Seq<u8>, p: int, param: ClassCount) -> int {
        p + 2 + u16_at(d, p) * (2 * param.class_count)
    }

    fn read(c: &mut Cursor, param: ClassCount) -> (r: Result<Bases, DecodeError>) {
        let position = c.position();
        let count = c.read_u16()?;
        let rows = Anchors { position, class_count: param.class_count };
        let records = read_array::<Base>(c, count, rows)?;
        Ok(Bases { count, records })
    }
}

/// The set of mark attachments in format 2 of a mark-to-mark table.
#[derive(Clone, Debug)]
pub struct Mark2s {
    pub count: u16,
    pub records: Vec<Mark2>,
}

impl Decode for Mark2s {
    type Parameter = ClassCount;

    open spec fn failure(d: Seq<u8>, p: int, param: ClassCount) -> Option<DecodeError> {
        if p + 2 > d.len() {
            Some(DecodeError::Truncated)
        } else {
            array_failure::<Mark2>(d, p + 2, u16_at(d, p) as int, rows_at(p, param))
        }
    }

    open spec fn decodes(d: Seq<u8>, p: int, param: ClassCount, value: Mark2s) -> bool {
        &&& value.count == u16_at(d, p)
        &&& value.records@.len() == value.count
        &&& array_decodes::<Mark2>(d, p + 2, rows_at(p, param), value.records@)
    }

    open spec fn end(d: Seq<u8>, p: int, param: ClassCount) -> int {
        p + 2 + u16_at(d, p) * (2 * param.class_count)
    }

    fn read(c: &mut Cursor, param: ClassCount) -> (r: Result<Mark2s, DecodeError>) {
        let position = c.position();
        let count = c.read_u16()?;
        let rows = Anchors { position, class_count: param.class_count };
        let records = read_array::<Mark2>(c, count, rows)?;
        Ok(Mark2s { count, records })
    }
}

/// A ligature attachment: one component attachment for each component of
/// the ligature, with anchors relative to this attachment.
#[derive(Clone, Debug)]
pub struct Ligature {
    pub component_count: u16,
    pub components: Vec<Component>,
}

impl Decode for Ligature {
    type Parameter = ClassCount;

    open spec fn failure(d: Seq<u8>, p: int, param: ClassCount) -> Option<DecodeError> {
        if p + 2 > d.len() {
            Some(DecodeError::Truncated)
        } else {
            array_failure::<Component>(d, p + 2, u16_at(d, p) as int, rows_at(p, param))
        }
    }

    open spec fn decodes(d: Seq<u8>, p: int, param: ClassCount, value: Ligature) -> bool {
        &&& value.component_count == u16_at(d, p)
        &&& value.components@.len() == value.component_count
        &&& array_decodes::<Component>(d, p + 2, rows_at(p, param), value.components@)
    }

    open spec fn end(d: Seq<u8>, p: int, param: ClassCount) -> int {
        p + 2 + u16_at(d, p) * (2 * param.class_count)
    }

    fn read(c: &mut Cursor, param: ClassCount) -> (r: Result<Ligature, DecodeError>) {
        let position = c.position();
        let component_count = c.read_u16()?;
        let rows = Anchors { position, class_count: param.class_count };
        let components = read_array::<Component>(c, component_count, rows)?;
        Ok(Ligature { component_count, components })
    }
}

/// The set of ligature attachments of a mark-to-ligature table, each
/// referred to by an offset from the start of the set.
#[derive(Clone, Debug)]
pub struct Ligatures {
    pub count: u16,
    pub offsets: Vec<u16>,
    pub records: Vec<Ligature>,
}

impl Decode for Ligatures {
    type Parameter = ClassCount;

    open spec fn failure(d: Seq<u8>, p: int, param: ClassCount) -> Option<DecodeError> {
        let n = u16_at(d, p) as int;
        if p + 2 > d.len() || p + 2 + 2 * n > d.len() {
            Some(DecodeError::Truncated)
        } else {
            required_list_failure::<Ligature>(
                d,
                p,
                u16s_at(d, p + 2, n),
                n,
                param,
                Table::Ligatures,
            )
        }
    }

    open spec fn decodes(d: Seq<u8>, p: int, param: ClassCount, value: Ligatures) -> bool {
        &&& value.count == u16_at(d, p)
        &&& value.offsets@ == u16s_at(d, p + 2, value.count as int)
        &&& required_list_decodes::<Ligature>(d, p, value.offsets@, param, value.records@)
    }

    open spec fn end(d: Seq<u8>, p: int, param: ClassCount) -> int {
        p + 2 + 2 * u16_at(d, p)
    }

    fn read(c: &mut Cursor, param: ClassCount) -> (r: Result<Ligatures, DecodeError>) {
        let position = c.position();
        let count = c.read_u16()?;
        let offsets = c.read_u16s(count)?;
        let records = resolve_all(c, position, &offsets, param, Table::Ligatures)?;
        Ok(Ligatures { count, offsets, records })
    }
}

/// A mark attachment in format 1: the mark's class and its anchor, whose
/// offset is relative to the mark array rather than to this record.
#[derive(Clone, Debug)]
pub struct Mark1 {
    pub class_id: u16,
    pub anchor_offset: u16,
    pub anchor: Anchor,
}

impl Decode for Mark1 {
    type Parameter = Origin;

    open spec fn failure(d: Seq<u8>, p: int, param: Origin) -> Option<DecodeError> {
        if p + 4 > d.len() {
            Some(DecodeError::Truncated)
        } else {
            required_failure::<Anchor>(
                d,
                param.position as int,
                u16_at(d, p + 2),
                Standalone,
                Table::Mark1,
            )
        }
    }

    open spec fn decodes(d: Seq<u8>, p: int, param: Origin, value: Mark1) -> bool {
        &&& value.class_id == u16_at(d, p)
        &&& value.anchor_offset == u16_at(d, p + 2)
        &&& Anchor::decodes(d, param.position + value.anchor_offset, Standalone, value.anchor)
    }

    open spec fn end(d: Seq<u8>, p: int, param: Origin) -> int {
        p + 4
    }

    fn read(c: &mut Cursor, param: Origin) -> (r: Result<Mark1, DecodeError>) {
        let class_id = c.read_u16()?;
        let anchor_offset = c.read_u16()?;
        let anchor = jump_required(c, param.position, anchor_offset, Standalone, Table::Mark1)?;
        Ok(Mark1 { class_id, anchor_offset, anchor })
    }
}

impl FixedSize for Mark1 {
    open spec fn stride(param: Origin) -> nat {
        4
    }

    proof fn lemma_end(d: Seq<u8>, p: int, param: Origin) {
    }
}

/// The mark array: a mark attachment for each mark glyph.
#[derive(Clone, Debug)]
pub struct Mark1s {
    pub count: u16,
    pub records: Vec<Mark1>,
}

impl Decode for Mark1s {
    type Parameter = Standalone;

    open spec fn failure(d: Seq<u8>, p: int, param: Standalone) -> Option<DecodeError> {
        if p + 2 > d.len() {
            Some(DecodeError::Truncated)
        } else {
            array_failure::<Mark1>(d, p + 2, u16_at(d, p) as int, Origin { position: p as u64 })
        }
    }

    open spec fn decodes(d: Seq<u8>, p: int, param: Standalone, value: Mark1s) -> bool {
        &&& value.count == u16_at(d, p)
        &&& value.records@.len() == value.count
        &&& array_decodes::<Mark1>(d, p + 2, Origin { position: p as u64 }, value.records@)
    }

    open spec fn end(d: Seq<u8>, p: int, param: Standalone) -> int {
        p + 2 + 4 * u16_at(d, p)
    }

    fn read(c: &mut Cursor, param: Standalone) -> (r: Result<Mark1s, DecodeError>) {
        let position = c.position();
        let count = c.read_u16()?;
        let records = read_array::<Mark1>(c, count, Origin { position })?;
        Ok(Mark1s { count, records })
    }
}

/// An entry-exit record: the entry and exit anchors of a glyph, each absent
/// where its offset is null.
#[derive(Clone, Debug)]
pub struct Passage {
    pub entry_offset: u16,
    pub exit_offset: u16,
    pub entry: Option<Anchor>,
    pub exit: Option<Anchor>,
}

impl Decode for Passage {
    type Parameter = Origin;

    open spec fn failure(d: Seq<u8>, p: int, param: Origin) -> Option<DecodeError> {
        if p + 4 > d.len() {
            Some(DecodeError::Truncated)
        } else if optional_failure::<Anchor>(d, param.position as int, u16_at(d, p), Standalone) is Some {
            optional_failure::<Anchor>(d, param.position as int, u16_at(d, p), Standalone)
        } else {
            optional_failure::<Anchor>(d, param.position as int, u16_at(d, p + 2), Standalone)
        }
    }

    open spec fn decodes(d: Seq<u8>, p: int, param: Origin, value: Passage) -> bool {
        &&& value.entry_offset == u16_at(d, p)
        &&& value.exit_offset == u16_at(d, p + 2)
        &&& optional_decodes(d, param.position as int, value.entry_offset, Standalone, value.entry)
        &&& optional_decodes(d, param.position as int, value.exit_offset, Standalone, value.exit)
    }

    open spec fn end(d: Seq<u8>, p: int, param: Origin) -> int {
        p + 4
    }

    fn read(c: &mut Cursor, param: Origin) -> (r: Result<Passage, DecodeError>) {
        let entry_offset = c.read_u16()?;
        let exit_offset = c.read_u16()?;
        let entry = with_jump(c, param.position, entry_offset, Standalone)?;
        let exit = with_jump(c, param.position, exit_offset, Standalone)?;
        Ok(Passage { entry_offset, exit_offset, entry, exit })
    }
}

impl FixedSize for Passage {
    open spec fn stride(param: Origin) -> nat {
        4
    }

    proof fn lemma_end(d: Seq<u8>, p: int, param: Origin) {
    }
}

} // verus!
