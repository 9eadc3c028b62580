use vstd::prelude::*;

use crate::context::Standalone;
use crate::cursor::{u16_at, u16s_at, u32_at, Cursor};
use crate::decode::{
    array_decodes, array_failure, optional_decodes, optional_failure, read_array,
    required_list_decodes, required_list_failure, resolve_all, with_jump, Decode, FixedSize,
};
use crate::error::{DecodeError, Flaw, Table};

verus! {

/// A four-byte tag, such as `latn` or `ENG `, held as the big-endian integer
/// of its bytes.
#[derive(Clone, Copy, Debug, PartialEq, Eq, Structural)]
pub struct Tag(pub u32);

impl Tag {
    /// The tag of four bytes.
    pub fn from_bytes(bytes: [u8; 4]) -> (r: Tag)
        ensures
            r.0 == bytes@[0] as int * 16777216 + bytes@[1] as int * 65536 + bytes@[2] as int * 256
                + bytes@[3] as int,
    {
        Tag(bytes[0] as u32 * 16777216 + bytes[1] as u32 * 65536 + bytes[2] as u32 * 256
            + bytes[3] as u32)
    }
}

/// A tag and the offset of the record it names.
#[derive(Clone, Copy, Debug, PartialEq, Eq, Structural)]
pub struct Header {
    pub tag: Tag,
    pub offset: u16,
}

impl Decode for Header {
    type Parameter = Standalone;

    open spec fn failure(d: Seq<u8>, p: int, param: Standalone) -> Option<DecodeError> {
        if p + 6 > d.len() {
            Some(DecodeError::Truncated)
        } else {
            None
        }
    }

    open spec fn decodes(d: Seq<u8>, p: int, param: Standalone, value: Header) -> bool {
        value == Header { tag: Tag(u32_at(d, p)), offset: u16_at(d, p + 4) }
    }

    open spec fn end(d: Seq<u8>, p: int, param: Standalone) -> int {
        p + 6
    }

    fn read(c: &mut Cursor, param: Standalone) -> (r: Result<Header, DecodeError>) {
        let tag = c.read_tag()?;
        let offset = c.read_u16()?;
        Ok(Header { tag, offset })
    }
}

impl FixedSize for Header {
    open spec fn stride(param: Standalone) -> nat {
        6
    }

    proof fn lemma_end(d: Seq<u8>, p: int, param: Standalone) {
    }
}

/// A language-system header: a tag and the offset of its record.
pub type LanguageHeader = Header;

/// The offsets of the `n` headers that stand from `p` on.
pub open spec fn header_offsets(d: Seq<u8>, p: int, n: int) -> Seq<u16> {
    Seq::new(n as nat, |i: int| u16_at(d, p + i * 6 + 4))
}

/// The offsets of the headers, in order.
fn offsets_of(headers: &Vec<Header>) -> (r: Vec<u16>)
    ensures
        r@.len() == headers@.len(),
        forall|i: int| 0 <= i < headers@.len() ==> r@[i] == #[trigger] headers@[i].offset,
{
    let mut offsets: Vec<u16> = Vec::new();
    let mut i: usize = 0;
    while i < headers.len()
        invariant
            i <= headers@.len(),
            offsets@.len() == i,
            forall|j: int| 0 <= j < i ==> offsets@[j] == #[trigger] headers@[j].offset,
        decreases headers@.len() - i,
    {
        offsets.push(headers[i].offset);
        i = i + 1;
    }
    offsets
}

/// Reads `n` headers and the offsets they hold.
fn read_headers(c: &mut Cursor, n: u16) -> (r: Result<(Vec<Header>, Vec<u16>), DecodeError>)
    ensures
        final(c).data() == old(c).data(),
        match r {
            Ok(v) => {
                &&& array_failure::<Header>(old(c).data(), old(c).pos(), n as int, Standalone) is None
                &&& v.0@.len() == n
                &&& array_decodes::<Header>(old(c).data(), old(c).pos(), Standalone, v.0@)
                &&& v.1@ == header_offsets(old(c).data(), old(c).pos(), n as int)
                &&& final(c).pos() == old(c).pos() + 6 * n
            },
            Err(e) => array_failure::<Header>(old(c).data(), old(c).pos(), n as int, Standalone)
                == Some(e),
        },
{
    let headers = read_array::<Header>(c, n, Standalone)?;
    assert(n * Header::stride(Standalone) == 6 * n);
    let offsets = offsets_of(&headers);
    assert(offsets@ =~= header_offsets(old(c).data(), old(c).pos(), n as int)) by {
        assert forall|i: int| 0 <= i < n implies offsets@[i] == header_offsets(
            old(c).data(),
            old(c).pos(),
            n as int,
        )[i] by {
            assert(Header::decodes(
                old(c).data(),
                old(c).pos() + i * Header::stride(Standalone),
                Standalone,
                headers@[i],
            ));
            assert(i * Header::stride(Standalone) == i * 6);
            assert(headers@[i].offset == u16_at(old(c).data(), old(c).pos() + i * 6 + 4));
            assert(offsets@[i] == headers@[i].offset);
        }
    }
    Ok((headers, offsets))
}

/// A language system: its required feature and the indices of its other
/// features in the feature list.
#[derive(Clone, Debug)]
pub struct LanguageRecord {
    pub lookup_order: u16,
    pub required_feature_index: u16,
    pub feature_count: u16,
    pub feature_indices: Vec<u16>,
}

impl Decode for LanguageRecord {
    type Parameter = Standalone;

    open spec fn failure(d: Seq<u8>, p: int, param: Standalone) -> Option<DecodeError> {
        if p + 2 > d.len() {
            Some(DecodeError::Truncated)
        } else if u16_at(d, p) != 0 {
            Some(DecodeError::Malformed(Table::LanguageRecord, Flaw::ReservedField))
        } else if p + 6 > d.len() || p + 6 + 2 * u16_at(d, p + 4) > d.len() {
            Some(DecodeError::Truncated)
        } else {
            None
        }
    }

    open spec fn decodes(d: Seq<u8>, p: int, param: Standalone, value: LanguageRecord) -> bool {
        &&& value.lookup_order == 0
        &&& value.required_feature_index == u16_at(d, p + 2)
        &&& value.feature_count == u16_at(d, p + 4)
        &&& value.feature_indices@ == u16s_at(d, p + 6, value.feature_count as int)
    }

    open spec fn end(d: Seq<u8>, p: int, param: Standalone) -> int {
        p + 6 + 2 * u16_at(d, p + 4)
    }

    fn read(c: &mut Cursor, param: Standalone) -> (r: Result<LanguageRecord, DecodeError>) {
        let lookup_order = c.read_u16()?;
        if lookup_order != 0 {
            return Err(DecodeError::Malformed(Table::LanguageRecord, Flaw::ReservedField));
        }
        let required_feature_index = c.read_u16()?;
        let feature_count = c.read_u16()?;
        let feature_indices = c.read_u16s(feature_count)?;
        Ok(LanguageRecord { lookup_order, required_feature_index, feature_count, feature_indices })
    }
}

/// Whether `i` is the first index whose header holds `tag`.
pub open spec fn first_tagged(headers: Seq<Header>, tag: Tag, i: int) -> bool {
    &&& 0 <= i < headers.len()
    &&& headers[i].tag == tag
    &&& forall|j: int| 0 <= j < i ==> (#[trigger] headers[j]).tag != tag
}

/// Whether no header holds `tag`.
pub open spec fn untagged(headers: Seq<Header>, tag: Tag) -> bool {
    forall|j: int| 0 <= j < headers.len() ==> (#[trigger] headers[j]).tag != tag
}

/// A script: its default language system, if any, and its other language
/// systems, each named by a tag.
#[derive(Clone, Debug)]
pub struct Record {
    pub default_language_offset: u16,
    pub language_count: u16,
    pub language_headers: Vec<LanguageHeader>,
    pub default_language: Option<LanguageRecord>,
    pub language_records: Vec<LanguageRecord>,
}

impl Record {
    /// Whether each language header has its record.
    pub open spec fn wf(&self) -> bool {
        self.language_records@.len() == self.language_headers@.len()
    }

    /// The record of the first language system tagged `tag`, if any.
    pub fn get(&self, tag: Tag) -> (r: Option<&LanguageRecord>)
        requires
            self.wf(),
        ensures
            match r {
                Some(x) => exists|i: int|
                    first_tagged(self.language_headers@, tag, i) && *x
                        == self.language_records@[i],
                None => untagged(self.language_headers@, tag),
            },
    {
        let mut i: usize = 0;
        while i < self.language_headers.len()
            invariant
                self.wf(),
                i <= self.language_headers@.len(),
                forall|j: int| 0 <= j < i ==> (#[trigger] self.language_headers@[j]).tag != tag,
            decreases self.language_headers@.len() - i,
        {
            if self.language_headers[i].tag == tag {
                assert(first_tagged(self.language_headers@, tag, i as int));
                return Some(&self.language_records[i]);
            }
            i = i + 1;
        }
        None
    }
}

impl Decode for Record {
    type Parameter = Standalone;

    open spec fn failure(d: Seq<u8>, p: int, param: Standalone) -> Option<DecodeError> {
        let n = u16_at(d, p + 2) as int;
        if p + 4 > d.len() {
            Some(DecodeError::Truncated)
        } else if array_failure::<Header>(d, p + 4, n, Standalone) is Some {
            array_failure::<Header>(d, p + 4, n, Standalone)
        } else if optional_failure::<LanguageRecord>(d, p, u16_at(d, p), Standalone) is Some {
            optional_failure::<LanguageRecord>(d, p, u16_at(d, p), Standalone)
        } else {
            required_list_failure::<LanguageRecord>(
                d,
                p,
                header_offsets(d, p + 4, n),
                n,
                Standalone,
                Table::Record,
            )
        }
    }

    open spec fn decodes(d: Seq<u8>, p: int, param: Standalone, value: Record) -> bool {
        &&& value.default_language_offset == u16_at(d, p)
        &&& value.language_count == u16_at(d, p + 2)
        &&& value.language_headers@.len() == value.language_count
        &&& array_decodes::<Header>(d, p + 4, Standalone, value.language_headers@)
        &&& optional_decodes(
            d,
            p,
            value.default_language_offset,
            Standalone,
            value.default_language,
        )
        &&& required_list_decodes::<LanguageRecord>(
            d,
            p,
            header_offsets(d, p + 4, value.language_count as int),
            Standalone,
            value.language_records@,
        )
    }

    open spec fn end(d: Seq<u8>, p: int, param: Standalone) -> int {
        p + 4 + 6 * u16_at(d, p + 2)
    }

    fn read(c: &mut Cursor, param: Standalone) -> (r: Result<Record, DecodeError>) {
        let position = c.position();
        let default_language_offset = c.read_u16()?;
        let language_count = c.read_u16()?;
        let (language_headers, offsets) = read_headers(c, language_count)?;
        let default_language = with_jump(c, position, default_language_offset, Standalone)?;
        let language_records = resolve_all(c, position, &offsets, Standalone, Table::Record)?;
        Ok(Record {
            default_language_offset,
            language_count,
            language_headers,
            default_language,
            language_records,
        })
    }
}

/// The script list: the scripts of the font, each named by a tag.
#[derive(Clone, Debug)]
pub struct Scripts {
    pub count: u16,
    pub headers: Vec<Header>,
    pub records: Vec<Record>,
}

impl Scripts {
    /// Whether each script header has its record.
    pub open spec fn wf(&self) -> bool {
        self.records@.len() == self.headers@.len()
    }

    /// The record of the first script tagged `tag`, if any.
    pub fn get(&self, tag: Tag) -> (r: Option<&Record>)
        requires
            self.wf(),
        ensures
            match r {
                Some(x) => exists|i: int|
                    first_tagged(self.headers@, tag, i) && *x == self.records@[i],
                None => untagged(self.headers@, tag),
            },
    {
        let mut i: usize = 0;
        while i < self.headers.len()
            invariant
                self.wf(),
                i <= self.headers@.len(),
                forall|j: int| 0 <= j < i ==> (#[trigger] self.headers@[j]).tag != tag,
            decreases self.headers@.len() - i,
        {
            if self.headers[i].tag == tag {
                assert(first_tagged(self.headers@, tag, i as int));
                return Some(&self.records[i]);
            }
            i = i + 1;
        }
        None
    }
}

impl Decode for Scripts {
    type Parameter = Standalone;

    open spec fn failure(d: Seq<u8>, p: int, param: Standalone) -> Option<DecodeError> {
        let n = u16_at(d, p) as int;
        if p + 2 > d.len() {
            Some(DecodeError::Truncated)
        } else if array_failure::<Header>(d, p + 2, n, Standalone) is Some {
            array_failure::<Header>(d, p + 2, n, Standalone)
        } else {
            required_list_failure::<Record>(
                d,
                p,
                header_offsets(d, p + 2, n),
                n,
                Standalone,
                Table::Scripts,
            )
        }
    }

    open spec fn decodes(d: Seq<u8>, p: int, param: Standalone, value: Scripts) -> bool {
        &&& value.count == u16_at(d, p)
        &&& value.headers@.len() == value.count
        &&& array_decodes::<Header>(d, p + 2, Standalone, value.headers@)
        &&& required_list_decodes::<Record>(
            d,
            p,
            header_offsets(d, p + 2, value.count as int),
            Standalone,
            value.records@,
        )
    }

    open spec fn end(d: Seq<u8>, p: int, param: Standalone) -> int {
        p + 2 + 6 * u16_at(d, p)
    }

    fn read(c: &mut Cursor, param: Standalone) -> (r: Result<Scripts, DecodeError>) {
        let position = c.position();
        let count = c.read_u16()?;
        let (headers, offsets) = read_headers(c, count)?;
        let records = resolve_all(c, position, &offsets, Standalone, Table::Scripts)?;
        Ok(Scripts { count, headers, records })
    }
}

} // verus!
