use vstd::prelude::*;

use crate::cursor::Cursor;
use crate::error::{DecodeError, Flaw, Table};

verus! {

/// A record that is decoded from the bytes at a position, given a parameter
/// that the enclosing table supplies.
pub trait Decode: Sized {
    /// What the enclosing table supplies.
    type Parameter: Copy;

    /// The first error met when decoding at `p`, if any.
    spec fn failure(d: Seq<u8>, p: int, param: Self::Parameter) -> Option<DecodeError>;

    /// Whether `value` is what the bytes at `p` hold.
    spec fn decodes(d: Seq<u8>, p: int, param: Self::Parameter, value: Self) -> bool;

    /// The position just past the record's own bytes.
    spec fn end(d: Seq<u8>, p: int, param: Self::Parameter) -> int;

    /// Decodes the record at the cursor's position.
    fn read(c: &mut Cursor, param: Self::Parameter) -> (r: Result<Self, DecodeError>)
        ensures
            final(c).data() == old(c).data(),
            match r {
                Ok(v) => {
                    &&& Self::failure(old(c).data(), old(c).pos(), param) is None
                    &&& Self::decodes(old(c).data(), old(c).pos(), param, v)
                    &&& final(c).pos() == Self::end(old(c).data(), old(c).pos(), param)
                },
                Err(e) => Self::failure(old(c).data(), old(c).pos(), param) == Some(e),
            },
    ;
}

/// A record that occupies the same number of bytes wherever it stands.
pub trait FixedSize: Decode {
    /// The number of bytes the record occupies.
    spec fn stride(param: Self::Parameter) -> nat;

    /// The record ends one stride past where it starts.
    proof fn lemma_end(d: Seq<u8>, p: int, param: Self::Parameter)
        ensures
            Self::end(d, p, param) == p + Self::stride(param),
    ;
}

/// The first error met when decoding at the absolute position `target`.
pub open spec fn jump_failure<T: Decode>(d: Seq<u8>, target: int, param: T::Parameter) -> Option<
    DecodeError,
> {
    if target > d.len() {
        Some(DecodeError::OutOfBounds)
    } else {
        T::failure(d, target, param)
    }
}

/// The first error met when resolving `offset` against `base`, where a null
/// offset means that the record is absent.
pub open spec fn optional_failure<T: Decode>(
    d: Seq<u8>,
    base: int,
    offset: u16,
    param: T::Parameter,
) -> Option<DecodeError> {
    if offset == 0 {
        None
    } else {
        jump_failure::<T>(d, base + offset, param)
    }
}

/// Whether `value` is what `offset` refers to from `base`, where a null
/// offset means that the record is absent.
pub open spec fn optional_decodes<T: Decode>(
    d: Seq<u8>,
    base: int,
    offset: u16,
    param: T::Parameter,
    value: Option<T>,
) -> bool {
    if offset == 0 {
        value is None
    } else {
        value matches Some(v) && T::decodes(d, base + offset, param, v)
    }
}

/// The first error met when resolving `offset` against `base`, where the
/// record is required: a null offset in `context` is malformed.
pub open spec fn required_failure<T: Decode>(
    d: Seq<u8>,
    base: int,
    offset: u16,
    param: T::Parameter,
    context: Table,
) -> Option<DecodeError> {
    if offset == 0 {
        Some(DecodeError::Malformed(context, Flaw::NullOffset))
    } else {
        jump_failure::<T>(d, base + offset, param)
    }
}

/// The first error met when resolving the first `n` of `offsets` in order,
/// each record required.
pub open spec fn required_list_failure<T: Decode>(
    d: Seq<u8>,
    base: int,
    offsets: Seq<u16>,
    n: int,
    param: T::Parameter,
    context: Table,
) -> Option<DecodeError>
    decreases n,
{
    if n <= 0 {
        None
    } else {
        match required_list_failure::<T>(d, base, offsets, n - 1, param, context) {
            Some(e) => Some(e),
            None => required_failure::<T>(d, base, offsets[n - 1], param, context),
        }
    }
}

/// The first error met when resolving the first `n` of `offsets` in order,
/// a null offset leaving its slot empty.
pub open spec fn optional_list_failure<T: Decode>(
    d: Seq<u8>,
    base: int,
    offsets: Seq<u16>,
    n: int,
    param: T::Parameter,
) -> Option<DecodeError>
    decreases n,
{
    if n <= 0 {
        None
    } else {
        match optional_list_failure::<T>(d, base, offsets, n - 1, param) {
            Some(e) => Some(e),
            None => optional_failure::<T>(d, base, offsets[n - 1], param),
        }
    }
}

/// Whether `values` are the records that `offsets` refer to from `base`, one
/// for one and in order.
pub open spec fn required_list_decodes<T: Decode>(
    d: Seq<u8>,
    base: int,
    offsets: Seq<u16>,
    param: T::Parameter,
    values: Seq<T>,
) -> bool {
    &&& values.len() == offsets.len()
    &&& forall|i: int|
        0 <= i < values.len() ==> #[trigger] T::decodes(d, base + offsets[i], param, values[i])
}

/// Whether `values` are what `offsets` refer to from `base`, one for one and
/// in order, with an empty slot for each null offset.
pub open spec fn optional_list_decodes<T: Decode>(
    d: Seq<u8>,
    base: int,
    offsets: Seq<u16>,
    param: T::Parameter,
    values: Seq<Option<T>>,
) -> bool {
    &&& values.len() == offsets.len()
    &&& forall|i: int|
        0 <= i < values.len() ==> #[trigger] optional_decodes(d, base, offsets[i], param, values[i])
}

/// The first error met when decoding `n` records laid end to end from `p`.
pub open spec fn array_failure<T: FixedSize>(d: Seq<u8>, p: int, n: int, param: T::Parameter) -> Option<
    DecodeError,
>
    decreases n,
{
    if n <= 0 {
        None
    } else {
        match array_failure::<T>(d, p, n - 1, param) {
            Some(e) => Some(e),
            None => T::failure(d, p + (n - 1) * T::stride(param), param),
        }
    }
}

/// Whether `values` are the records laid end to end from `p`.
pub open spec fn array_decodes<T: FixedSize>(
    d: Seq<u8>,
    p: int,
    param: T::Parameter,
    values: Seq<T>,
) -> bool {
    forall|i: int|
        0 <= i < values.len() ==> #[trigger] T::decodes(d, p + i * T::stride(param), param, values[i])
}

/// Once a prefix of a required list fails, every longer prefix fails alike.
pub proof fn lemma_required_list_failure_stays<T: Decode>(
    d: Seq<u8>,
    base: int,
    offsets: Seq<u16>,
    k: int,
    n: int,
    param: T::Parameter,
    context: Table,
)
    requires
        0 <= k <= n,
        required_list_failure::<T>(d, base, offsets, k, param, context) is Some,
    ensures
        required_list_failure::<T>(d, base, offsets, n, param, context)
            == required_list_failure::<T>(d, base, offsets, k, param, context),
    decreases n - k,
{
    if k < n {
        lemma_required_list_failure_stays::<T>(d, base, offsets, k, n - 1, param, context);
    }
}

/// A list of required offsets resolves exactly when each of its offsets
/// does; the error, if any, is that of the first offset that does not.
pub proof fn lemma_required_list_slots<T: Decode>(
    d: Seq<u8>,
    base: int,
    offsets: Seq<u16>,
    n: int,
    param: T::Parameter,
    context: Table,
)
    requires
        0 <= n <= offsets.len(),
    ensures
        required_list_failure::<T>(d, base, offsets, n, param, context) is None <==> forall|i: int|
            0 <= i < n ==> (#[trigger] required_failure::<T>(
                d,
                base,
                offsets[i],
                param,
                context,
            )) is None,
        forall|k: int|
            0 <= k < n && (forall|i: int|
                0 <= i < k ==> (#[trigger] required_failure::<T>(
                    d,
                    base,
                    offsets[i],
                    param,
                    context,
                )) is None) && required_failure::<T>(d, base, offsets[k], param, context) is Some
                ==> required_list_failure::<T>(d, base, offsets, n, param, context)
                == required_failure::<T>(d, base, offsets[k], param, context),
    decreases n,
{
    if n > 0 {
        lemma_required_list_slots::<T>(d, base, offsets, n - 1, param, context);
        assert forall|k: int|
            0 <= k < n && (forall|i: int|
                0 <= i < k ==> (#[trigger] required_failure::<T>(
                    d,
                    base,
                    offsets[i],
                    param,
                    context,
                )) is None) && required_failure::<T>(d, base, offsets[k], param, context)
                is Some implies required_list_failure::<T>(d, base, offsets, n, param, context)
            == required_failure::<T>(d, base, offsets[k], param, context) by {
            if k == n - 1 {
                assert(required_list_failure::<T>(d, base, offsets, n - 1, param, context) is None);
            }
        }
    }
}

/// Once a prefix of an optional list fails, every longer prefix fails alike.
pub proof fn lemma_optional_list_failure_stays<T: Decode>(
    d: Seq<u8>,
    base: int,
    offsets: Seq<u16>,
    k: int,
    n: int,
    param: T::Parameter,
)
    requires
        0 <= k <= n,
        optional_list_failure::<T>(d, base, offsets, k, param) is Some,
    ensures
        optional_list_failure::<T>(d, base, offsets, n, param) == optional_list_failure::<T>(
            d,
            base,
            offsets,
            k,
            param,
        ),
    decreases n - k,
{
    if k < n {
        lemma_optional_list_failure_stays::<T>(d, base, offsets, k, n - 1, param);
    }
}

/// Once a prefix of an array fails, every longer prefix fails alike.
pub proof fn lemma_array_failure_stays<T: FixedSize>(
    d: Seq<u8>,
    p: int,
    k: int,
    n: int,
    param: T::Parameter,
)
    requires
        0 <= k <= n,
        array_failure::<T>(d, p, k, param) is Some,
    ensures
        array_failure::<T>(d, p, n, param) == array_failure::<T>(d, p, k, param),
    decreases n - k,
{
    if k < n {
        lemma_array_failure_stays::<T>(d, p, k, n - 1, param);
    }
}

/// Seeks to `base + offset`, decodes a record there and returns to where the
/// cursor stood; a null offset means that the record is absent, and leaves
/// the cursor untouched.
pub fn with_jump<T: Decode>(c: &mut Cursor, base: u64, offset: u16, param: T::Parameter) -> (r:
    Result<Option<T>, DecodeError>)
    ensures
        final(c).data() == old(c).data(),
        offset == 0 ==> r == Ok::<Option<T>, DecodeError>(None) && final(c).pos() == old(c).pos(),
        offset != 0 ==> match r {
            Ok(Some(v)) => {
                &&& jump_failure::<T>(old(c).data(), base + offset, param) is None
                &&& T::decodes(old(c).data(), base + offset, param, v)
                &&& final(c).pos() == old(c).pos()
            },
            Ok(None) => false,
            Err(e) => jump_failure::<T>(old(c).data(), base + offset, param) == Some(e),
        },
{
    if offset == 0 {
        return Ok(None);
    }
    let v = jump(c, base, offset, param)?;
    Ok(Some(v))
}

/// Seeks to `base + offset`, decodes a record there and returns to where the
/// cursor stood.
fn jump<T: Decode>(c: &mut Cursor, base: u64, offset: u16, param: T::Parameter) -> (r: Result<
    T,
    DecodeError,
>)
    ensures
        final(c).data() == old(c).data(),
        match r {
            Ok(v) => {
                &&& jump_failure::<T>(old(c).data(), base + offset, param) is None
                &&& T::decodes(old(c).data(), base + offset, param, v)
                &&& final(c).pos() == old(c).pos()
            },
            Err(e) => jump_failure::<T>(old(c).data(), base + offset, param) == Some(e),
        },
{
    let origin = c.position();
    let target = match base.checked_add(offset as u64) {
        Some(t) => t,
        None => return Err(DecodeError::OutOfBounds),
    };
    c.seek(target)?;
    let v = T::read(c, param)?;
    c.seek(origin)?;
    Ok(v)
}

/// Seeks to `base + offset`, decodes a record there and returns to where the
/// cursor stood; the record is required, so a null offset is malformed in
/// `context`.
pub fn jump_required<T: Decode>(
    c: &mut Cursor,
    base: u64,
    offset: u16,
    param: T::Parameter,
    context: Table,
) -> (r: Result<T, DecodeError>)
    ensures
        final(c).data() == old(c).data(),
        match r {
            Ok(v) => {
                &&& required_failure::<T>(old(c).data(), base as int, offset, param, context) is None
                &&& T::decodes(old(c).data(), base + offset, param, v)
                &&& final(c).pos() == old(c).pos()
            },
            Err(e) => required_failure::<T>(old(c).data(), base as int, offset, param, context)
                == Some(e),
        },
{
    if offset == 0 {
        return Err(DecodeError::Malformed(context, Flaw::NullOffset));
    }
    jump(c, base, offset, param)
}

/// Resolves each of `offsets` against `base`, in order, every record
/// required; the cursor ends where it stood.
pub fn resolve_all<T: Decode>(
    c: &mut Cursor,
    base: u64,
    offsets: &Vec<u16>,
    param: T::Parameter,
    context: Table,
) -> (r: Result<Vec<T>, DecodeError>)
    ensures
        final(c).data() == old(c).data(),
        match r {
            Ok(v) => {
                &&& required_list_failure::<T>(
                    old(c).data(),
                    base as int,
                    offsets@,
                    offsets@.len() as int,
                    param,
                    context,
                ) is None
                &&& required_list_decodes(old(c).data(), base as int, offsets@, param, v@)
                &&& final(c).pos() == old(c).pos()
            },
            Err(e) => required_list_failure::<T>(
                old(c).data(),
                base as int,
                offsets@,
                offsets@.len() as int,
                param,
                context,
            ) == Some(e),
        },
{
    let ghost d = c.data();
    let ghost origin = c.pos();
    let mut values: Vec<T> = Vec::new();
    let mut i: usize = 0;
    while i < offsets.len()
        invariant
            i <= offsets@.len(),
            c.data() == d,
            c.pos() == origin,
            d == old(c).data(),
            origin == old(c).pos(),
            values@.len() == i,
            required_list_failure::<T>(d, base as int, offsets@, i as int, param, context) is None,
            forall|j: int|
                0 <= j < i ==> #[trigger] T::decodes(d, base + offsets@[j], param, values@[j]),
        decreases offsets@.len() - i,
    {
        let v = match jump_required(c, base, offsets[i], param, context) {
            Ok(v) => v,
            Err(e) => {
                proof {
                    lemma_required_list_failure_stays::<T>(
                        d,
                        base as int,
                        offsets@,
                        i + 1,
                        offsets@.len() as int,
                        param,
                        context,
                    );
                }
                return Err(e);
            },
        };
        values.push(v);
        i = i + 1;
    }
    Ok(values)
}

/// Resolves each of `offsets` against `base`, in order, leaving an empty slot
/// for each null offset; the cursor ends where it stood.
pub fn resolve_each<T: Decode>(c: &mut Cursor, base: u64, offsets: &Vec<u16>, param: T::Parameter) -> (r:
    Result<Vec<Option<T>>, DecodeError>)
    ensures
        final(c).data() == old(c).data(),
        match r {
            Ok(v) => {
                &&& optional_list_failure::<T>(
                    old(c).data(),
                    base as int,
                    offsets@,
                    offsets@.len() as int,
                    param,
                ) is None
                &&& optional_list_decodes(old(c).data(), base as int, offsets@, param, v@)
                &&& final(c).pos() == old(c).pos()
            },
            Err(e) => optional_list_failure::<T>(
                old(c).data(),
                base as int,
                offsets@,
                offsets@.len() as int,
                param,
            ) == Some(e),
        },
{
    let ghost d = c.data();
    let ghost origin = c.pos();
    let mut values: Vec<Option<T>> = Vec::new();
    let mut i: usize = 0;
    while i < offsets.len()
        invariant
            i <= offsets@.len(),
            c.data() == d,
            c.pos() == origin,
            d == old(c).data(),
            origin == old(c).pos(),
            values@.len() == i,
            optional_list_failure::<T>(d, base as int, offsets@, i as int, param) is None,
            forall|j: int|
                0 <= j < i ==> #[trigger] optional_decodes(
                    d,
                    base as int,
                    offsets@[j],
                    param,
                    values@[j],
                ),
        decreases offsets@.len() - i,
    {
        let v = match with_jump(c, base, offsets[i], param) {
            Ok(v) => v,
            Err(e) => {
                proof {
                    lemma_optional_list_failure_stays::<T>(
                        d,
                        base as int,
                        offsets@,
                        i + 1,
                        offsets@.len() as int,
                        param,
                    );
                }
                return Err(e);
            },
        };
        values.push(v);
        i = i + 1;
    }
    Ok(values)
}

/// Decodes `n` records laid end to end from the cursor's position.
pub fn read_array<T: FixedSize>(c: &mut Cursor, n: u16, param: T::Parameter) -> (r: Result<
    Vec<T>,
    DecodeError,
>)
    ensures
        final(c).data() == old(c).data(),
        match r {
            Ok(v) => {
                &&& array_failure::<T>(old(c).data(), old(c).pos(), n as int, param) is None
                &&& v@.len() == n
                &&& array_decodes(old(c).data(), old(c).pos(), param, v@)
                &&& final(c).pos() == old(c).pos() + n * T::stride(param)
            },
            Err(e) => array_failure::<T>(old(c).data(), old(c).pos(), n as int, param) == Some(e),
        },
{
    let ghost d = c.data();
    let ghost start = c.pos();
    let ghost s = T::stride(param) as int;
    let mut values: Vec<T> = Vec::new();
    let mut i: u16 = 0;
    while i < n
        invariant
            i <= n,
            c.data() == d,
            d == old(c).data(),
            start == old(c).pos(),
            s == T::stride(param),
            c.pos() == start + i * s,
            values@.len() == i,
            array_failure::<T>(d, start, i as int, param) is None,
            forall|j: int|
                0 <= j < i ==> #[trigger] T::decodes(d, start + j * s, param, values@[j]),
        decreases n - i,
    {
        let v = match T::read(c, param) {
            Ok(v) => v,
            Err(e) => {
                proof {
                    lemma_array_failure_stays::<T>(d, start, i + 1, n as int, param);
                }
                return Err(e);
            },
        };
        proof {
            T::lemma_end(d, start + i * s, param);
            assert(start + i * s + s == start + (i + 1) * s) by (nonlinear_arith);
        }
        values.push(v);
        i = i + 1;
    }
    Ok(values)
}

} // verus!
