use vstd::prelude::*;

use crate::context::Standalone;
use crate::cursor::{u16_at, u16s_at, Cursor};
use crate::decode::{
    array_decodes, array_failure, read_array, required_list_decodes, required_list_failure,
    resolve_all, Decode, FixedSize,
};
use crate::error::{DecodeError, Flaw, Table};
use crate::value::GlyphID;

verus! {

/// A positioning record: apply the lookup at `lookup_index` of the lookup
/// list to the glyph at `sequence_index` of the matched sequence.
#[derive(Clone, Copy, Debug, PartialEq, Eq, Structural)]
pub struct Positioning {
    pub sequence_index: u16,
    pub lookup_index: u16,
}

impl Decode for Positioning {
    type Parameter = Standalone;

    open spec fn failure(d: Seq<u8>, p: int, param: Standalone) -> Option<DecodeError> {
        if p + 4 > d.len() {
            Some(DecodeError::Truncated)
        } else {
            None
        }
    }

    open spec fn decodes(d: Seq<u8>, p: int, param: Standalone, value: Positioning) -> bool {
        value == Positioning { sequence_index: u16_at(d, p), lookup_index: u16_at(d, p + 2) }
    }

    open spec fn end(d: Seq<u8>, p: int, param: Standalone) -> int {
        p + 4
    }

    fn read(c: &mut Cursor, param: Standalone) -> (r: Result<Positioning, DecodeError>) {
        let sequence_index = c.read_u16()?;
        let lookup_index = c.read_u16()?;
        Ok(Positioning { sequence_index, lookup_index })
    }
}

impl FixedSize for Positioning {
    open spec fn stride(param: Standalone) -> nat {
        4
    }

    proof fn lemma_end(d: Seq<u8>, p: int, param: Standalone) {
    }
}

/// Where the positioning records of a rule of the plain or class kind at `p`
/// start: after the two counts and the input segment, whose first glyph is
/// not stored.
pub open spec fn rule_operations_at(d: Seq<u8>, p: int) -> int {
    p + 4 + 2 * (u16_at(d, p) - 1)
}

/// The first error met when decoding a rule of the plain or class kind at
/// `p`; `context` names the kind.
pub open spec fn rule_failure(d: Seq<u8>, p: int, context: Table) -> Option<DecodeError> {
    if p + 4 > d.len() {
        Some(DecodeError::Truncated)
    } else if u16_at(d, p) == 0 {
        Some(DecodeError::Malformed(context, Flaw::ZeroInputGlyphs))
    } else if rule_operations_at(d, p) > d.len() {
        Some(DecodeError::Truncated)
    } else {
        array_failure::<Positioning>(d, rule_operations_at(d, p), u16_at(d, p + 2) as int, Standalone)
    }
}

/// Whether the fields are what a rule of the plain or class kind at `p`
/// holds.
pub open spec fn rule_decodes(
    d: Seq<u8>,
    p: int,
    input_count: u16,
    operation_count: u16,
    input: Seq<u16>,
    operations: Seq<Positioning>,
) -> bool {
    &&& input_count == u16_at(d, p)
    &&& operation_count == u16_at(d, p + 2)
    &&& input == u16s_at(d, p + 4, input_count - 1)
    &&& operations.len() == operation_count
    &&& array_decodes::<Positioning>(d, rule_operations_at(d, p), Standalone, operations)
}

/// Reads a rule of the plain or class kind.
fn read_rule(c: &mut Cursor, context: Table) -> (r: Result<
    (u16, u16, Vec<u16>, Vec<Positioning>),
    DecodeError,
>)
    ensures
        final(c).data() == old(c).data(),
        match r {
            Ok(v) => {
                &&& rule_failure(old(c).data(), old(c).pos(), context) is None
                &&& rule_decodes(old(c).data(), old(c).pos(), v.0, v.1, v.2@, v.3@)
                &&& final(c).pos() == rule_operations_at(old(c).data(), old(c).pos()) + 4 * v.1
            },
            Err(e) => rule_failure(old(c).data(), old(c).pos(), context) == Some(e),
        },
{
    let input_count = c.read_u16()?;
    let operation_count = c.read_u16()?;
    if input_count == 0 {
        return Err(DecodeError::Malformed(context, Flaw::ZeroInputGlyphs));
    }
    let input = c.read_u16s(input_count - 1)?;
    let operations = read_array::<Positioning>(c, operation_count, Standalone)?;
    Ok((input_count, operation_count, input, operations))
}

/// An array of positioning records fails only where it runs past the end of
/// the buffer.
pub proof fn lemma_positionings_fit(d: Seq<u8>, q: int, n: int)
    requires
        0 <= n,
    ensures
        array_failure::<Positioning>(d, q, n, Standalone) is None <==> n == 0 || q + 4 * n <= d.len(),
        array_failure::<Positioning>(d, q, n, Standalone) is Some ==> array_failure::<Positioning>(
            d,
            q,
            n,
            Standalone,
        ) == Some(DecodeError::Truncated),
    decreases n,
{
    if n > 0 {
        lemma_positionings_fit(d, q, n - 1);
        assert(Positioning::stride(Standalone) == 4);
        assert((n - 1) * Positioning::stride(Standalone) == 4 * n - 4);
    }
}

/// A rule whose stored input count is zero is malformed; one whose count is
/// one stores no input glyph, and is decoded whenever its positioning
/// records fit in the buffer.
pub proof fn lemma_rule_input_count(d: Seq<u8>, p: int)
    requires
        0 <= p,
        p + 4 <= d.len(),
    ensures
        u16_at(d, p) == 0 ==> Rule::failure(d, p, Standalone) == Some(
            DecodeError::Malformed(Table::Rule, Flaw::ZeroInputGlyphs),
        ),
        u16_at(d, p) == 1 ==> (Rule::failure(d, p, Standalone) is None <==> p + 4 + 4 * u16_at(
            d,
            p + 2,
        ) <= d.len()),
        u16_at(d, p) == 1 ==> forall|v: Rule|
            #[trigger] Rule::decodes(d, p, Standalone, v) ==> v.input_glyph_ids@.len() == 0,
{
    if u16_at(d, p) == 1 {
        lemma_positionings_fit(d, p + 4, u16_at(d, p + 2) as int);
    }
}

/// A positioning rule: the input glyphs after the first, which the coverage
/// table supplies, and the positionings to apply.
#[derive(Clone, Debug)]
pub struct Rule {
    pub input_glyph_count: u16,
    pub operation_count: u16,
    pub input_glyph_ids: Vec<GlyphID>,
    pub operations: Vec<Positioning>,
}

impl Decode for Rule {
    type Parameter = Standalone;

    open spec fn failure(d: Seq<u8>, p: int, param: Standalone) -> Option<DecodeError> {
        rule_failure(d, p, Table::Rule)
    }

    open spec fn decodes(d: Seq<u8>, p: int, param: Standalone, value: Rule) -> bool {
        rule_decodes(
            d,
            p,
            value.input_glyph_count,
            value.operation_count,
            value.input_glyph_ids@,
            value.operations@,
        )
    }

    open spec fn end(d: Seq<u8>, p: int, param: Standalone) -> int {
        rule_operations_at(d, p) + 4 * u16_at(d, p + 2)
    }

    fn read(c: &mut Cursor, param: Standalone) -> (r: Result<Rule, DecodeError>) {
        let (input_glyph_count, operation_count, input_glyph_ids, operations) = read_rule(
            c,
            Table::Rule,
        )?;
        Ok(Rule { input_glyph_count, operation_count, input_glyph_ids, operations })
    }
}

/// A class positioning rule: the classes of the input glyphs after the
/// first, and the positionings to apply.
#[derive(Clone, Debug)]
pub struct ClassRule {
    pub input_glyph_count: u16,
    pub operation_count: u16,
    pub input_class_ids: Vec<u16>,
    pub operations: Vec<Positioning>,
}

impl Decode for ClassRule {
    type Parameter = Standalone;

    open spec fn failure(d: Seq<u8>, p: int, param: Standalone) -> Option<DecodeError> {
        rule_failure(d, p, Table::ClassRule)
    }

    open spec fn decodes(d: Seq<u8>, p: int, param: Standalone, value: ClassRule) -> bool {
        rule_decodes(
            d,
            p,
            value.input_glyph_count,
            value.operation_count,
            value.input_class_ids@,
            value.operations@,
        )
    }

    open spec fn end(d: Seq<u8>, p: int, param: Standalone) -> int {
        rule_operations_at(d, p) + 4 * u16_at(d, p + 2)
    }

    fn read(c: &mut Cursor, param: Standalone) -> (r: Result<ClassRule, DecodeError>) {
        let (input_glyph_count, operation_count, input_class_ids, operations) = read_rule(
            c,
            Table::ClassRule,
        )?;
        Ok(ClassRule { input_glyph_count, operation_count, input_class_ids, operations })
    }
}

/// Where the input count of a chaining rule at `p` stands, after the
/// backtrack segment.
pub open spec fn chain_input_at(d: Seq<u8>, p: int) -> int {
    p + 2 + 2 * u16_at(d, p)
}

/// Where the lookahead count of a chaining rule at `p` stands, after the
/// input segment, whose first glyph is not stored.
pub open spec fn chain_lookahead_at(d: Seq<u8>, p: int) -> int {
    let q = chain_input_at(d, p);
    q + 2 + 2 * (u16_at(d, q) - 1)
}

/// Where the operation count of a chaining rule at `p` stands, after the
/// lookahead segment.
pub open spec fn chain_operations_at(d: Seq<u8>, p: int) -> int {
    let q = chain_lookahead_at(d, p);
    q + 2 + 2 * u16_at(d, q)
}

/// The first error met when decoding a chaining rule at `p`; `context` names
/// the kind.
pub open spec fn chain_failure(d: Seq<u8>, p: int, context: Table) -> Option<DecodeError> {
    if p + 2 > d.len() || chain_input_at(d, p) + 2 > d.len() {
        Some(DecodeError::Truncated)
    } else if u16_at(d, chain_input_at(d, p)) == 0 {
        Some(DecodeError::Malformed(context, Flaw::ZeroInputGlyphs))
    } else if chain_operations_at(d, p) + 2 > d.len() {
        Some(DecodeError::Truncated)
    } else {
        array_failure::<Positioning>(
            d,
            chain_operations_at(d, p) + 2,
            u16_at(d, chain_operations_at(d, p)) as int,
            Standalone,
        )
    }
}

/// The segments and counts of a chaining rule, in the order stored.
pub struct ChainParts {
    pub backward_count: u16,
    pub backward: Vec<u16>,
    pub input_count: u16,
    pub input: Vec<u16>,
    pub forward_count: u16,
    pub forward: Vec<u16>,
    pub operation_count: u16,
    pub operations: Vec<Positioning>,
}

/// Whether `parts` is what a chaining rule at `p` holds.
pub open spec fn chain_decodes(d: Seq<u8>, p: int, parts: ChainParts) -> bool {
    let q1 = chain_input_at(d, p);
    let q2 = chain_lookahead_at(d, p);
    let q3 = chain_operations_at(d, p);
    &&& parts.backward_count == u16_at(d, p)
    &&& parts.backward@ == u16s_at(d, p + 2, parts.backward_count as int)
    &&& parts.input_count == u16_at(d, q1)
    &&& parts.input@ == u16s_at(d, q1 + 2, parts.input_count - 1)
    &&& parts.forward_count == u16_at(d, q2)
    &&& parts.forward@ == u16s_at(d, q2 + 2, parts.forward_count as int)
    &&& parts.operation_count == u16_at(d, q3)
    &&& parts.operations@.len() == parts.operation_count
    &&& array_decodes::<Positioning>(d, q3 + 2, Standalone, parts.operations@)
}

/// Reads a chaining rule.
fn read_chain(c: &mut Cursor, context: Table) -> (r: Result<ChainParts, DecodeError>)
    ensures
        final(c).data() == old(c).data(),
        match r {
            Ok(v) => {
                &&& chain_failure(old(c).data(), old(c).pos(), context) is None
                &&& chain_decodes(old(c).data(), old(c).pos(), v)
                &&& final(c).pos() == chain_operations_at(old(c).data(), old(c).pos()) + 2 + 4
                    * v.operation_count
            },
            Err(e) => chain_failure(old(c).data(), old(c).pos(), context) == Some(e),
        },
{
    let backward_count = c.read_u16()?;
    let backward = c.read_u16s(backward_count)?;
    let input_count = c.read_u16()?;
    if input_count == 0 {
        return Err(DecodeError::Malformed(context, Flaw::ZeroInputGlyphs));
    }
    let input = c.read_u16s(input_count - 1)?;
    let forward_count = c.read_u16()?;
    let forward = c.read_u16s(forward_count)?;
    let operation_count = c.read_u16()?;
    assert(c.pos() == chain_operations_at(old(c).data(), old(c).pos()) + 2);
    let ghost q = c.pos();
    let operations = read_array::<Positioning>(c, operation_count, Standalone)?;
    assert(c.pos() == q + operation_count * 4);
    assert(chain_failure(old(c).data(), old(c).pos(), context) is None);
    let parts = ChainParts {
        backward_count,
        backward,
        input_count,
        input,
        forward_count,
        forward,
        operation_count,
        operations,
    };
    assert(chain_decodes(old(c).data(), old(c).pos(), parts));
    assert(c.pos() == chain_operations_at(old(c).data(), old(c).pos()) + 2 + 4 * operation_count);
    Ok(parts)
}

/// A chaining positioning rule: the glyphs before the input, the input
/// glyphs after the first, which the coverage table supplies, the glyphs
/// after the input, and the positionings to apply.
#[derive(Clone, Debug)]
pub struct ChainRule {
    pub backward_glyph_count: u16,
    pub backward_glyph_ids: Vec<GlyphID>,
    pub input_glyph_count: u16,
    pub input_glyph_ids: Vec<GlyphID>,
    pub forward_glyph_count: u16,
    pub forward_glyph_ids: Vec<GlyphID>,
    pub operation_count: u16,
    pub operations: Vec<Positioning>,
}

impl Decode for ChainRule {
    type Parameter = Standalone;

    open spec fn failure(d: Seq<u8>, p: int, param: Standalone) -> Option<DecodeError> {
        chain_failure(d, p, Table::ChainRule)
    }

    open spec fn decodes(d: Seq<u8>, p: int, param: Standalone, value: ChainRule) -> bool {
        chain_decodes(
            d,
            p,
            ChainParts {
                backward_count: value.backward_glyph_count,
                backward: value.backward_glyph_ids,
                input_count: value.input_glyph_count,
                input: value.input_glyph_ids,
                forward_count: value.forward_glyph_count,
                forward: value.forward_glyph_ids,
                operation_count: value.operation_count,
                operations: value.operations,
            },
        )
    }

    open spec fn end(d: Seq<u8>, p: int, param: Standalone) -> int {
        chain_operations_at(d, p) + 2 + 4 * u16_at(d, chain_operations_at(d, p))
    }

    fn read(c: &mut Cursor, param: Standalone) -> (r: Result<ChainRule, DecodeError>) {
        let parts = read_chain(c, Table::ChainRule)?;
        Ok(ChainRule {
            backward_glyph_count: parts.backward_count,
            backward_glyph_ids: parts.backward,
            input_glyph_count: parts.input_count,
            input_glyph_ids: parts.input,
            forward_glyph_count: parts.forward_count,
            forward_glyph_ids: parts.forward,
            operation_count: parts.operation_count,
            operations: parts.operations,
        })
    }
}

/// A chaining class positioning rule: the classes of the glyphs before the
/// input, of the input glyphs after the first, and of the glyphs after the
/// input, and the positionings to apply.
#[derive(Clone, Debug)]
pub struct ChainClassRule {
    pub backward_glyph_count: u16,
    pub backward_class_ids: Vec<u16>,
    pub input_glyph_count: u16,
    pub input_class_ids: Vec<u16>,
    pub forward_glyph_count: u16,
    pub forward_class_ids: Vec<u16>,
    pub operation_count: u16,
    pub operations: Vec<Positioning>,
}

impl Decode for ChainClassRule {
    type Parameter = Standalone;

    open spec fn failure(d: Seq<u8>, p: int, param: Standalone) -> Option<DecodeError> {
        chain_failure(d, p, Table::ChainClassRule)
    }

    open spec fn decodes(d: Seq<u8>, p: int, param: Standalone, value: ChainClassRule) -> bool {
        chain_decodes(
            d,
            p,
            ChainParts {
                backward_count: value.backward_glyph_count,
                backward: value.backward_class_ids,
                input_count: value.input_glyph_count,
                input: value.input_class_ids,
                forward_count: value.forward_glyph_count,
                forward: value.forward_class_ids,
                operation_count: value.operation_count,
                operations: value.operations,
            },
        )
    }

    open spec fn end(d: Seq<u8>, p: int, param: Standalone) -> int {
        chain_operations_at(d, p) + 2 + 4 * u16_at(d, chain_operations_at(d, p))
    }

    fn read(c: &mut Cursor, param: Standalone) -> (r: Result<ChainClassRule, DecodeError>) {
        let parts = read_chain(c, Table::ChainClassRule)?;
        Ok(ChainClassRule {
            backward_glyph_count: parts.backward_count,
            backward_class_ids: parts.backward,
            input_glyph_count: parts.input_count,
            input_class_ids: parts.input,
            forward_glyph_count: parts.forward_count,
            forward_class_ids: parts.forward,
            operation_count: parts.operation_count,
            operations: parts.operations,
        })
    }
}

/// A set of rules, each referred to by an offset from the start of the set;
/// the sets stand in the order of the coverage table's glyphs.
#[derive(Clone, Debug)]
pub struct RuleSet<T> {
    pub count: u16,
    pub offsets: Vec<u16>,
    pub records: Vec<T>,
}

/// A set of positioning rules.
pub type Rules = RuleSet<Rule>;

/// A set of class positioning rules.
pub type ClassRules = RuleSet<ClassRule>;

/// A set of chaining positioning rules.
pub type ChainRules = RuleSet<ChainRule>;

/// A set of chaining class positioning rules.
pub type ChainClassRules = RuleSet<ChainClassRule>;

impl<T: Decode> Decode for RuleSet<T> {
    type Parameter = T::Parameter;

    open spec fn failure(d: Seq<u8>, p: int, param: T::Parameter) -> Option<DecodeError> {
        let n = u16_at(d, p) as int;
        if p + 2 > d.len() || p + 2 + 2 * n > d.len() {
            Some(DecodeError::Truncated)
        } else {
            required_list_failure::<T>(d, p, u16s_at(d, p + 2, n), n, param, Table::RuleSet)
        }
    }

    open spec fn decodes(d: Seq<u8>, p: int, param: T::Parameter, value: RuleSet<T>) -> bool {
        &&& value.count == u16_at(d, p)
        &&& value.offsets@ == u16s_at(d, p + 2, value.count as int)
        &&& required_list_decodes::<T>(d, p, value.offsets@, param, value.records@)
    }

    open spec fn end(d: Seq<u8>, p: int, param: T::Parameter) -> int {
        p + 2 + 2 * u16_at(d, p)
    }

    fn read(c: &mut Cursor, param: T::Parameter) -> (r: Result<RuleSet<T>, DecodeError>) {
        let position = c.position();
        let count = c.read_u16()?;
        let offsets = c.read_u16s(count)?;
        let records = resolve_all(c, position, &offsets, param, Table::RuleSet)?;
        Ok(RuleSet { count, offsets, records })
    }
}

} // verus!
