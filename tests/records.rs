use opentype::{
    Anchor, Anchor1, Anchors, Bases, ChainClassRule, ChainRule, ClassCount, ClassPairs, ClassRule,
    Cursor, Decode, DecodeError, Device, Flaw, LanguageRecord, Ligatures, Mark1s, Mark2s, Origin,
    Pair1s, Pair2s, Pairs, Passage, Positioning, Rule, Rules, Scripts, Single, SingleFlags,
    Standalone, Table, Tag, Values,
};

fn words(values: &[u16]) -> Vec<u8> {
    let mut out = Vec::new();
    for v in values {
        out.push((v >> 8) as u8);
        out.push((v & 0xff) as u8);
    }
    out
}

fn expect_format1(anchor: &Anchor, x: i16, y: i16) {
    match anchor {
        Anchor::Format1(a) => {
            assert_eq!(a.format, 1);
            assert_eq!(a.x, x);
            assert_eq!(a.y, y);
        }
        _ => panic!("expected an anchor in format 1, found {:?}", anchor),
    }
}

fn is_blank(value: &Single) -> bool {
    value.x_placement.is_none()
        && value.y_placement.is_none()
        && value.x_advance.is_none()
        && value.y_advance.is_none()
        && value.device_x_placement_offset.is_none()
        && value.device_y_placement_offset.is_none()
        && value.device_x_advance_offset.is_none()
        && value.device_y_advance_offset.is_none()
        && value.device_x_placement.is_none()
        && value.device_y_placement.is_none()
        && value.device_x_advance.is_none()
        && value.device_y_advance.is_none()
}

#[test]
fn anchor1_round_trip() {
    let anchor = Anchor1 { format: 1, x: 100, y: -50 };
    let data = anchor.encode();
    assert_eq!(data, vec![0, 1, 0, 100, 0xff, 0xce]);
    let mut c = Cursor::new(&data);
    let decoded = Anchor::read(&mut c, Standalone).unwrap();
    expect_format1(&decoded, 100, -50);
    assert_eq!(c.position(), 6);
    let mut again = Cursor::new(&data);
    assert_eq!(Anchor1::read(&mut again, Standalone), Ok(anchor));
}

#[test]
fn anchor_unknown_format() {
    let data = words(&[4, 0, 0]);
    let mut c = Cursor::new(&data);
    assert_eq!(Anchor::read(&mut c, Standalone).unwrap_err(), DecodeError::UnknownFormat(Table::Anchor, 4));
    let zero = words(&[0, 0, 0]);
    let mut c = Cursor::new(&zero);
    assert_eq!(Anchor::read(&mut c, Standalone).unwrap_err(), DecodeError::UnknownFormat(Table::Anchor, 0));
}

#[test]
fn anchor_format_must_match() {
    let data = words(&[2, 0, 0, 0]);
    let mut c = Cursor::new(&data);
    assert_eq!(Anchor1::read(&mut c, Standalone), Err(DecodeError::UnknownFormat(Table::Anchor, 2)));
}

#[test]
fn anchor_truncated() {
    let data = words(&[1, 5]);
    let mut c = Cursor::new(&data);
    assert_eq!(Anchor::read(&mut c, Standalone).unwrap_err(), DecodeError::Truncated);
    let empty: [u8; 1] = [0];
    let mut c = Cursor::new(&empty);
    assert_eq!(Anchor::read(&mut c, Standalone).unwrap_err(), DecodeError::Truncated);
}

#[test]
fn anchor2_decodes() {
    let data = words(&[2, 5, 6, 7]);
    let mut c = Cursor::new(&data);
    match Anchor::read(&mut c, Standalone).unwrap() {
        Anchor::Format2(a) => {
            assert_eq!((a.format, a.x, a.y, a.index), (2, 5, 6, 7));
        }
        other => panic!("expected format 2, found {:?}", other),
    }
    assert_eq!(c.position(), 8);
}

#[test]
fn anchor3_devices_relative_to_anchor() {
    // Padding, the anchor at byte 4, and its x device at 4 + 10.
    let data = words(&[0, 0, 3, 1, 2, 10, 0, 11, 15, 1, 0x1234]);
    let mut c = Cursor::new(&data);
    c.seek(4).unwrap();
    match Anchor::read(&mut c, Standalone).unwrap() {
        Anchor::Format3(a) => {
            assert_eq!((a.format, a.x, a.y), (3, 1, 2));
            assert_eq!((a.device_x_offset, a.device_y_offset), (10, 0));
            let device = a.device_x.unwrap();
            assert_eq!((device.start_size, device.end_size, device.delta_format), (11, 15, 1));
            assert_eq!(device.delta_values, vec![0x1234]);
            assert!(a.device_y.is_none());
        }
        other => panic!("expected format 3, found {:?}", other),
    }
    assert_eq!(c.position(), 14);
}

#[test]
fn device_word_counts() {
    // Five sizes of eight bits: three words.
    let data = words(&[8, 12, 3, 1, 2, 3, 4]);
    let mut c = Cursor::new(&data);
    let device = Device::read(&mut c, Standalone).unwrap();
    assert_eq!(device.delta_values, vec![1, 2, 3]);
    assert_eq!(c.position(), 12);
    // A variation index packs no deltas.
    let data = words(&[1, 2, 0x8000]);
    let mut c = Cursor::new(&data);
    let device = Device::read(&mut c, Standalone).unwrap();
    assert!(device.delta_values.is_empty());
    assert_eq!(c.position(), 6);
    // Sizes in decreasing order hold no delta.
    let data = words(&[12, 8, 2]);
    let mut c = Cursor::new(&data);
    assert!(Device::read(&mut c, Standalone).unwrap().delta_values.is_empty());
    // Nine sizes of four bits: three words, of which only two are there.
    let data = words(&[1, 9, 2, 7, 7]);
    let mut c = Cursor::new(&data);
    assert_eq!(Device::read(&mut c, Standalone).unwrap_err(), DecodeError::Truncated);
}

#[test]
fn single_flags_queries() {
    let flags = SingleFlags(0x0105);
    assert!(flags.has_x_placement());
    assert!(!flags.has_y_placement());
    assert!(flags.has_x_advance());
    assert!(!flags.has_y_advance());
    assert!(!flags.has_device_x_placement());
    assert!(flags.is_invalid());
    let devices = SingleFlags(0x00f0);
    assert!(devices.has_device_x_placement());
    assert!(devices.has_device_y_placement());
    assert!(devices.has_device_x_advance());
    assert!(devices.has_device_y_advance());
    assert!(!devices.is_invalid());
}

#[test]
fn single_value_record() {
    let data = [0, 10, 0, 20];
    let mut c = Cursor::new(&data);
    let flags = SingleFlags(0x0001 | 0x0004);
    let value = Single::read(&mut c, Values { position: 0, flags }).unwrap();
    assert_eq!(value.x_placement, Some(10));
    assert_eq!(value.x_advance, Some(20));
    assert_eq!(value.y_placement, None);
    assert_eq!(value.y_advance, None);
    assert_eq!(value.device_x_placement_offset, None);
    assert_eq!(value.device_y_placement_offset, None);
    assert_eq!(value.device_x_advance_offset, None);
    assert_eq!(value.device_y_advance_offset, None);
    assert!(value.device_x_placement.is_none());
    assert!(value.device_y_placement.is_none());
    assert!(value.device_x_advance.is_none());
    assert!(value.device_y_advance.is_none());
    assert_eq!(c.position(), 4);
}

#[test]
fn single_fields_are_big_endian() {
    let data = [10, 0, 20, 0];
    let mut c = Cursor::new(&data);
    let value = Single::read(&mut c, Values { position: 0, flags: SingleFlags(0x0005) }).unwrap();
    assert_eq!(value.x_placement, Some(2560));
    assert_eq!(value.x_advance, Some(5120));
}

#[test]
fn single_devices_relative_to_base() {
    // A placement of -1 and an x-placement device at 8 from the base.
    let data = words(&[0xffff, 8, 0, 0, 12, 12, 2, 0x7000]);
    let mut c = Cursor::new(&data);
    let flags = SingleFlags(0x0011);
    let value = Single::read(&mut c, Values { position: 0, flags }).unwrap();
    assert_eq!(value.x_placement, Some(-1));
    assert_eq!(value.device_x_placement_offset, Some(8));
    let device = value.device_x_placement.unwrap();
    assert_eq!((device.start_size, device.end_size, device.delta_format), (12, 12, 2));
    assert_eq!(device.delta_values, vec![0x7000]);
    assert_eq!(c.position(), 4);
}

#[test]
fn single_null_device_offset_is_absent() {
    let data = words(&[0]);
    let mut c = Cursor::new(&data);
    let value = Single::read(&mut c, Values { position: 0, flags: SingleFlags(0x0010) }).unwrap();
    assert_eq!(value.device_x_placement_offset, Some(0));
    assert!(value.device_x_placement.is_none());
}

#[test]
fn single_truncated() {
    let data = words(&[1, 2, 3]);
    let mut c = Cursor::new(&data);
    let found = Single::read(&mut c, Values { position: 0, flags: SingleFlags(0x000f) });
    assert_eq!(found.unwrap_err(), DecodeError::Truncated);
}

#[test]
fn pair1s_decode() {
    let data = words(&[2, 7, (-10i16) as u16, 9, 5]);
    let mut c = Cursor::new(&data);
    let param = Pairs { position: 0, value1_flags: SingleFlags(0x0004), value2_flags: SingleFlags(0) };
    let pairs = Pair1s::read(&mut c, param).unwrap();
    assert_eq!(pairs.count, 2);
    assert_eq!(pairs.records.len(), 2);
    assert_eq!(pairs.records[0].glyph2_id, 7);
    assert_eq!(pairs.records[0].value1.x_advance, Some(-10));
    assert!(is_blank(&pairs.records[0].value2));
    assert_eq!(pairs.records[1].glyph2_id, 9);
    assert_eq!(pairs.records[1].value1.x_advance, Some(5));
    assert_eq!(c.position(), 10);
}

#[test]
fn pair1s_truncated() {
    let data = words(&[2, 7, 1]);
    let mut c = Cursor::new(&data);
    let param = Pairs { position: 0, value1_flags: SingleFlags(0x0004), value2_flags: SingleFlags(0) };
    assert_eq!(Pair1s::read(&mut c, param).unwrap_err(), DecodeError::Truncated);
}

#[test]
fn class_pairs_with_empty_flags() {
    let data = [0xab, 0xcd];
    let mut c = Cursor::new(&data);
    let param = ClassPairs {
        position: 0,
        class2_count: 3,
        value1_flags: SingleFlags(0),
        value2_flags: SingleFlags(0),
    };
    let pairs = Pair2s::read(&mut c, param).unwrap();
    assert_eq!(pairs.records.len(), 3);
    for pair in &pairs.records {
        assert!(is_blank(&pair.value1));
        assert!(is_blank(&pair.value2));
    }
    assert_eq!(c.position(), 0);
}

#[test]
fn pair2s_decode() {
    let data = words(&[1, 2, 3, 4]);
    let mut c = Cursor::new(&data);
    let param = ClassPairs {
        position: 0,
        class2_count: 2,
        value1_flags: SingleFlags(0x0001),
        value2_flags: SingleFlags(0x0002),
    };
    let pairs = Pair2s::read(&mut c, param).unwrap();
    assert_eq!(pairs.records.len(), 2);
    assert_eq!(pairs.records[0].value1.x_placement, Some(1));
    assert_eq!(pairs.records[0].value2.y_placement, Some(2));
    assert_eq!(pairs.records[1].value1.x_placement, Some(3));
    assert_eq!(pairs.records[1].value2.y_placement, Some(4));
    assert_eq!(c.position(), 8);
}

#[test]
fn mark1s_anchor_relative_to_array() {
    // The mark array starts at byte 2; its one record points 6 bytes past it.
    let data = words(&[0, 1, 5, 6, 1, 3, 4]);
    let mut c = Cursor::new(&data);
    c.seek(2).unwrap();
    let marks = Mark1s::read(&mut c, Standalone).unwrap();
    assert_eq!(marks.count, 1);
    assert_eq!(marks.records[0].class_id, 5);
    assert_eq!(marks.records[0].anchor_offset, 6);
    expect_format1(&marks.records[0].anchor, 3, 4);
    assert_eq!(c.position(), 8);
}

#[test]
fn mark1_null_anchor_is_malformed() {
    let data = words(&[1, 5, 0]);
    let mut c = Cursor::new(&data);
    assert_eq!(Mark1s::read(&mut c, Standalone).unwrap_err(), DecodeError::Malformed(Table::Mark1, Flaw::NullOffset));
}

#[test]
fn bases_decode() {
    let data = words(&[1, 6, 0, 1, 1, 2]);
    let mut c = Cursor::new(&data);
    let bases = Bases::read(&mut c, ClassCount { class_count: 2 }).unwrap();
    assert_eq!(bases.count, 1);
    assert_eq!(bases.records[0].anchor_offsets, vec![6, 0]);
    expect_format1(bases.records[0].anchors[0].as_ref().unwrap(), 1, 2);
    assert!(bases.records[0].anchors[1].is_none());
    assert_eq!(c.position(), 6);
}

#[test]
fn base_record_uses_given_position() {
    // The record at 8 points 2 bytes past the given position, not past itself.
    let data = words(&[0, 1, 8, 9, 2]);
    let mut c = Cursor::new(&data);
    c.seek(8).unwrap();
    let base = opentype::Base::read(&mut c, Anchors { position: 0, class_count: 1 }).unwrap();
    expect_format1(base.anchors[0].as_ref().unwrap(), 8, 9);
    assert_eq!(c.position(), 10);
}

#[test]
fn mark2s_decode() {
    let data = words(&[2, 6, 0, 1, 7, 7]);
    let mut c = Cursor::new(&data);
    let marks = Mark2s::read(&mut c, ClassCount { class_count: 1 }).unwrap();
    assert_eq!(marks.count, 2);
    expect_format1(marks.records[0].anchors[0].as_ref().unwrap(), 7, 7);
    assert!(marks.records[1].anchors[0].is_none());
    assert_eq!(c.position(), 6);
}

#[test]
fn ligatures_decode() {
    // The set at 0, its ligature at 4, the anchor at 4 + 8.
    let data = words(&[1, 4, 2, 8, 0, 0, 1, 7, 8]);
    let mut c = Cursor::new(&data);
    let ligatures = Ligatures::read(&mut c, ClassCount { class_count: 1 }).unwrap();
    assert_eq!(ligatures.count, 1);
    assert_eq!(ligatures.offsets, vec![4]);
    let ligature = &ligatures.records[0];
    assert_eq!(ligature.component_count, 2);
    expect_format1(ligature.components[0].anchors[0].as_ref().unwrap(), 7, 8);
    assert!(ligature.components[1].anchors[0].is_none());
    assert_eq!(c.position(), 4);
}

#[test]
fn ligatures_null_offset() {
    let data = words(&[1, 0]);
    let mut c = Cursor::new(&data);
    let found = Ligatures::read(&mut c, ClassCount { class_count: 1 });
    assert_eq!(found.unwrap_err(), DecodeError::Malformed(Table::Ligatures, Flaw::NullOffset));
}

#[test]
fn passage_decode() {
    let data = words(&[0, 4, 1, 9, 9]);
    let mut c = Cursor::new(&data);
    let passage = Passage::read(&mut c, Origin { position: 0 }).unwrap();
    assert_eq!((passage.entry_offset, passage.exit_offset), (0, 4));
    assert!(passage.entry.is_none());
    expect_format1(passage.exit.as_ref().unwrap(), 9, 9);
    assert_eq!(c.position(), 4);
}

#[test]
fn positioning_decode() {
    let data = words(&[3, 12]);
    let mut c = Cursor::new(&data);
    assert_eq!(
        Positioning::read(&mut c, Standalone),
        Ok(Positioning { sequence_index: 3, lookup_index: 12 })
    );
}

#[test]
fn rule_zero_input_is_malformed() {
    let data = words(&[0, 0]);
    let mut c = Cursor::new(&data);
    assert_eq!(
        Rule::read(&mut c, Standalone).unwrap_err(),
        DecodeError::Malformed(Table::Rule, Flaw::ZeroInputGlyphs)
    );
}

#[test]
fn rule_one_input_has_no_stored_glyph() {
    let data = words(&[1, 1, 2, 3]);
    let mut c = Cursor::new(&data);
    let rule = Rule::read(&mut c, Standalone).unwrap();
    assert_eq!(rule.input_glyph_count, 1);
    assert!(rule.input_glyph_ids.is_empty());
    assert_eq!(rule.operations, vec![Positioning { sequence_index: 2, lookup_index: 3 }]);
    assert_eq!(c.position(), 8);
}

#[test]
fn rule_decode() {
    let data = words(&[3, 1, 10, 11, 0, 4]);
    let mut c = Cursor::new(&data);
    let rule = Rule::read(&mut c, Standalone).unwrap();
    assert_eq!(rule.input_glyph_ids, vec![10, 11]);
    assert_eq!(rule.operation_count, 1);
    assert_eq!(rule.operations, vec![Positioning { sequence_index: 0, lookup_index: 4 }]);
}

#[test]
fn rule_truncated() {
    let data = words(&[3, 1, 10, 11, 0]);
    let mut c = Cursor::new(&data);
    assert_eq!(Rule::read(&mut c, Standalone).unwrap_err(), DecodeError::Truncated);
}

#[test]
fn class_rule_decode_and_zero_input() {
    let data = words(&[2, 0, 5]);
    let mut c = Cursor::new(&data);
    let rule = ClassRule::read(&mut c, Standalone).unwrap();
    assert_eq!(rule.input_class_ids, vec![5]);
    assert!(rule.operations.is_empty());
    let data = words(&[0, 1, 0, 0]);
    let mut c = Cursor::new(&data);
    assert_eq!(
        ClassRule::read(&mut c, Standalone).unwrap_err(),
        DecodeError::Malformed(Table::ClassRule, Flaw::ZeroInputGlyphs)
    );
}

#[test]
fn chain_rule_decode() {
    let data = words(&[1, 5, 2, 6, 1, 7, 1, 0, 1]);
    let mut c = Cursor::new(&data);
    let rule = ChainRule::read(&mut c, Standalone).unwrap();
    assert_eq!(rule.backward_glyph_ids, vec![5]);
    assert_eq!(rule.input_glyph_count, 2);
    assert_eq!(rule.input_glyph_ids, vec![6]);
    assert_eq!(rule.forward_glyph_ids, vec![7]);
    assert_eq!(rule.operations, vec![Positioning { sequence_index: 0, lookup_index: 1 }]);
    assert_eq!(c.position(), 18);
}

#[test]
fn chain_rule_truncated_and_malformed() {
    let data = words(&[1, 5, 2, 6, 1]);
    let mut c = Cursor::new(&data);
    assert_eq!(ChainRule::read(&mut c, Standalone).unwrap_err(), DecodeError::Truncated);
    // The zero input count is found before the missing lookahead.
    let data = words(&[0, 0]);
    let mut c = Cursor::new(&data);
    assert_eq!(
        ChainRule::read(&mut c, Standalone).unwrap_err(),
        DecodeError::Malformed(Table::ChainRule, Flaw::ZeroInputGlyphs)
    );
}

#[test]
fn chain_class_rule_decode() {
    let data = words(&[0, 1, 2, 3, 4, 0]);
    let mut c = Cursor::new(&data);
    let rule = ChainClassRule::read(&mut c, Standalone).unwrap();
    assert!(rule.backward_class_ids.is_empty());
    assert!(rule.input_class_ids.is_empty());
    assert_eq!(rule.forward_class_ids, vec![3, 4]);
    assert!(rule.operations.is_empty());
    let data = words(&[1, 9, 0]);
    let mut c = Cursor::new(&data);
    assert_eq!(
        ChainClassRule::read(&mut c, Standalone).unwrap_err(),
        DecodeError::Malformed(Table::ChainClassRule, Flaw::ZeroInputGlyphs)
    );
}

#[test]
fn rules_decode() {
    let data = words(&[2, 6, 14, 1, 1, 0, 2, 2, 0, 9]);
    let mut c = Cursor::new(&data);
    let rules = Rules::read(&mut c, Standalone).unwrap();
    assert_eq!(rules.count, 2);
    assert_eq!(rules.offsets, vec![6, 14]);
    assert_eq!(rules.records[0].operations, vec![Positioning { sequence_index: 0, lookup_index: 2 }]);
    assert_eq!(rules.records[1].input_glyph_ids, vec![9]);
    assert_eq!(c.position(), 6);
}

#[test]
fn rules_null_offset() {
    let data = words(&[1, 0]);
    let mut c = Cursor::new(&data);
    assert_eq!(
        Rules::read(&mut c, Standalone).unwrap_err(),
        DecodeError::Malformed(Table::RuleSet, Flaw::NullOffset)
    );
}

fn script_list() -> Vec<u8> {
    let latn = Tag::from_bytes(*b"latn").0;
    let eng = Tag::from_bytes(*b"ENG ").0;
    words(&[
        // The list: one script, its record at 8.
        1,
        (latn >> 16) as u16,
        (latn & 0xffff) as u16,
        8,
        // The record at 8: the default language at 10 from it, one language.
        10,
        1,
        (eng >> 16) as u16,
        (eng & 0xffff) as u16,
        18,
        // The default language at 18.
        0,
        0xffff,
        1,
        3,
        // The English language at 26.
        0,
        2,
        2,
        4,
        5,
    ])
}

#[test]
fn script_language_lookup() {
    let data = script_list();
    let mut c = Cursor::new(&data);
    let scripts = Scripts::read(&mut c, Standalone).unwrap();
    assert_eq!(c.position(), 8);
    let latin = scripts.get(Tag::from_bytes(*b"latn")).unwrap();
    let default = latin.default_language.as_ref().unwrap();
    assert_eq!(default.required_feature_index, 0xffff);
    assert_eq!(default.feature_indices, vec![3]);
    let english = latin.get(Tag::from_bytes(*b"ENG ")).unwrap();
    assert_eq!(english.required_feature_index, 2);
    assert_eq!(english.feature_count, 2);
    assert_eq!(english.feature_indices, vec![4, 5]);
    assert!(latin.get(Tag::from_bytes(*b"FRA ")).is_none());
    assert!(scripts.get(Tag::from_bytes(*b"cyrl")).is_none());
}

#[test]
fn tag_from_bytes() {
    assert_eq!(Tag::from_bytes(*b"latn"), Tag(0x6c61_746e));
    assert_eq!(Tag::from_bytes(*b"lao "), Tag(0x6c61_6f20));
}

#[test]
fn language_record_reserved_field() {
    let data = words(&[1, 0, 0]);
    let mut c = Cursor::new(&data);
    assert_eq!(
        LanguageRecord::read(&mut c, Standalone).unwrap_err(),
        DecodeError::Malformed(Table::LanguageRecord, Flaw::ReservedField)
    );
}

#[test]
fn script_null_record_offset() {
    let data = words(&[1, 0x6c61, 0x746e, 0]);
    let mut c = Cursor::new(&data);
    assert_eq!(
        Scripts::read(&mut c, Standalone).unwrap_err(),
        DecodeError::Malformed(Table::Scripts, Flaw::NullOffset)
    );
}
