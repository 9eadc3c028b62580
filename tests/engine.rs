use opentype::{
    resolve_all, resolve_each, with_jump, Anchor, Cursor, DecodeError, Flaw, Standalone,
    Table, Tag,
};

fn bytes_of(values: &[u16]) -> Vec<u8> {
    let mut out = Vec::new();
    for v in values {
        out.push((v >> 8) as u8);
        out.push((v & 0xff) as u8);
    }
    out
}

fn assert_anchor1(anchor: &Anchor, x: i16, y: i16) {
    match anchor {
        Anchor::Format1(a) => {
            assert_eq!(a.format, 1);
            assert_eq!(a.x, x);
            assert_eq!(a.y, y);
        }
        _ => panic!("expected an anchor in format 1, found {:?}", anchor),
    }
}

#[test]
fn cursor_reads_big_endian() {
    let data = [0x12, 0x34, 0xff, 0xfe, 0x00, 0x01, 0x02, 0x03];
    let mut c = Cursor::new(&data);
    assert_eq!(c.read_u16(), Ok(0x1234));
    assert_eq!(c.read_i16(), Ok(-2));
    assert_eq!(c.read_u32(), Ok(0x0001_0203));
    assert_eq!(c.position(), 8);
    c.seek(4).unwrap();
    assert_eq!(c.read_tag(), Ok(Tag(0x0001_0203)));
    assert_eq!(c.read_u8(), Err(DecodeError::Truncated));
    assert_eq!(c.position(), 8);
}

#[test]
fn cursor_reads_single_bytes() {
    let data = [7, 9];
    let mut c = Cursor::new(&data);
    assert_eq!(c.read_u8(), Ok(7));
    assert_eq!(c.read_u8(), Ok(9));
    assert_eq!(c.read_u16(), Err(DecodeError::Truncated));
}

#[test]
fn cursor_truncated_reads_do_not_move() {
    let data = [1, 2, 3];
    let mut c = Cursor::new(&data);
    assert_eq!(c.read_u32(), Err(DecodeError::Truncated));
    assert_eq!(c.position(), 0);
    assert_eq!(c.read_u16(), Ok(0x0102));
    assert_eq!(c.read_i16(), Err(DecodeError::Truncated));
    assert_eq!(c.position(), 2);
}

#[test]
fn cursor_peek_does_not_move() {
    let data = [0, 5, 0, 6];
    let mut c = Cursor::new(&data);
    assert_eq!(c.peek_u16(), Ok(5));
    assert_eq!(c.peek_u16(), Ok(5));
    assert_eq!(c.position(), 0);
    assert_eq!(c.seek(3), Ok(()));
    assert_eq!(c.peek_u16(), Err(DecodeError::Truncated));
}

#[test]
fn cursor_seek_stays_in_bounds() {
    let data = [0u8; 4];
    let mut c = Cursor::new(&data);
    assert_eq!(c.len(), 4);
    assert_eq!(c.seek(4), Ok(()));
    assert_eq!(c.position(), 4);
    assert_eq!(c.seek(5), Err(DecodeError::OutOfBounds));
    assert_eq!(c.position(), 4);
    assert_eq!(c.seek(1), Ok(()));
    assert_eq!(c.position(), 1);
}

#[test]
fn cursor_reads_counted_words() {
    let data = bytes_of(&[1, 2, 3]);
    let mut c = Cursor::new(&data);
    assert_eq!(c.read_u16s(2), Ok(vec![1, 2]));
    assert_eq!(c.position(), 4);
    assert_eq!(c.read_u16s(2), Err(DecodeError::Truncated));
    assert_eq!(c.position(), 4);
    assert_eq!(c.read_u16s(0), Ok(vec![]));
}

#[test]
fn with_jump_restores_position() {
    // Two words of padding, then an anchor at byte 4.
    let data = bytes_of(&[0, 0, 1, 100, (-50i16) as u16]);
    let mut c = Cursor::new(&data);
    c.seek(2).unwrap();
    let found: Option<Anchor> = with_jump(&mut c, 0, 4, Standalone).unwrap();
    assert_anchor1(&found.unwrap(), 100, -50);
    assert_eq!(c.position(), 2);
    // The same target, reached from another base.
    let again: Option<Anchor> = with_jump(&mut c, 2, 2, Standalone).unwrap();
    assert_anchor1(&again.unwrap(), 100, -50);
    assert_eq!(c.position(), 2);
}

#[test]
fn with_jump_null_offset_is_absent() {
    let data = bytes_of(&[1, 2, 3]);
    let mut c = Cursor::new(&data);
    c.seek(2).unwrap();
    let found: Option<Anchor> = with_jump(&mut c, 0, 0, Standalone).unwrap();
    assert!(found.is_none());
    assert_eq!(c.position(), 2);
}

#[test]
fn with_jump_out_of_bounds() {
    let data = bytes_of(&[1, 2, 3]);
    let mut c = Cursor::new(&data);
    let found: Result<Option<Anchor>, DecodeError> = with_jump(&mut c, 0, 100, Standalone);
    assert_eq!(found.unwrap_err(), DecodeError::OutOfBounds);
    let past: Result<Option<Anchor>, DecodeError> = with_jump(&mut c, u64::MAX, 1, Standalone);
    assert_eq!(past.unwrap_err(), DecodeError::OutOfBounds);
}

#[test]
fn with_jump_propagates_failure() {
    let data = bytes_of(&[0, 4, 0, 0]);
    let mut c = Cursor::new(&data);
    let found: Result<Option<Anchor>, DecodeError> = with_jump(&mut c, 0, 2, Standalone);
    assert_eq!(found.unwrap_err(), DecodeError::UnknownFormat(Table::Anchor, 4));
}

#[test]
fn resolve_all_keeps_order() {
    // Anchors at bytes 2, 8 and 14.
    let data = bytes_of(&[0, 1, 1, 1, 1, 2, 2, 1, 3, 3]);
    let mut c = Cursor::new(&data);
    c.seek(20).unwrap();
    let offsets = vec![14, 2, 8];
    let anchors: Vec<Anchor> = resolve_all(&mut c, 0, &offsets, Standalone, Table::RuleSet).unwrap();
    assert_eq!(anchors.len(), 3);
    assert_anchor1(&anchors[0], 3, 3);
    assert_anchor1(&anchors[1], 1, 1);
    assert_anchor1(&anchors[2], 2, 2);
    assert_eq!(c.position(), 20);
    let none: Vec<Anchor> = resolve_all(&mut c, 0, &vec![], Standalone, Table::RuleSet).unwrap();
    assert!(none.is_empty());
}

#[test]
fn resolve_all_rejects_null_offset() {
    let data = bytes_of(&[0, 1, 1, 1]);
    let mut c = Cursor::new(&data);
    let offsets = vec![2, 0];
    let found: Result<Vec<Anchor>, DecodeError> =
        resolve_all(&mut c, 0, &offsets, Standalone, Table::Ligatures);
    assert_eq!(found.unwrap_err(), DecodeError::Malformed(Table::Ligatures, Flaw::NullOffset));
}

#[test]
fn resolve_all_reports_first_failure() {
    // The second offset runs past the end; the third names an unknown format.
    let data = bytes_of(&[0, 1, 1, 1, 9]);
    let mut c = Cursor::new(&data);
    let offsets = vec![2, 40, 8];
    let found: Result<Vec<Anchor>, DecodeError> =
        resolve_all(&mut c, 0, &offsets, Standalone, Table::RuleSet);
    assert_eq!(found.unwrap_err(), DecodeError::OutOfBounds);
}

#[test]
fn resolve_each_leaves_null_slots_empty() {
    let data = bytes_of(&[0, 1, 1, 1, 1, 2, 2]);
    let mut c = Cursor::new(&data);
    let offsets = vec![0, 8, 2];
    let anchors: Vec<Option<Anchor>> = resolve_each(&mut c, 0, &offsets, Standalone).unwrap();
    assert_eq!(anchors.len(), 3);
    assert!(anchors[0].is_none());
    assert_anchor1(anchors[1].as_ref().unwrap(), 2, 2);
    assert_anchor1(anchors[2].as_ref().unwrap(), 1, 1);
}
