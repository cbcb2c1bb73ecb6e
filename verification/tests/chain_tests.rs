use vfio_fam::{build_buffer, walk_cap_chain, Buffer, FamError};

/// Writes one capability record at `offset`: id, version, and the offset of
/// the next record (0 ends the chain).
fn put_cap(buffer: &mut Buffer, offset: usize, id: u16, version: u16, next: u32) {
    buffer.write_u16_le(offset, id);
    buffer.write_u16_le(offset + 2, version);
    buffer.write_u32_le(offset + 4, next);
}

#[test]
fn empty_chain_is_ok() {
    let b = build_buffer(8, 8, 2).unwrap();
    let entries = walk_cap_chain(&b, 0).unwrap();
    assert!(entries.is_empty());
}

#[test]
fn chain_of_two_records_is_collected_in_order() {
    let mut b = build_buffer(8, 8, 4).unwrap();
    assert_eq!(b.len(), 40);
    put_cap(&mut b, 16, 1, 1, 32);
    put_cap(&mut b, 32, 2, 0, 0);
    let entries = walk_cap_chain(&b, 16).unwrap();
    assert_eq!(entries.len(), 2);
    assert_eq!((entries[0].id, entries[0].version, entries[0].offset), (1, 1, 16));
    assert_eq!((entries[1].id, entries[1].version, entries[1].offset), (2, 0, 32));
}

#[test]
fn single_record_chain() {
    let mut b = build_buffer(8, 8, 2).unwrap();
    put_cap(&mut b, 8, 3, 1, 0);
    let entries = walk_cap_chain(&b, 8).unwrap();
    assert_eq!(entries.len(), 1);
    assert_eq!(entries[0].id, 3);
    assert_eq!(entries[0].version, 1);
    assert_eq!(entries[0].offset, 8);
}

#[test]
fn offset_past_the_buffer_is_rejected() {
    let b = build_buffer(8, 4, 4).unwrap();
    assert_eq!(b.len(), 24);
    // One byte past the end: nothing at that offset may be read.
    let len = b.len() as u32;
    assert_eq!(walk_cap_chain(&b, len + 1), Err(FamError::BoundsViolation));
    // The record's eight fixed bytes must fit entirely.
    assert_eq!(walk_cap_chain(&b, len - 4), Err(FamError::BoundsViolation));
    // Exactly at the end is just as much out of bounds.
    assert_eq!(walk_cap_chain(&b, len), Err(FamError::BoundsViolation));
}

#[test]
fn successor_past_the_buffer_is_rejected() {
    let mut b = build_buffer(8, 4, 4).unwrap();
    let len = b.len() as u32;
    put_cap(&mut b, 8, 1, 0, len + 1);
    assert_eq!(walk_cap_chain(&b, 8), Err(FamError::BoundsViolation));
}

#[test]
fn chain_that_loops_is_rejected() {
    let mut b = build_buffer(8, 8, 4).unwrap();
    // A record naming itself as its successor.
    put_cap(&mut b, 16, 1, 0, 16);
    assert_eq!(walk_cap_chain(&b, 16), Err(FamError::BoundsViolation));
    // A record pointing backwards.
    put_cap(&mut b, 16, 1, 0, 32);
    put_cap(&mut b, 32, 2, 0, 16);
    assert_eq!(walk_cap_chain(&b, 32), Err(FamError::BoundsViolation));
}
