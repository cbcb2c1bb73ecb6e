use vfio_fam::{
    after_grow, after_probe, build_buffer, start_query, trailing_count, validate_bounds, FamError,
    QueryDecision,
};

#[test]
fn trailing_count_ignores_remainder_bytes() {
    assert_eq!(trailing_count(8, 4, 24), 4);
    assert_eq!(trailing_count(8, 4, 26), 4);
    assert_eq!(trailing_count(8, 4, 8), 0);
    assert_eq!(trailing_count(8, 4, 7), 0);
    assert_eq!(trailing_count(8, 4, 11), 0);
    assert_eq!(trailing_count(8, 4, 12), 1);
}

#[test]
fn validate_bounds_accepts_iff_declared_size_fits() {
    let b = build_buffer(8, 4, 4).unwrap();
    assert_eq!(b.len(), 24);
    assert_eq!(validate_bounds(&b, 0), Ok(()));
    assert_eq!(validate_bounds(&b, 8), Ok(()));
    assert_eq!(validate_bounds(&b, 24), Ok(()));
    assert_eq!(validate_bounds(&b, 25), Err(FamError::BoundsViolation));
    assert_eq!(
        validate_bounds(&b, usize::MAX),
        Err(FamError::BoundsViolation)
    );
}

#[test]
fn start_query_declares_the_buffer_length() {
    let b = start_query(8, 4, 0).unwrap();
    assert_eq!(b.len(), 8);
    assert_eq!(b.read_u32_le(0), 8);

    let b = start_query(8, 4, 1).unwrap();
    assert_eq!(b.len(), 16);
    assert_eq!(b.read_u32_le(0), 16);
    for i in 4..b.len() {
        assert_eq!(b.byte_at(i), 0);
    }
}

#[test]
fn probe_that_fits_completes_without_reissue() {
    let mut b = start_query(8, 4, 1).unwrap();
    assert_eq!(b.len(), 16);
    // The kernel reports that only 12 of the 16 bytes are meaningful.
    b.write_u32_le(0, 12);
    match after_probe(8, 4, 0, b) {
        QueryDecision::Complete {
            buffer,
            actual_count,
        } => {
            assert_eq!(actual_count, 1);
            assert_eq!(buffer.len(), 16);
        }
        _ => panic!("expected the query to complete on the first call"),
    }
}

#[test]
fn probe_transport_failure_is_terminal() {
    let b = start_query(8, 4, 0).unwrap();
    match after_probe(8, 4, -22, b) {
        QueryDecision::Fail { error } => assert_eq!(error, FamError::TransportFailure(-22)),
        _ => panic!("expected a transport failure"),
    }
}

#[test]
fn grow_then_confirm_yields_final_count() {
    // Probe with a header-only buffer of 8 bytes.
    let mut b = start_query(8, 4, 0).unwrap();
    assert_eq!(b.len(), 8);
    assert_eq!(b.read_u32_le(0), 8);
    // The kernel reports the structure really needs 24 bytes.
    b.write_u32_le(0, 24);
    let (mut grown, first_reported) = match after_probe(8, 4, 0, b) {
        QueryDecision::Reissue {
            buffer,
            first_reported,
        } => (buffer, first_reported),
        _ => panic!("expected a grow step"),
    };
    assert_eq!(first_reported, 24);
    assert_eq!(grown.len(), 24);
    assert_eq!(grown.read_u32_le(0), 24);
    // The second call confirms the fit by reporting 24 again.
    grown.write_u32_le(0, 24);
    match after_grow(8, 4, first_reported, 0, grown) {
        QueryDecision::Complete {
            buffer,
            actual_count,
        } => {
            assert_eq!(actual_count, 4);
            assert_eq!(buffer.len(), 24);
        }
        _ => panic!("expected the grown buffer to complete the query"),
    }
}

#[test]
fn growing_twice_is_inconsistent_not_retried() {
    let mut b = start_query(8, 4, 0).unwrap();
    b.write_u32_le(0, 24);
    let (mut grown, first_reported) = match after_probe(8, 4, 0, b) {
        QueryDecision::Reissue {
            buffer,
            first_reported,
        } => (buffer, first_reported),
        _ => panic!("expected a grow step"),
    };
    // The second call claims the structure grew again to 40 bytes.
    grown.write_u32_le(0, 40);
    match after_grow(8, 4, first_reported, 0, grown) {
        QueryDecision::Fail { error } => assert_eq!(error, FamError::SizeInconsistent),
        QueryDecision::Reissue { .. } => panic!("a third call must never be issued"),
        QueryDecision::Complete { .. } => panic!("an unconfirmed size must not be trusted"),
    }
}

#[test]
fn shrinking_between_calls_is_inconsistent() {
    let mut b = build_buffer(8, 4, 4).unwrap();
    b.write_u32_le(0, 20);
    // The first call reported 24; a second report of 20 shrank.
    match after_grow(8, 4, 24, 0, b) {
        QueryDecision::Fail { error } => assert_eq!(error, FamError::SizeInconsistent),
        _ => panic!("expected the shrunken size to be rejected"),
    }
}

#[test]
fn grow_transport_failure_is_terminal() {
    let mut b = build_buffer(8, 4, 4).unwrap();
    b.write_u32_le(0, 24);
    match after_grow(8, 4, 24, -5, b) {
        QueryDecision::Fail { error } => assert_eq!(error, FamError::TransportFailure(-5)),
        _ => panic!("expected a transport failure"),
    }
}

#[test]
fn grow_buffer_carries_header_fields_forward() {
    let mut b = start_query(16, 4, 0).unwrap();
    assert_eq!(b.len(), 16);
    // The kernel fills header fields past the declared size and asks for 32 bytes.
    b.write_u32_le(4, 0x0000_ABCD);
    b.write_u32_le(8, 7);
    b.write_u32_le(0, 32);
    match after_probe(16, 4, 0, b) {
        QueryDecision::Reissue {
            buffer,
            first_reported,
        } => {
            assert_eq!(first_reported, 32);
            assert_eq!(buffer.len(), 32);
            assert_eq!(buffer.read_u32_le(0), 32);
            assert_eq!(buffer.read_u32_le(4), 0x0000_ABCD);
            assert_eq!(buffer.read_u32_le(8), 7);
            assert_eq!(buffer.read_u32_le(12), 0);
            for i in 16..buffer.len() {
                assert_eq!(buffer.byte_at(i), 0);
            }
        }
        _ => panic!("expected a grow step"),
    }
}
