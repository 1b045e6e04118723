use dataflow_rs::rollout::{Rollout, RolloutError};

#[test]
fn accepts_is_a_half_open_range() {
    let all = Rollout {
        bucket_start: 0,
        bucket_end: 100,
    };
    assert!(all.accepts(0));
    assert!(all.accepts(99));

    let lower = Rollout {
        bucket_start: 0,
        bucket_end: 50,
    };
    assert!(lower.accepts(0));
    assert!(lower.accepts(49));
    assert!(!lower.accepts(50), "bucket_end is exclusive");
    assert!(!lower.accepts(99));

    // `start` inclusive, `end` exclusive — boundary exactness.
    let upper = Rollout {
        bucket_start: 50,
        bucket_end: 100,
    };
    assert!(upper.accepts(50), "bucket_start is inclusive");
    assert!(upper.accepts(99));
    assert!(!upper.accepts(49));

    // The two halves partition 0..=99 exactly.
    for b in 0u8..=99 {
        assert_ne!(
            lower.accepts(b),
            upper.accepts(b),
            "bucket {b} must be served by exactly one half"
        );
    }
}

#[test]
fn empty_and_inverted_ranges_accept_nothing() {
    let empty = Rollout {
        bucket_start: 50,
        bucket_end: 50,
    };
    let inverted = Rollout {
        bucket_start: 60,
        bucket_end: 20,
    };
    for b in 0u8..=99 {
        assert!(!empty.accepts(b), "empty range accepted {b}");
        assert!(!inverted.accepts(b), "inverted range accepted {b}");
    }
}

#[test]
fn end_of_100_is_representable_without_overflow() {
    // `bucket_end = 100` fits a u8 and `accepts` does no arithmetic on it.
    let r = Rollout {
        bucket_start: 99,
        bucket_end: 100,
    };
    assert!(r.accepts(99));
    assert!(!r.accepts(98));
}

// -----------------------------------------------------------------
// partition
// -----------------------------------------------------------------

fn bounds(rollouts: &[Rollout]) -> Vec<(u8, u8)> {
    rollouts
        .iter()
        .map(|r| (r.bucket_start, r.bucket_end))
        .collect()
}

#[test]
fn partition_splits_the_bucket_space_contiguously() {
    assert_eq!(bounds(&Rollout::partition(&[100]).unwrap()), [(0, 100)]);
    assert_eq!(
        bounds(&Rollout::partition(&[90, 10]).unwrap()),
        [(0, 90), (90, 100)]
    );
    assert_eq!(
        bounds(&Rollout::partition(&[34, 33, 33]).unwrap()),
        [(0, 34), (34, 67), (67, 100)],
        "input order is traffic order"
    );
}

#[test]
fn partition_rejects_a_shortfall_naming_the_direction() {
    let err = Rollout::partition(&[90, 9]).unwrap_err();
    assert_eq!(err, RolloutError::Under { total: 99 });
    let msg = err.to_string();
    assert!(msg.contains("match nothing"), "got: {msg}");
}

#[test]
fn partition_rejects_an_excess_naming_the_direction() {
    let err = Rollout::partition(&[90, 11]).unwrap_err();
    assert_eq!(err, RolloutError::Over { total: 101 });
    let msg = err.to_string();
    assert!(msg.contains("never match"), "got: {msg}");
}

#[test]
fn partition_does_not_wrap_on_a_large_sum() {
    // Both of these wrap a u8 accumulator to exactly 0, and a naive
    // `sum == 100` check would reject them for the wrong reason — or a
    // `sum as u8 == 100` check would accept [128, 228].
    for input in [vec![128u8, 128], vec![200, 56], vec![255, 255, 255]] {
        let total: u32 = input.iter().map(|p| u32::from(*p)).sum();
        assert_eq!(
            Rollout::partition(&input),
            Err(RolloutError::Over { total }),
            "{input:?} sums to {total} and must be rejected as an excess"
        );
    }
}

#[test]
fn an_empty_input_is_a_shortfall_not_an_empty_partition() {
    assert_eq!(
        Rollout::partition(&[]),
        Err(RolloutError::Under { total: 0 })
    );
}

#[test]
fn a_zero_percent_entry_is_an_empty_range_that_accepts_nothing() {
    let split = Rollout::partition(&[100, 0]).unwrap();
    assert_eq!(bounds(&split), [(0, 100), (100, 100)]);
    for b in 0u8..=99 {
        assert!(!split[1].accepts(b), "a 0% entry serves no traffic");
    }
    // The two functions agree: a 0% entry is neither gap nor overlap.
    assert!(Rollout::validate_set(&split).is_ok());
}

#[test]
fn partition_output_always_validates() {
    let splits: &[&[u8]] = &[
        &[100],
        &[50, 50],
        &[90, 10],
        &[34, 33, 33],
        &[1, 99],
        &[100, 0],
        &[0, 100],
        &[25, 25, 25, 25],
        &[1, 1, 98],
    ];
    for pcts in splits {
        let split = Rollout::partition(pcts).expect("sums to 100");
        assert!(
            Rollout::validate_set(&split).is_ok(),
            "partition({pcts:?}) produced a set that does not validate"
        );
    }
}

// -----------------------------------------------------------------
// validate_set
// -----------------------------------------------------------------

#[test]
fn validate_set_accepts_an_exact_partition_in_any_order() {
    let split = Rollout::partition(&[20, 30, 50]).unwrap();
    assert!(Rollout::validate_set(&split).is_ok());

    let reversed: Vec<Rollout> = split.iter().rev().copied().collect();
    assert!(
        Rollout::validate_set(&reversed).is_ok(),
        "partitioning is a property of the set, not of its order"
    );
}

#[test]
fn validate_set_reports_the_first_gap() {
    let gapped = [
        Rollout {
            bucket_start: 0,
            bucket_end: 40,
        },
        Rollout {
            bucket_start: 41,
            bucket_end: 100,
        },
    ];
    assert_eq!(
        Rollout::validate_set(&gapped),
        Err(RolloutError::Gap { bucket: 40 })
    );
}

#[test]
fn validate_set_reports_the_first_overlap() {
    let overlapping = [
        Rollout {
            bucket_start: 0,
            bucket_end: 60,
        },
        Rollout {
            bucket_start: 40,
            bucket_end: 100,
        },
    ];
    assert_eq!(
        Rollout::validate_set(&overlapping),
        Err(RolloutError::Overlap { bucket: 40 }),
        "the lowest affected bucket, so the diagnosis is deterministic"
    );
}

#[test]
fn validate_set_rejects_an_inverted_range_by_its_cause() {
    // Without the per-range check this surfaces as a gap somewhere else,
    // pointing at the wrong thing.
    let inverted = Rollout {
        bucket_start: 60,
        bucket_end: 20,
    };
    let set = [
        Rollout {
            bucket_start: 0,
            bucket_end: 60,
        },
        inverted,
    ];
    assert_eq!(
        Rollout::validate_set(&set),
        Err(RolloutError::InvalidRange { rollout: inverted })
    );
    assert!(
        Rollout::validate_set(&set)
            .unwrap_err()
            .to_string()
            .contains("inverted")
    );
}

#[test]
fn validate_set_rejects_a_range_past_the_bucket_space() {
    // Covers 0..=99 exactly once, so it produces neither gap nor overlap —
    // it would pass a coverage-only check while being nonsense.
    let over = Rollout {
        bucket_start: 0,
        bucket_end: 200,
    };
    assert_eq!(
        Rollout::validate_set(&[over]),
        Err(RolloutError::InvalidRange { rollout: over })
    );
    assert!(
        Rollout::validate_set(&[over])
            .unwrap_err()
            .to_string()
            .contains("past 100")
    );
}

#[test]
fn validate_set_rejects_an_empty_set() {
    let none: [Rollout; 0] = [];
    assert_eq!(
        Rollout::validate_set(&none),
        Err(RolloutError::Gap { bucket: 0 }),
        "no ranges means every bucket is unserved"
    );
}

#[test]
fn a_zero_percent_range_does_not_count_as_covering_its_bucket() {
    // [40,40) is legal but serves nothing, so it cannot fill a gap.
    let set = [
        Rollout {
            bucket_start: 0,
            bucket_end: 40,
        },
        Rollout {
            bucket_start: 40,
            bucket_end: 40,
        },
        Rollout {
            bucket_start: 41,
            bucket_end: 100,
        },
    ];
    assert_eq!(
        Rollout::validate_set(&set),
        Err(RolloutError::Gap { bucket: 40 })
    );
}

#[test]
fn the_gap_and_overlap_messages_name_the_bucket() {
    let gap = RolloutError::Gap { bucket: 40 }.to_string();
    assert!(gap.contains("40"), "got: {gap}");
    let overlap = RolloutError::Overlap { bucket: 7 }.to_string();
    assert!(overlap.contains('7'), "got: {overlap}");
}

#[test]
fn a_single_full_range_validates() {
    assert_eq!(
        Rollout::validate_set(&[Rollout { bucket_start: 0, bucket_end: 100 }]),
        Ok(())
    );
}
