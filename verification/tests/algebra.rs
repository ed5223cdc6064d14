use tally::max::{combine, Max, RunningMax, WeightedFact};

#[test]
fn combine_is_commutative() {
    assert_eq!(combine(3, 8), combine(8, 3));
    assert_eq!(combine(0, 0), combine(0, 0));
    assert_eq!(combine(u64::MAX, 1), combine(1, u64::MAX));
}

#[test]
fn combine_is_associative() {
    assert_eq!(combine(combine(2, 9), 5), combine(2, combine(9, 5)));
    assert_eq!(combine(combine(7, 7), 1), combine(7, combine(7, 1)));
    assert_eq!(
        combine(combine(u64::MAX, 0), 42),
        combine(u64::MAX, combine(0, 42))
    );
}

#[test]
fn combine_is_idempotent() {
    assert_eq!(combine(5, 5), 5);
    assert_eq!(combine(0, 0), 0);
    assert_eq!(combine(u64::MAX, u64::MAX), u64::MAX);
}

#[test]
fn combine_picks_the_larger() {
    assert_eq!(combine(3, 8), 8);
    assert_eq!(combine(8, 3), 8);
    assert_eq!(combine(4, 4), 4);
}

#[test]
fn max_merge_absorbs_larger() {
    let mut m = Max { value: 10 };
    m.merge(&Max { value: 25 });
    assert_eq!(m.value, 25);
    m.merge(&Max { value: 7 });
    assert_eq!(m.value, 25);
}

#[test]
fn insert_only_query_is_max() {
    let mut agg = RunningMax::new();
    for value in [4u64, 19, 11, 19, 2] {
        agg.ingest(WeightedFact {
            key: 7,
            value,
            weight: 1,
        });
    }
    assert_eq!(agg.query(7), Some(19));
}

#[test]
fn query_unseen_key_is_none() {
    let agg = RunningMax::new();
    assert_eq!(agg.query(1), None);
}

#[test]
fn retraction_never_lowers_the_maximum() {
    let mut agg = RunningMax::new();
    let mut observed = Vec::new();
    let facts = [
        (5u64, 1i64),
        (12, 1),
        (12, -1),
        (3, 1),
        (20, 1),
        (20, -1),
        (1, -1),
    ];
    for (value, weight) in facts {
        agg.ingest(WeightedFact {
            key: 9,
            value,
            weight,
        });
        observed.push(agg.query(9).unwrap());
    }
    for pair in observed.windows(2) {
        assert!(pair[0] <= pair[1]);
    }
    assert_eq!(agg.query(9), Some(20));
}

#[test]
fn zero_weight_is_inert() {
    let mut agg = RunningMax::new();
    agg.ingest(WeightedFact {
        key: 2,
        value: 50,
        weight: 0,
    });
    assert_eq!(agg.query(2), None);
    agg.ingest(WeightedFact {
        key: 2,
        value: 5,
        weight: 1,
    });
    agg.ingest(WeightedFact {
        key: 2,
        value: 99,
        weight: 0,
    });
    assert_eq!(agg.query(2), Some(5));
}

#[test]
fn keys_do_not_interact() {
    let mut agg = RunningMax::new();
    agg.ingest(WeightedFact {
        key: 1,
        value: 10,
        weight: 1,
    });
    agg.ingest(WeightedFact {
        key: 2,
        value: 99,
        weight: 1,
    });
    assert_eq!(agg.query(1), Some(10));
    assert_eq!(agg.query(2), Some(99));
    assert_eq!(agg.query(3), None);
}

#[test]
fn sharded_merge_agrees_with_sequential() {
    // Partial maxima computed over disjoint shards, merged in any order,
    // agree with one sequential pass.
    let shard_a = [3u64, 17, 5];
    let shard_b = [11u64, 2];
    let mut partial_a = Max { value: shard_a[0] };
    for v in &shard_a[1..] {
        partial_a.merge(&Max { value: *v });
    }
    let mut partial_b = Max { value: shard_b[0] };
    for v in &shard_b[1..] {
        partial_b.merge(&Max { value: *v });
    }
    let mut merged_ab = partial_a;
    merged_ab.merge(&partial_b);
    let mut merged_ba = partial_b;
    merged_ba.merge(&partial_a);

    let mut agg = RunningMax::new();
    for v in shard_a.iter().chain(shard_b.iter()) {
        agg.ingest(WeightedFact {
            key: 0,
            value: *v,
            weight: 1,
        });
    }
    assert_eq!(merged_ab.value, 17);
    assert_eq!(merged_ba.value, 17);
    assert_eq!(agg.query(0), Some(17));
}
