use mimc_fast::oracle::{HashOracle, InversePolicy, TableEntry, TableOracle, ThresholdPolicy};
use mimc_fast::scan::{scan, ChunkFootprint, Coords, Task};

fn entry(x: i64, y: i64, key: u32, digest: u128) -> TableEntry {
    TableEntry { x, y, key, digest }
}

fn task(x: i64, y: i64, side: i64, rarity: u32, key: u32) -> Task {
    Task {
        chunk_footprint: ChunkFootprint {
            bottom_left: Coords { x, y },
            side_length: side,
        },
        planet_rarity: rarity,
        planet_hash_key: key,
    }
}

fn stub_oracle() -> TableOracle {
    TableOracle {
        entries: vec![
            entry(0, 0, 7, 5),
            entry(1, 0, 7, 50),
            entry(0, 1, 7, 2),
            entry(1, 1, 7, 99),
        ],
        default_digest: 1000,
    }
}

fn sorted_matches(r: &mimc_fast::scan::Response) -> Vec<(i64, i64, String)> {
    let mut out: Vec<(i64, i64, String)> = r
        .planet_locations
        .iter()
        .map(|p| (p.coords.x, p.coords.y, p.hash.clone()))
        .collect();
    out.sort();
    out
}

#[test]
fn stub_scenario_two_matches() {
    // threshold = 100 / 10 = 10; digests 5 and 2 fall below it
    let t = task(0, 0, 2, 10, 7);
    let r = scan(&t, &stub_oracle(), &InversePolicy { scale: 100 });
    let got = sorted_matches(&r);
    let want = vec![
        (0i64, 0i64, "5".to_string()),
        (0i64, 1i64, "2".to_string()),
    ];
    assert_eq!(got, want);
}

#[test]
fn footprint_echoed_unchanged() {
    let t = task(-3, 9, 4, 1, 2);
    let r = scan(&t, &stub_oracle(), &InversePolicy { scale: 100 });
    assert_eq!(r.chunk_footprint, t.chunk_footprint);
}

#[test]
fn zero_side_yields_empty() {
    let t = task(5, 5, 0, 1, 7);
    let r = scan(&t, &stub_oracle(), &InversePolicy { scale: 100 });
    assert!(r.planet_locations.is_empty());
    assert_eq!(r.chunk_footprint, t.chunk_footprint);
}

#[test]
fn negative_side_yields_empty() {
    let t = task(0, 0, -3, 1, 7);
    let r = scan(&t, &stub_oracle(), &InversePolicy { scale: 100 });
    assert!(r.planet_locations.is_empty());
    assert_eq!(r.chunk_footprint, t.chunk_footprint);
}

#[test]
fn no_matches_is_a_normal_result() {
    // every digest in the region is the default 1000, above the cutoff
    let t = task(100, 100, 3, 10, 7);
    let r = scan(&t, &stub_oracle(), &InversePolicy { scale: 100 });
    assert!(r.planet_locations.is_empty());
}

#[test]
fn identical_inputs_identical_match_sets() {
    let t = task(0, 0, 2, 10, 7);
    let oracle = stub_oracle();
    let policy = InversePolicy { scale: 100 };
    let r1 = scan(&t, &oracle, &policy);
    let r2 = scan(&t, &oracle, &policy);
    assert_eq!(sorted_matches(&r1), sorted_matches(&r2));
}

#[test]
fn lower_threshold_matches_are_a_subset() {
    let oracle = stub_oracle();
    let policy = InversePolicy { scale: 100 };
    // rarity 20 -> cutoff 5; rarity 2 -> cutoff 50
    let t_low = task(0, 0, 2, 20, 7);
    let t_high = task(0, 0, 2, 2, 7);
    let low = sorted_matches(&scan(&t_low, &oracle, &policy));
    let high = sorted_matches(&scan(&t_high, &oracle, &policy));
    assert_eq!(low, vec![(0i64, 1i64, "2".to_string())]);
    for m in &low {
        assert!(high.contains(m));
    }
}

#[test]
fn scale_scan_agrees_with_sequential_reference() {
    // 100 x 100 cells around the origin; a few seeded digests below the
    // cutoff, everything else at the default, above it
    let key = 3u32;
    let seeded = vec![
        entry(-50, -50, key, 0),
        entry(-1, 17, key, 9),
        entry(0, 0, key, 3),
        entry(23, -8, key, 1),
        entry(49, 49, key, 8),
        entry(12, 12, key, 10), // exactly the cutoff: must not match
        entry(60, 60, key, 1),  // outside the footprint: must not match
    ];
    let oracle = TableOracle {
        entries: seeded.clone(),
        default_digest: 777,
    };
    let policy = InversePolicy { scale: 100 };
    let t = task(-50, -50, 100, 10, key);
    let r = scan(&t, &oracle, &policy);

    // sequential reference over the same stub oracle
    let lookup = |x: i64, y: i64| -> u128 {
        for e in &seeded {
            if e.x == x && e.y == y && e.key == key {
                return e.digest;
            }
        }
        777
    };
    let mut want: Vec<(i64, i64, String)> = Vec::new();
    for x in -50i64..50 {
        for y in -50i64..50 {
            let d = lookup(x, y);
            if d < 10 {
                want.push((x, y, d.to_string()));
            }
        }
    }
    want.sort();
    assert_eq!(sorted_matches(&r), want);
    assert_eq!(r.planet_locations.len(), 5);
}

#[test]
fn footprint_at_the_edge_of_the_grid() {
    // the far column and row land exactly on the largest coordinate
    let corner = i64::MAX - 1;
    let oracle = TableOracle {
        entries: vec![entry(i64::MAX, i64::MAX, 1, 4)],
        default_digest: 99,
    };
    let t = task(corner, corner, 2, 10, 1);
    let r = scan(&t, &oracle, &InversePolicy { scale: 100 });
    let got = sorted_matches(&r);
    assert_eq!(got, vec![(i64::MAX, i64::MAX, "4".to_string())]);
}

#[test]
fn table_oracle_first_match_wins() {
    let oracle = TableOracle {
        entries: vec![entry(4, 4, 1, 11), entry(4, 4, 1, 22)],
        default_digest: 0,
    };
    assert_eq!(oracle.digest(4, 4, 1).value, 11);
}

#[test]
fn table_oracle_key_and_default() {
    let oracle = stub_oracle();
    // same cell, other key: falls back to the default digest
    assert_eq!(oracle.digest(0, 0, 8).value, 1000);
    assert_eq!(oracle.digest(3, 3, 7).value, 1000);
    assert_eq!(oracle.digest(0, 1, 7).value, 2);
}

#[test]
fn inverse_policy_cutoffs() {
    let policy = InversePolicy { scale: 100 };
    assert_eq!(policy.threshold(0).value, 100);
    assert_eq!(policy.threshold(1).value, 100);
    assert_eq!(policy.threshold(7).value, 14);
    assert_eq!(policy.threshold(200).value, 0);
}
