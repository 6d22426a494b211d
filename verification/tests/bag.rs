use blocktxt::game::bag::Bag;
use blocktxt::game::piece::PieceKind;
use rand::SeedableRng;
use rand::rngs::StdRng;

const ALL_KINDS: [PieceKind; 7] = [
    PieceKind::I,
    PieceKind::O,
    PieceKind::T,
    PieceKind::S,
    PieceKind::Z,
    PieceKind::J,
    PieceKind::L,
];

fn draw_n(bag: &mut Bag<StdRng>, n: usize) -> Vec<PieceKind> {
    (0..n).map(|_| bag.next().unwrap()).collect()
}

fn kind_index(kind: PieceKind) -> usize {
    match kind {
        PieceKind::I => 0,
        PieceKind::O => 1,
        PieceKind::T => 2,
        PieceKind::S => 3,
        PieceKind::Z => 4,
        PieceKind::J => 5,
        PieceKind::L => 6,
    }
}

#[test]
fn aligned_bags_are_permutations_for_several_seeds() {
    for seed in [0u64, 1, 7, 42, 1234, u64::MAX - 1] {
        let mut bag = Bag::new(StdRng::seed_from_u64(seed));
        let pieces = draw_n(&mut bag, 1000);
        for chunk in pieces.chunks_exact(7) {
            let mut counts = [0u8; 7];
            for &p in chunk {
                counts[kind_index(p)] += 1;
            }
            assert_eq!(counts, [1u8; 7], "chunk {chunk:?} is not a permutation of all 7 kinds");
        }
    }
}

#[test]
fn max_gap_between_same_piece_is_at_most_12_for_several_seeds() {
    for seed in [3u64, 99, 2024] {
        let mut bag = Bag::new(StdRng::seed_from_u64(seed));
        let pieces = draw_n(&mut bag, 10_000);
        for &kind in &ALL_KINDS {
            let mut last_seen: Option<usize> = None;
            for (i, &p) in pieces.iter().enumerate() {
                if p == kind {
                    if let Some(prev) = last_seen {
                        let gap = i - prev - 1;
                        assert!(gap <= 12, "kind {kind:?}: gap {gap} > 12 between {prev} and {i}");
                    }
                    last_seen = Some(i);
                }
            }
        }
    }
}

#[test]
fn sliding_window_uniqueness_is_not_a_property() {
    let mut found_duplicate_in_sliding_window = false;

    'outer: for seed in 0u64..10_000 {
        let rng = StdRng::seed_from_u64(seed);
        let mut bag = Bag::new(rng);
        let pieces = draw_n(&mut bag, 14);

        for start in 1..8usize {
            let window = &pieces[start..start + 7];
            let mut counts = [0u8; 7];
            for &p in window {
                counts[kind_index(p)] += 1;
            }
            if counts.iter().any(|&c| c > 1) {
                found_duplicate_in_sliding_window = true;
                break 'outer;
            }
        }
    }

    assert!(
        found_duplicate_in_sliding_window,
        "expected to find at least one seed where a non-aligned \
         sliding window contains a repeated piece kind"
    );
}

#[test]
fn seeded_bag_is_deterministic() {
    let mut bag1 = Bag::new(StdRng::seed_from_u64(42));
    let mut bag2 = Bag::new(StdRng::seed_from_u64(42));

    let seq1 = draw_n(&mut bag1, 100);
    let seq2 = draw_n(&mut bag2, 100);

    assert_eq!(seq1, seq2, "same seed must yield identical sequences");
}

#[test]
fn different_seeds_produce_different_sequences() {
    let mut bag1 = Bag::new(StdRng::seed_from_u64(1));
    let mut bag2 = Bag::new(StdRng::seed_from_u64(2));

    let seq1 = draw_n(&mut bag1, 100);
    let seq2 = draw_n(&mut bag2, 100);

    assert_ne!(seq1, seq2, "different seeds should (with high probability) differ");
}

#[test]
fn bag_never_runs_out() {
    let mut bag = Bag::new(StdRng::seed_from_u64(5));
    for _ in 0..50 {
        assert!(bag.next().is_some());
    }
}

/// Between two pieces of one kind at most 12 others are drawn.
#[test]
fn gap_between_same_kind_never_exceeds_12() {
    for seed in 0u64..50 {
        let mut bag = Bag::new(StdRng::seed_from_u64(seed));
        let drawn = draw_n(&mut bag, 700);
        let mut last: [Option<usize>; 7] = [None; 7];
        for (i, k) in drawn.iter().enumerate() {
            let idx = kind_index(*k);
            if let Some(prev) = last[idx] {
                assert!(i - prev - 1 <= 12, "seed {seed}: gap {} at {i}", i - prev - 1);
            }
            last[idx] = Some(i);
        }
    }
}
