use zou::bench::{rank_mirrors, rank_order, score_probes, LEN_BENCH_CHUNK, PING_TIMES};

#[test]
fn score_is_the_mean_of_the_probes() {
    assert_eq!(score_probes(&vec![10, 20, 30, 20, 20]), 20);
    assert_eq!(score_probes(&vec![1, 1, 1, 1, 1]), 1);
    assert_eq!(score_probes(&vec![1, 2, 2, 2, 2]), 1);
}

#[test]
fn one_failed_probe_scores_unreachable() {
    assert_eq!(score_probes(&vec![1, 1, 0, 1, 1]), 0);
    assert_eq!(score_probes(&vec![0, 0, 0, 0, 0]), 0);
}

#[test]
fn probe_constants() {
    assert_eq!(PING_TIMES, 5);
    assert_eq!(LEN_BENCH_CHUNK, 64);
}

#[test]
fn rank_order_sorts_and_drops_unreachable() {
    // candidate 1 is unreachable; 0 and 3 tie at 20 and keep their order
    let order = rank_order(&vec![20, 0, 10, 20]);
    assert_eq!(order, vec![2, 0, 3]);
}

#[test]
fn rank_order_empty() {
    assert_eq!(rank_order(&vec![]), Vec::<usize>::new());
    assert_eq!(rank_order(&vec![0, 0]), Vec::<usize>::new());
}

#[test]
fn rank_mirrors_fastest_first() {
    let scored = vec![
        ("http://a.example".to_string(), 300),
        ("http://b.example".to_string(), 100),
        ("http://c.example".to_string(), 0),
        ("http://d.example".to_string(), 100),
    ];
    let ranked = rank_mirrors(&scored);
    assert_eq!(
        ranked,
        vec![
            "http://b.example".to_string(),
            "http://d.example".to_string(),
            "http://a.example".to_string(),
        ]
    );
}

#[test]
fn fast_probes_cannot_save_a_mirror_with_one_failure() {
    // four best-in-class probes and a single failure: unreachable, never ranked
    let samples = vec![1, 1, 1, 1, 0];
    let score = score_probes(&samples);
    assert_eq!(score, 0);
    let ranked = rank_mirrors(&vec![
        ("http://flaky.example".to_string(), score),
        ("http://slow.example".to_string(), 90_000),
    ]);
    assert_eq!(ranked, vec!["http://slow.example".to_string()]);
}
