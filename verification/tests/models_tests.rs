use proxy_pulse::models::score_distribution;

#[test]
fn score_buckets_labels_and_counts() {
    let b = score_distribution((1, 2, 3, 4, 5, 6));
    let got: Vec<(String, i64)> = b.into_iter().map(|x| (x.range, x.count)).collect();
    assert_eq!(
        got,
        vec![
            ("0-20".to_string(), 1),
            ("20-40".to_string(), 2),
            ("40-60".to_string(), 3),
            ("60-80".to_string(), 4),
            ("80-90".to_string(), 5),
            ("90-100".to_string(), 6),
        ]
    );
}
