use betfair_data::price_size::{
    ImmutablePriceSizeBackLadder, ImmutablePriceSizeLayLadder, MIN_VEC_CAP, PriceSize,
    PriceSizeBackLadder, PriceSizeLayLadder,
};

/// A level of a ladder, the price and size given as decimals, held in whole
/// hundredths.
fn lvl(price: f64, size: f64) -> PriceSize {
    PriceSize::new((price * 100.0).round() as u64, (size * 100.0).round() as u64)
}

/// The batches of updates in a text of JSON arrays of `[price, size]`.
fn updates(raw: &str) -> std::vec::IntoIter<Vec<PriceSize>> {
    let mut out = Vec::new();
    for batch in serde_json::Deserializer::from_str(raw).into_iter::<Vec<(f64, f64)>>() {
        let batch = batch.expect("failed to deserialize");
        out.push(batch.into_iter().map(|(p, s)| lvl(p, s)).collect::<Vec<_>>());
    }
    out.into_iter()
}

#[test]
fn price_size_test_back_ladder_deserialize() {
        let raw = r#"
            [[5, 5],[3.0, 5],[2, 5],[6, 5],[4, 5]]
            [[1.5, 4],[3.5, 4],[2.5, 4.0],[1.25, 4],[7, 4]]
            [[7, 0],[1.5, 0.0],[5, 0],[1.25, 0]]
            [[2, 1],[2.5, 0],[3, 1],[3.5, 0],[4, 1],[5.0,1.0]]
            [[2, 0],[3, 0],[4.0, 0],[5, 0],[6.0, 0]]
            [[1.6, 1],[1.1, 6],[1.4, 3],[1.3, 4],[1.5, 2],[1.2, 5]]
            [[2.2, 2],[1.9, 2],[1.7, 2],[2.1, 2],[1.8, 2],[2.0, 2]]
            [[3.0, 3],[2.3, 3],[2.9, 3],[2.4, 3],[2.8, 3],[2.5, 3],[2.7, 3],[2.6, 3],[3.1, 3]]
        "#;
        let mut batches = updates(raw);

        let mut ps: Vec<PriceSize> = Vec::new();

        PriceSizeBackLadder(batches.next().expect("failed to deserialize").as_slice()).deserialize(&mut ps);
        assert_eq!(ps.capacity(), MIN_VEC_CAP);
        assert_eq!(
            ps,
            vec![
                lvl(2.0, 5.0),
                lvl(3.0, 5.0),
                lvl(4.0, 5.0),
                lvl(5.0, 5.0),
                lvl(6.0, 5.0),
            ]
        );

        PriceSizeBackLadder(batches.next().expect("failed to deserialize").as_slice()).deserialize(&mut ps);
        assert_eq!(
            ps,
            vec![
                lvl(1.25, 4.0),
                lvl(1.5, 4.0),
                lvl(2.0, 5.0),
                lvl(2.5, 4.0),
                lvl(3.0, 5.0),
                lvl(3.5, 4.0),
                lvl(4.0, 5.0),
                lvl(5.0, 5.0),
                lvl(6.0, 5.0),
                lvl(7.0, 4.0),
            ]
        );

        PriceSizeBackLadder(batches.next().expect("failed to deserialize").as_slice()).deserialize(&mut ps);
        assert_eq!(
            ps,
            vec![
                lvl(2.0, 5.0),
                lvl(2.5, 4.0),
                lvl(3.0, 5.0),
                lvl(3.5, 4.0),
                lvl(4.0, 5.0),
                lvl(6.0, 5.0),
            ]
        );

        PriceSizeBackLadder(batches.next().expect("failed to deserialize").as_slice()).deserialize(&mut ps);
        assert_eq!(
            ps,
            vec![
                lvl(2.0, 1.0),
                lvl(3.0, 1.0),
                lvl(4.0, 1.0),
                lvl(5.0, 1.0),
                lvl(6.0, 5.0),
            ]
        );

        PriceSizeBackLadder(batches.next().expect("failed to deserialize").as_slice()).deserialize(&mut ps);
        assert!(ps.is_empty());

        PriceSizeBackLadder(batches.next().expect("failed to deserialize").as_slice()).deserialize(&mut ps);
        assert_eq!(
            ps,
            vec![
                lvl(1.1, 6.0),
                lvl(1.2, 5.0),
                lvl(1.3, 4.0),
                lvl(1.4, 3.0),
                lvl(1.5, 2.0),
                lvl(1.6, 1.0),
            ]
        );

        PriceSizeBackLadder(batches.next().expect("failed to deserialize").as_slice()).deserialize(&mut ps);
        assert!(ps.capacity() == MIN_VEC_CAP);
        assert_eq!(
            ps,
            vec![
                lvl(1.1, 6.0),
                lvl(1.2, 5.0),
                lvl(1.3, 4.0),
                lvl(1.4, 3.0),
                lvl(1.5, 2.0),
                lvl(1.6, 1.0),
                lvl(1.7, 2.0),
                lvl(1.8, 2.0),
                lvl(1.9, 2.0),
                lvl(2.0, 2.0),
                lvl(2.1, 2.0),
                lvl(2.2, 2.0),
            ]
        );

        PriceSizeBackLadder(batches.next().expect("failed to deserialize").as_slice()).deserialize(&mut ps);
        assert!(ps.capacity() > MIN_VEC_CAP);
        assert_eq!(
            ps,
            vec![
                lvl(1.1, 6.0),
                lvl(1.2, 5.0),
                lvl(1.3, 4.0),
                lvl(1.4, 3.0),
                lvl(1.5, 2.0),
                lvl(1.6, 1.0),
                lvl(1.7, 2.0),
                lvl(1.8, 2.0),
                lvl(1.9, 2.0),
                lvl(2.0, 2.0),
                lvl(2.1, 2.0),
                lvl(2.2, 2.0),
                lvl(2.3, 3.0),
                lvl(2.4, 3.0),
                lvl(2.5, 3.0),
                lvl(2.6, 3.0),
                lvl(2.7, 3.0),
                lvl(2.8, 3.0),
                lvl(2.9, 3.0),
                lvl(3.0, 3.0),
                lvl(3.1, 3.0),
            ]
        );
    }

#[test]
fn price_size_test_lay_ladder_deserialize() {
        let raw = r#"
            [[5, 5],[3.0, 5],[2, 5],[6, 5],[4, 5]]
            [[1.5, 4],[3.5, 4],[2.5, 4.0],[1.25, 4],[7, 4]]
            [[7, 0],[1.5, 0.0],[5, 0],[1.25, 0]]
            [[2, 1],[2.5, 0],[3, 1],[3.5, 0],[4, 1],[5.0,1.0]]
            [[2, 0],[3, 0],[4.0, 0],[5, 0],[6.0, 0]]
            [[1.6, 1],[1.1, 6],[1.4, 3],[1.3, 4],[1.5, 2],[1.2, 5]]
            [[2.2, 2],[1.9, 2],[1.7, 2],[2.1, 2],[1.8, 2],[2.0, 2]]
            [[3.0, 3],[2.3, 3],[2.9, 3],[2.4, 3],[2.8, 3],[2.5, 3],[2.7, 3],[2.6, 3],[3.1, 3]]
        "#;
        let mut batches = updates(raw);

        let mut ps: Vec<PriceSize> = Vec::new();

        PriceSizeLayLadder(batches.next().expect("failed to deserialize").as_slice()).deserialize(&mut ps);
        assert_eq!(ps.capacity(), MIN_VEC_CAP);
        assert_eq!(
            ps,
            vec![
                lvl(6.0, 5.0),
                lvl(5.0, 5.0),
                lvl(4.0, 5.0),
                lvl(3.0, 5.0),
                lvl(2.0, 5.0),
            ]
        );

        PriceSizeLayLadder(batches.next().expect("failed to deserialize").as_slice()).deserialize(&mut ps);
        assert_eq!(
            ps,
            vec![
                lvl(7.0, 4.0),
                lvl(6.0, 5.0),
                lvl(5.0, 5.0),
                lvl(4.0, 5.0),
                lvl(3.5, 4.0),
                lvl(3.0, 5.0),
                lvl(2.5, 4.0),
                lvl(2.0, 5.0),
                lvl(1.5, 4.0),
                lvl(1.25, 4.0),
            ]
        );

        PriceSizeLayLadder(batches.next().expect("failed to deserialize").as_slice()).deserialize(&mut ps);
        assert_eq!(
            ps,
            vec![
                lvl(6.0, 5.0),
                lvl(4.0, 5.0),
                lvl(3.5, 4.0),
                lvl(3.0, 5.0),
                lvl(2.5, 4.0),
                lvl(2.0, 5.0),
            ]
        );

        PriceSizeLayLadder(batches.next().expect("failed to deserialize").as_slice()).deserialize(&mut ps);
        assert_eq!(
            ps,
            vec![
                lvl(6.0, 5.0),
                lvl(5.0, 1.0),
                lvl(4.0, 1.0),
                lvl(3.0, 1.0),
                lvl(2.0, 1.0),
            ]
        );

        PriceSizeLayLadder(batches.next().expect("failed to deserialize").as_slice()).deserialize(&mut ps);
        assert!(ps.is_empty());

        PriceSizeLayLadder(batches.next().expect("failed to deserialize").as_slice()).deserialize(&mut ps);
        assert_eq!(
            ps,
            vec![
                lvl(1.6, 1.0),
                lvl(1.5, 2.0),
                lvl(1.4, 3.0),
                lvl(1.3, 4.0),
                lvl(1.2, 5.0),
                lvl(1.1, 6.0),
            ]
        );

        PriceSizeLayLadder(batches.next().expect("failed to deserialize").as_slice()).deserialize(&mut ps);
        assert!(ps.capacity() == MIN_VEC_CAP);
        assert_eq!(
            ps,
            vec![
                lvl(2.2, 2.0),
                lvl(2.1, 2.0),
                lvl(2.0, 2.0),
                lvl(1.9, 2.0),
                lvl(1.8, 2.0),
                lvl(1.7, 2.0),
                lvl(1.6, 1.0),
                lvl(1.5, 2.0),
                lvl(1.4, 3.0),
                lvl(1.3, 4.0),
                lvl(1.2, 5.0),
                lvl(1.1, 6.0),
            ]
        );

        PriceSizeLayLadder(batches.next().expect("failed to deserialize").as_slice()).deserialize(&mut ps);
        assert!(ps.capacity() > MIN_VEC_CAP);
        assert_eq!(
            ps,
            vec![
                lvl(3.1, 3.0),
                lvl(3.0, 3.0),
                lvl(2.9, 3.0),
                lvl(2.8, 3.0),
                lvl(2.7, 3.0),
                lvl(2.6, 3.0),
                lvl(2.5, 3.0),
                lvl(2.4, 3.0),
                lvl(2.3, 3.0),
                lvl(2.2, 2.0),
                lvl(2.1, 2.0),
                lvl(2.0, 2.0),
                lvl(1.9, 2.0),
                lvl(1.8, 2.0),
                lvl(1.7, 2.0),
                lvl(1.6, 1.0),
                lvl(1.5, 2.0),
                lvl(1.4, 3.0),
                lvl(1.3, 4.0),
                lvl(1.2, 5.0),
                lvl(1.1, 6.0),
            ]
        );
    }

#[test]
fn immutable_price_size_test_back_ladder_deserialize() {
        let raw = r#"
            [[5, 5],[3.0, 5],[2, 5],[6, 5],[4, 5]]
            [[1.5, 4],[3.5, 4],[2.5, 4.0],[1.25, 4],[7, 4]]
            [[7, 0],[1.5, 0.0],[5, 0],[1.25, 0]]
            [[2, 1],[2.5, 0],[3, 1],[3.5, 0],[4, 1],[5.0,1.0]]
            [[2, 0],[3, 0],[4.0, 0],[5, 0],[6.0, 0]]
            [[1.6, 1],[1.1, 6],[1.4, 3],[1.3, 4],[1.5, 2],[1.2, 5]]
            [[2.2, 2],[1.9, 2],[1.7, 2],[2.1, 2],[1.8, 2],[2.0, 2]]
            [[3.0, 3],[2.3, 3],[2.9, 3],[2.4, 3],[2.8, 3],[2.5, 3],[2.7, 3],[2.6, 3],[3.1, 3]]
        "#;
        let mut batches = updates(raw);

        let ps1: Vec<PriceSize> = Vec::new();
        let ans1: Vec<PriceSize> = Vec::new();

        let ps2 = ImmutablePriceSizeBackLadder(Some(ps1.as_slice())).deserialize(batches.next().expect("failed to deserialize").as_slice());
        let ans2 = vec![
            lvl(2.0, 5.0),
            lvl(3.0, 5.0),
            lvl(4.0, 5.0),
            lvl(5.0, 5.0),
            lvl(6.0, 5.0),
        ];

        let ps3 = ImmutablePriceSizeBackLadder(Some(ps2.as_slice())).deserialize(batches.next().expect("failed to deserialize").as_slice());
        let ans3 = vec![
            lvl(1.25, 4.0),
            lvl(1.5, 4.0),
            lvl(2.0, 5.0),
            lvl(2.5, 4.0),
            lvl(3.0, 5.0),
            lvl(3.5, 4.0),
            lvl(4.0, 5.0),
            lvl(5.0, 5.0),
            lvl(6.0, 5.0),
            lvl(7.0, 4.0),
        ];

        let ps4 = ImmutablePriceSizeBackLadder(Some(ps3.as_slice())).deserialize(batches.next().expect("failed to deserialize").as_slice());
        let ans4 = vec![
            lvl(2.0, 5.0),
            lvl(2.5, 4.0),
            lvl(3.0, 5.0),
            lvl(3.5, 4.0),
            lvl(4.0, 5.0),
            lvl(6.0, 5.0),
        ];

        let ps5 = ImmutablePriceSizeBackLadder(Some(ps4.as_slice())).deserialize(batches.next().expect("failed to deserialize").as_slice());
        let ans5 = vec![
            lvl(2.0, 1.0),
            lvl(3.0, 1.0),
            lvl(4.0, 1.0),
            lvl(5.0, 1.0),
            lvl(6.0, 5.0),
        ];

        let ps6 = ImmutablePriceSizeBackLadder(Some(ps5.as_slice())).deserialize(batches.next().expect("failed to deserialize").as_slice());
        let ans6: Vec<PriceSize> = Vec::new();

        let ps7 = ImmutablePriceSizeBackLadder(Some(ps6.as_slice())).deserialize(batches.next().expect("failed to deserialize").as_slice());
        let ans7 = vec![
            lvl(1.1, 6.0),
            lvl(1.2, 5.0),
            lvl(1.3, 4.0),
            lvl(1.4, 3.0),
            lvl(1.5, 2.0),
            lvl(1.6, 1.0),
        ];

        let ps8 = ImmutablePriceSizeBackLadder(Some(ps7.as_slice())).deserialize(batches.next().expect("failed to deserialize").as_slice());
        let ans8 = vec![
            lvl(1.1, 6.0),
            lvl(1.2, 5.0),
            lvl(1.3, 4.0),
            lvl(1.4, 3.0),
            lvl(1.5, 2.0),
            lvl(1.6, 1.0),
            lvl(1.7, 2.0),
            lvl(1.8, 2.0),
            lvl(1.9, 2.0),
            lvl(2.0, 2.0),
            lvl(2.1, 2.0),
            lvl(2.2, 2.0),
        ];

        let ps9 = ImmutablePriceSizeBackLadder(Some(ps8.as_slice())).deserialize(batches.next().expect("failed to deserialize").as_slice());
        let ans9 = vec![
            lvl(1.1, 6.0),
            lvl(1.2, 5.0),
            lvl(1.3, 4.0),
            lvl(1.4, 3.0),
            lvl(1.5, 2.0),
            lvl(1.6, 1.0),
            lvl(1.7, 2.0),
            lvl(1.8, 2.0),
            lvl(1.9, 2.0),
            lvl(2.0, 2.0),
            lvl(2.1, 2.0),
            lvl(2.2, 2.0),
            lvl(2.3, 3.0),
            lvl(2.4, 3.0),
            lvl(2.5, 3.0),
            lvl(2.6, 3.0),
            lvl(2.7, 3.0),
            lvl(2.8, 3.0),
            lvl(2.9, 3.0),
            lvl(3.0, 3.0),
            lvl(3.1, 3.0),
        ];

        // test at the end to ensure the immutability of the vec's
        assert_eq!(ps1, ans1);
        assert_eq!(ps2, ans2);
        assert_eq!(ps3, ans3);
        assert_eq!(ps4, ans4);
        assert_eq!(ps5, ans5);
        assert_eq!(ps6, ans6);
        assert_eq!(ps7, ans7);
        assert_eq!(ps8, ans8);
        assert_eq!(ps9, ans9);
    }

#[test]
fn immutable_price_size_test_lay_ladder_deserialize() {
        let raw = r#"
            [[5, 5],[3.0, 5],[2, 5],[6, 5],[4, 5]]
            [[1.5, 4],[3.5, 4],[2.5, 4.0],[1.25, 4],[7, 4]]
            [[7, 0],[1.5, 0.0],[5, 0],[1.25, 0]]
            [[2, 1],[2.5, 0],[3, 1],[3.5, 0],[4, 1],[5.0,1.0]]
            [[2, 0],[3, 0],[4.0, 0],[5, 0],[6.0, 0]]
            [[1.6, 1],[1.1, 6],[1.4, 3],[1.3, 4],[1.5, 2],[1.2, 5]]
            [[2.2, 2],[1.9, 2],[1.7, 2],[2.1, 2],[1.8, 2],[2.0, 2]]
            [[3.0, 3],[2.3, 3],[2.9, 3],[2.4, 3],[2.8, 3],[2.5, 3],[2.7, 3],[2.6, 3],[3.1, 3]]
            [[4.0, 5]]

        "#;
        let mut batches = updates(raw);

        let ps1: Vec<PriceSize> = Vec::new();
        let ans1: Vec<PriceSize> = Vec::new();

        let ps2 = ImmutablePriceSizeLayLadder(Some(ps1.as_slice())).deserialize(batches.next().expect("failed to deserialize").as_slice());
        let ans2 = vec![
            lvl(6.0, 5.0),
            lvl(5.0, 5.0),
            lvl(4.0, 5.0),
            lvl(3.0, 5.0),
            lvl(2.0, 5.0),
        ];

        let ps3 = ImmutablePriceSizeLayLadder(Some(ps2.as_slice())).deserialize(batches.next().expect("failed to deserialize").as_slice());
        let ans3 = vec![
            lvl(7.0, 4.0),
            lvl(6.0, 5.0),
            lvl(5.0, 5.0),
            lvl(4.0, 5.0),
            lvl(3.5, 4.0),
            lvl(3.0, 5.0),
            lvl(2.5, 4.0),
            lvl(2.0, 5.0),
            lvl(1.5, 4.0),
            lvl(1.25, 4.0),
        ];

        let ps4 = ImmutablePriceSizeLayLadder(Some(ps3.as_slice())).deserialize(batches.next().expect("failed to deserialize").as_slice());
        let ans4 = vec![
            lvl(6.0, 5.0),
            lvl(4.0, 5.0),
            lvl(3.5, 4.0),
            lvl(3.0, 5.0),
            lvl(2.5, 4.0),
            lvl(2.0, 5.0),
        ];

        let ps5 = ImmutablePriceSizeLayLadder(Some(ps4.as_slice())).deserialize(batches.next().expect("failed to deserialize").as_slice());
        let ans5 = vec![
            lvl(6.0, 5.0),
            lvl(5.0, 1.0),
            lvl(4.0, 1.0),
            lvl(3.0, 1.0),
            lvl(2.0, 1.0),
        ];

        let ps6 = ImmutablePriceSizeLayLadder(Some(ps5.as_slice())).deserialize(batches.next().expect("failed to deserialize").as_slice());
        let ans6: Vec<PriceSize> = Vec::new();

        let ps7 = ImmutablePriceSizeLayLadder(Some(ps6.as_slice())).deserialize(batches.next().expect("failed to deserialize").as_slice());
        let ans7 = vec![
            lvl(1.6, 1.0),
            lvl(1.5, 2.0),
            lvl(1.4, 3.0),
            lvl(1.3, 4.0),
            lvl(1.2, 5.0),
            lvl(1.1, 6.0),
        ];

        let ps8 = ImmutablePriceSizeLayLadder(Some(ps7.as_slice())).deserialize(batches.next().expect("failed to deserialize").as_slice());
        let ans8 = vec![
            lvl(2.2, 2.0),
            lvl(2.1, 2.0),
            lvl(2.0, 2.0),
            lvl(1.9, 2.0),
            lvl(1.8, 2.0),
            lvl(1.7, 2.0),
            lvl(1.6, 1.0),
            lvl(1.5, 2.0),
            lvl(1.4, 3.0),
            lvl(1.3, 4.0),
            lvl(1.2, 5.0),
            lvl(1.1, 6.0),
        ];

        let ps9 = ImmutablePriceSizeLayLadder(Some(ps8.as_slice())).deserialize(batches.next().expect("failed to deserialize").as_slice());
        let ans9 = vec![
            lvl(3.1, 3.0),
            lvl(3.0, 3.0),
            lvl(2.9, 3.0),
            lvl(2.8, 3.0),
            lvl(2.7, 3.0),
            lvl(2.6, 3.0),
            lvl(2.5, 3.0),
            lvl(2.4, 3.0),
            lvl(2.3, 3.0),
            lvl(2.2, 2.0),
            lvl(2.1, 2.0),
            lvl(2.0, 2.0),
            lvl(1.9, 2.0),
            lvl(1.8, 2.0),
            lvl(1.7, 2.0),
            lvl(1.6, 1.0),
            lvl(1.5, 2.0),
            lvl(1.4, 3.0),
            lvl(1.3, 4.0),
            lvl(1.2, 5.0),
            lvl(1.1, 6.0),
        ];

        let ps10 = ImmutablePriceSizeLayLadder(Some(ps9.as_slice())).deserialize(batches.next().expect("failed to deserialize").as_slice());
        let ans10 = vec![
            lvl(4.0, 5.0),
            lvl(3.1, 3.0),
            lvl(3.0, 3.0),
            lvl(2.9, 3.0),
            lvl(2.8, 3.0),
            lvl(2.7, 3.0),
            lvl(2.6, 3.0),
            lvl(2.5, 3.0),
            lvl(2.4, 3.0),
            lvl(2.3, 3.0),
            lvl(2.2, 2.0),
            lvl(2.1, 2.0),
            lvl(2.0, 2.0),
            lvl(1.9, 2.0),
            lvl(1.8, 2.0),
            lvl(1.7, 2.0),
            lvl(1.6, 1.0),
            lvl(1.5, 2.0),
            lvl(1.4, 3.0),
            lvl(1.3, 4.0),
            lvl(1.2, 5.0),
            lvl(1.1, 6.0),
        ];

        assert_eq!(ps1, ans1);
        assert_eq!(ps2, ans2);
        assert_eq!(ps3, ans3);
        assert_eq!(ps4, ans4);
        assert_eq!(ps5, ans5);
        assert_eq!(ps6, ans6);
        assert_eq!(ps7, ans7);
        assert_eq!(ps8, ans8);
        assert_eq!(ps9, ans9);
        assert_eq!(ps10, ans10);
    }

#[test]
fn back_and_lay_ladders_mirror_each_other() {
    let updates = vec![
        PriceSize::new(500, 500),
        PriceSize::new(300, 500),
        PriceSize::new(200, 500),
        PriceSize::new(600, 500),
        PriceSize::new(300, 0),
        PriceSize::new(400, 700),
    ];
    let mut back: Vec<PriceSize> = Vec::new();
    let mut lay: Vec<PriceSize> = Vec::new();
    PriceSizeBackLadder(updates.as_slice()).deserialize(&mut back);
    PriceSizeLayLadder(updates.as_slice()).deserialize(&mut lay);
    let mut reversed = back.clone();
    reversed.reverse();
    assert_eq!(lay, reversed);
    assert_eq!(
        back,
        vec![PriceSize::new(200, 500), PriceSize::new(400, 700), PriceSize::new(500, 500), PriceSize::new(600, 500)]
    );
}
