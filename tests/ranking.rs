use trading_api::ranking::{
    best_key, gather_in_order, rank_order, select_ranked, summarize, top_ranked, ScoreKeys,
};

fn keys(underlying: i64, best: Option<i64>) -> ScoreKeys {
    ScoreKeys { underlying, best_undervalued: best }
}

#[test]
fn rank_order_highest_first_ties_in_input_order() {
    let k = vec![3, 9, 3, -1, 9];
    assert_eq!(rank_order(&k), vec![1, 4, 0, 2, 3]);
    assert!(rank_order(&Vec::new()).is_empty());
}

#[test]
fn best_key_of_list() {
    assert_eq!(best_key(&vec![4, -2, 7, 7]), Some(7));
    assert_eq!(best_key(&Vec::new()), None);
}

#[test]
fn gather_places_by_ticker() {
    let arrivals = vec![(2, keys(5, None)), (0, keys(1, Some(3)))];
    let slots = gather_in_order(4, &arrivals);
    assert_eq!(slots, vec![Some(keys(1, Some(3))), None, Some(keys(5, None)), None]);
}

#[test]
fn ranking_ignores_completion_order() {
    let analyses = [
        (0usize, keys(40, Some(9))),
        (1, keys(-5, None)),
        (2, keys(40, Some(2))),
        (3, keys(77, Some(1))),
        (5, keys(12, Some(30))),
    ];
    let orders: [[usize; 5]; 4] = [[0, 1, 2, 3, 4], [4, 3, 2, 1, 0], [2, 4, 0, 3, 1], [1, 3, 4, 0, 2]];
    let mut outputs = Vec::new();
    for order in orders.iter() {
        let arrivals: Vec<(usize, ScoreKeys)> = order.iter().map(|i| analyses[*i]).collect();
        let slots = gather_in_order(6, &arrivals);
        outputs.push(select_ranked(&slots, i64::MIN, i64::MIN, 10));
    }
    for out in outputs.iter() {
        assert_eq!(*out, vec![3, 0, 2, 5, 1]);
    }
}

#[test]
fn selection_filters_then_limits() {
    let slots = vec![
        Some(keys(10, Some(5))),
        Some(keys(30, None)),
        None,
        Some(keys(20, Some(-4))),
        Some(keys(25, Some(8))),
    ];
    // minimum underlying 15: drops ticker 0
    assert_eq!(select_ranked(&slots, 15, i64::MIN, 10), vec![1, 4, 3]);
    // minimum undervalued 0: a ticker without contracts, or with only negative scores, reads 0
    assert_eq!(select_ranked(&slots, i64::MIN, 0, 10), vec![1, 4, 3, 0]);
    // minimum undervalued 1 drops those
    assert_eq!(select_ranked(&slots, i64::MIN, 1, 10), vec![4, 0]);
    // limit
    assert_eq!(select_ranked(&slots, i64::MIN, i64::MIN, 2), vec![1, 4]);
    assert!(select_ranked(&slots, i64::MIN, i64::MIN, 0).is_empty());
}

#[test]
fn summary_counts_and_leaders() {
    let slots = vec![
        Some(keys(10, Some(5))),
        Some(keys(30, None)),
        Some(keys(20, Some(50))),
        Some(keys(25, Some(8))),
        Some(keys(5, Some(1))),
        Some(keys(4, Some(2))),
        Some(keys(3, Some(3))),
    ];
    let selected = select_ranked(&slots, i64::MIN, i64::MIN, 10);
    assert_eq!(selected, vec![1, 3, 2, 0, 4, 5, 6]);
    let s = summarize(&slots, &selected);
    assert_eq!(s.total_analyzed, 7);
    assert_eq!(s.total_with_options, 6);
    assert_eq!(s.top_underlying, vec![1, 3, 2, 0, 4]);
    assert_eq!(s.top_undervalued, vec![2, 3, 0, 6, 5]);
}

#[test]
fn summary_of_nothing() {
    let s = summarize(&Vec::new(), &Vec::new());
    assert_eq!((s.total_analyzed, s.total_with_options), (0, 0));
    assert!(s.top_underlying.is_empty() && s.top_undervalued.is_empty());
}

#[test]
fn top_ranked_cuts() {
    assert_eq!(top_ranked(&vec![7, 8, 9], &vec![1, 3, 2], 2), vec![8, 9]);
    assert_eq!(top_ranked(&vec![7, 8, 9], &vec![1, 3, 2], 5), vec![8, 9, 7]);
}
