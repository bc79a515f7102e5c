use job_scraper::merge::into_batches;

#[test]
fn batches_are_fixed_size_with_a_short_tail() {
    let items: Vec<u32> = (0..7).collect();
    let batches = into_batches(items, 3);
    assert_eq!(batches.len(), 3);
    assert_eq!(batches[0], vec![0, 1, 2]);
    assert_eq!(batches[1], vec![3, 4, 5]);
    assert_eq!(batches[2], vec![6]);
}

#[test]
fn batches_concatenate_back_to_the_input() {
    let items: Vec<String> = (0..23).map(|i| format!("r{i}")).collect();
    let batches = into_batches(items.clone(), 5);
    let rejoined: Vec<String> = batches.into_iter().flatten().collect();
    assert_eq!(rejoined, items);
}

#[test]
fn batch_size_one_and_oversized_batches() {
    let batches = into_batches(vec![1, 2, 3], 1);
    assert_eq!(batches, vec![vec![1], vec![2], vec![3]]);
    let batches = into_batches(vec![1, 2, 3], 500);
    assert_eq!(batches, vec![vec![1, 2, 3]]);
}

#[test]
fn no_records_make_no_batches() {
    let batches = into_batches(Vec::<u8>::new(), 20);
    assert!(batches.is_empty());
}
