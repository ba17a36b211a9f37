use options_chart::sorting::sort_ascending;

#[test]
fn sorting_nothing_gives_nothing() {
    assert_eq!(sort_ascending(&Vec::new()), Vec::<i64>::new());
}

#[test]
fn sorting_one_element_keeps_it() {
    assert_eq!(sort_ascending(&vec![7]), vec![7]);
}

#[test]
fn sorting_orders_ascending() {
    assert_eq!(
        sort_ascending(&vec![1500, 1450, 1525, 1350, 1345, 1650, 1600, 1550, 1635]),
        vec![1345, 1350, 1450, 1500, 1525, 1550, 1600, 1635, 1650]
    );
}

#[test]
fn sorting_keeps_duplicates() {
    assert_eq!(
        sort_ascending(&vec![3, 1, 3, 2, 1, 3]),
        vec![1, 1, 2, 3, 3, 3]
    );
}

#[test]
fn sorting_handles_sorted_and_reversed_input() {
    assert_eq!(sort_ascending(&vec![1, 2, 3, 4, 5]), vec![1, 2, 3, 4, 5]);
    assert_eq!(sort_ascending(&vec![5, 4, 3, 2, 1]), vec![1, 2, 3, 4, 5]);
}

#[test]
fn sorting_handles_negative_and_extreme_values() {
    assert_eq!(
        sort_ascending(&vec![0, i64::MAX, -1, i64::MIN, 1]),
        vec![i64::MIN, -1, 0, 1, i64::MAX]
    );
}

#[test]
fn sorting_leaves_its_input_alone() {
    let values = vec![2, 1];
    let sorted = sort_ascending(&values);
    assert_eq!(values, vec![2, 1]);
    assert_eq!(sorted, vec![1, 2]);
}

#[test]
fn sorting_many_elements_agrees_with_the_standard_sort() {
    let mut values: Vec<i64> = Vec::new();
    let mut state: i64 = 12345;
    for _ in 0..10_000 {
        state = (state.wrapping_mul(6364136223846793005).wrapping_add(1442695040888963407)) >> 1;
        values.push(state % 1000 - 500);
    }
    let mut expected = values.clone();
    expected.sort();
    assert_eq!(sort_ascending(&values), expected);
}
