use inference_engine_rust::utils::argmax;

#[test]
fn argmax_orders_from_highest() {
    assert_eq!(argmax(&[3, 7, 1, 5]), vec![1, 3, 0, 2]);
}

#[test]
fn argmax_keeps_ties_in_position_order() {
    assert_eq!(argmax(&[3, 7, 7, 1, 7]), vec![1, 2, 4, 0, 3]);
    assert_eq!(argmax(&[0, 0, 0]), vec![0, 1, 2]);
}

#[test]
fn argmax_of_empty_and_single() {
    assert_eq!(argmax(&[]), Vec::<usize>::new());
    assert_eq!(argmax(&[-5]), vec![0]);
}

#[test]
fn argmax_handles_extremes() {
    assert_eq!(argmax(&[i64::MIN, i64::MAX, 0, -1]), vec![1, 2, 3, 0]);
}

#[test]
fn argmax_head_is_a_maximum() {
    let v = [4, -2, 9, 9, 3, 0, 8];
    let r = argmax(&v);
    let max = *v.iter().max().unwrap();
    assert_eq!(v[r[0]], max);
    assert_eq!(r[0], 2);
    let mut sorted = r.clone();
    sorted.sort();
    assert_eq!(sorted, (0..v.len()).collect::<Vec<_>>());
}

#[test]
fn argmax_agrees_with_a_stable_sort() {
    let v: Vec<i64> = (0..1000i64).map(|i| (i * 7919) % 13 - 6).collect();
    let mut expected: Vec<usize> = (0..v.len()).collect();
    expected.sort_by(|&i, &j| v[j].cmp(&v[i]));
    assert_eq!(argmax(&v), expected);
}
