use skyctl::{calc_channel_stats, median, ImageError, Stat};

#[test]
fn median_takes_upper_middle_element() {
    assert_eq!(median(&[1, 2, 3, 4]).unwrap(), 3);
    assert_eq!(median(&[4, 3, 2, 1]).unwrap(), 3);
    assert_eq!(median(&[9, 1, 5]).unwrap(), 5);
    assert_eq!(median(&[7]).unwrap(), 7);
    assert_eq!(median(&[2, 2, 1, 2]).unwrap(), 2);
}

#[test]
fn median_of_nothing_is_an_error() {
    assert!(matches!(median(&[]), Err(ImageError::Statistics)));
    assert!(matches!(calc_channel_stats(&[]), Err(ImageError::Statistics)));
}

#[test]
fn channel_stats_are_exact() {
    let st = calc_channel_stats(&[1, 2, 3, 4]).unwrap();
    assert_eq!(st, Stat { min: 1, max: 4, median: 3, sum: 10, abs_dev_sum: 4, count: 4 });

    let st = calc_channel_stats(&[i32::MIN, i32::MAX, 0]).unwrap();
    assert_eq!(st.min, i32::MIN);
    assert_eq!(st.max, i32::MAX);
    assert_eq!(st.median, 0);
    assert_eq!(st.sum, -1);
    assert_eq!(st.abs_dev_sum, (1u128 << 31) + ((1u128 << 31) - 1));
}

#[test]
fn constant_channel_has_no_deviation() {
    for len in [1usize, 2, 7, 100] {
        let st = calc_channel_stats(&vec![5; len]).unwrap();
        assert_eq!(st.abs_dev_sum, 0);
        assert_eq!(st.median, 5);
        assert_eq!((st.min, st.max), (5, 5));
        assert_eq!(st.sum, 5 * len as i128);
    }
    let st = calc_channel_stats(&[-9, -9, -9, -9]).unwrap();
    assert_eq!(st.abs_dev_sum, 0);
    // mean and mean deviation as the transport reports them
    let avg = st.sum as f64 / st.count as f64;
    assert_eq!(avg, -9.0);
}

