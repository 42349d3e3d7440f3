use docxside_pdf::columns::fit_columns;

#[test]
fn wide_word_grows_its_column_and_shrinks_the_other() {
    // Two columns of 100pt; the second holds a word of 160pt.
    let widths = fit_columns(&vec![100_000, 100_000], &vec![0, 160_000]);
    assert_eq!(widths, vec![40_000, 160_000]);
    assert_eq!(widths.iter().sum::<i64>(), 200_000);
}

#[test]
fn hints_stay_where_nothing_has_to_grow() {
    assert_eq!(fit_columns(&vec![100_000, 50_000], &vec![100_000, 10_000]), vec![100_000, 50_000]);
    assert_eq!(fit_columns(&vec![], &vec![]), Vec::<i64>::new());
    assert_eq!(fit_columns(&vec![0, 0], &vec![0, 0]), vec![0, 0]);
}

#[test]
fn slack_is_given_up_in_proportion() {
    // 30pt are needed; the columns have 60pt and 30pt to spare and give up
    // a third of it each.
    let widths = fit_columns(&vec![100_000, 50_000, 20_000], &vec![40_000, 20_000, 50_000]);
    assert_eq!(widths, vec![80_000, 40_000, 50_000]);
}

#[test]
fn columns_without_slack_are_scaled_down_to_the_total() {
    // Nothing can be taken from anywhere: the least widths are scaled down
    // to the sum of the hints.
    assert_eq!(fit_columns(&vec![100_000], &vec![160_000]), vec![100_000]);
    assert_eq!(fit_columns(&vec![10_000, 20_000], &vec![30_000, 20_000]), vec![18_000, 12_000]);
}

#[test]
fn too_little_slack_is_rescaled_to_the_total() {
    // 60pt are needed but only 30pt can be spared: 230pt are rescaled to
    // the 200pt of the hints, and the last column takes the rounding.
    let widths = fit_columns(&vec![100_000, 100_000], &vec![70_000, 160_000]);
    assert_eq!(widths, vec![60_869, 139_131]);
    assert_eq!(widths.iter().sum::<i64>(), 200_000);
}

#[test]
fn shares_add_up_to_the_growth() {
    // A third of a unit cannot be given: the shares are 3, 3 and 4.
    let widths = fit_columns(&vec![10, 10, 10, 0], &vec![0, 0, 0, 10]);
    assert_eq!(widths, vec![7, 7, 6, 10]);
    assert_eq!(widths.iter().sum::<i64>(), 30);
}

#[test]
fn small_growth_is_paid_by_many_columns() {
    // The first column needs 0.011pt more; twelve columns of a point give
    // it, none more than a thousandth.
    let mut hints = vec![499_989];
    let mut mins = vec![500_000];
    hints.extend(vec![1_000; 12]);
    mins.extend(vec![0; 12]);
    let widths = fit_columns(&hints, &mins);
    assert_eq!(widths[0], 500_000);
    assert_eq!(widths.iter().sum::<i64>(), hints.iter().sum::<i64>());
    assert_eq!(widths[1..].iter().filter(|w| **w == 999).count(), 11);
    assert_eq!(widths[1..].iter().filter(|w| **w == 1_000).count(), 1);
}

#[test]
fn the_total_is_kept_whatever_has_to_grow() {
    let cases: Vec<(Vec<i64>, Vec<i64>)> = vec![
        (vec![100_000, 100_000], vec![0, 160_000]),
        (vec![100_000, 100_000], vec![150_000, 160_000]),
        (vec![1, 1, 1], vec![2, 0, 0]),
        (vec![7, 11, 13, 17], vec![9, 3, 14, 2]),
        (vec![0, 0], vec![5, 0]),
        (vec![50_000], vec![1]),
    ];
    for (hints, mins) in cases {
        let widths = fit_columns(&hints, &mins);
        assert_eq!(widths.len(), hints.len());
        assert_eq!(widths.iter().sum::<i64>(), hints.iter().sum::<i64>(), "{hints:?} {mins:?}");
        assert!(widths.iter().all(|w| *w >= 0));
    }
}
