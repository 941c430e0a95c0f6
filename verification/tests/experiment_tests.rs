use review::database::experiment::{fill_vacant_hours, locate_next_of_front_small_ones, split_series_at, MAX_HOUR_DIFF};

const H: i64 = 3600;

#[test]
fn fill_vacant_hours_inserts_zero_points_between_distant_hours() {
    let series = vec![(0, 5), (3 * H, 7)];
    assert_eq!(fill_vacant_hours(&series, MAX_HOUR_DIFF), vec![(0, 5), (H, 0), (2 * H, 0), (3 * H, 7)]);
}

#[test]
fn fill_vacant_hours_keeps_adjacent_hours() {
    let series = vec![(0, 5), (H, 7), (H + 1800, 1)];
    assert_eq!(fill_vacant_hours(&series, MAX_HOUR_DIFF), series);
}

#[test]
fn fill_vacant_hours_caps_long_gaps() {
    let series = vec![(0, 1), (200 * H, 2)];
    let r = fill_vacant_hours(&series, MAX_HOUR_DIFF);
    assert_eq!(r.len(), 2 + 95);
    assert_eq!(r[1], (H, 0));
    assert_eq!(r[95], (95 * H, 0));
    assert_eq!(r[96], (200 * H, 2));
}

#[test]
fn fill_vacant_hours_of_short_series() {
    assert!(fill_vacant_hours(&[], MAX_HOUR_DIFF).is_empty());
    assert_eq!(fill_vacant_hours(&[(7, 3)], MAX_HOUR_DIFF), vec![(7, 3)]);
}

#[test]
fn locate_skips_leading_small_counts() {
    let s = |c: &[usize]| c.iter().enumerate().map(|(i, &c)| (i as i64 * H, c)).collect::<Vec<_>>();
    assert_eq!(locate_next_of_front_small_ones(&s(&[0, 0, 0, 50, 100])), 3);
    assert_eq!(locate_next_of_front_small_ones(&s(&[0, 100])), 0);
    assert_eq!(locate_next_of_front_small_ones(&s(&[5, 100])), 1);
    assert_eq!(locate_next_of_front_small_ones(&s(&[1, 1, 1])), 0);
    assert_eq!(locate_next_of_front_small_ones(&s(&[0, 0, 0])), 0);
    assert_eq!(locate_next_of_front_small_ones(&[]), 0);
}

#[test]
fn split_series_at_shares_the_location_point() {
    let series: Vec<(i64, usize)> = (0..5).map(|i| (i * H, 10)).collect();
    let parts = split_series_at(&series, &[2]);
    assert_eq!(parts, vec![series[0..3].to_vec(), series[2..5].to_vec()]);
}

#[test]
fn split_series_at_trims_each_part() {
    let counts = [0usize, 0, 0, 100, 1, 0, 0, 0, 50, 50];
    let series: Vec<(i64, usize)> = counts.iter().enumerate().map(|(i, &c)| (i as i64 * H, c)).collect();
    let parts = split_series_at(&series, &[4]);
    assert_eq!(parts.len(), 2);
    assert_eq!(parts[0], series[3..5].to_vec());
    assert_eq!(parts[1], series[8..10].to_vec());
}

#[test]
fn split_series_at_short_series() {
    assert!(split_series_at(&[], &[]).is_empty());
    assert_eq!(split_series_at(&[(0, 1)], &[]), vec![vec![(0, 1)]]);
    let series = vec![(0, 4), (H, 5)];
    assert_eq!(split_series_at(&series, &[]), vec![series.clone()]);
}

use review::database::experiment::{cluster_time_series, group_by_column, tally_time_series, TopNRow};

fn row(c: i32, t: Option<i64>, n: Option<i64>) -> TopNRow {
    TopNRow { column_index: c, value: t, count: n }
}

#[test]
fn tally_sums_counts_by_column_and_time() {
    let rows = vec![
        row(2, Some(H), Some(3)),
        row(0, Some(5 * H), Some(1)),
        row(2, Some(H), Some(4)),
        row(2, Some(0), Some(1)),
        row(-1, Some(H), Some(9)),
        row(0, None, Some(9)),
        row(0, Some(H), None),
        row(0, Some(H), Some(-2)),
    ];
    assert_eq!(tally_time_series(&rows), vec![(0, 5 * H, 1), (2, 0, 1), (2, H, 7)]);
    assert!(tally_time_series(&Vec::new()).is_empty());
}

#[test]
fn grouping_by_column() {
    let g = group_by_column(&vec![(0, 5, 1), (2, 0, 1), (2, 7, 7)]);
    assert_eq!(g, vec![(0, vec![(5, 1)]), (2, vec![(0, 1), (7, 7)])]);
}

#[test]
fn cluster_time_series_fills_each_column() {
    let rows = vec![row(1, Some(3 * H), Some(2)), row(1, Some(0), Some(5)), row(0, Some(0), Some(1))];
    let s = cluster_time_series(&rows);
    assert_eq!(s, vec![(0, vec![(0, 1)]), (1, vec![(0, 5), (H, 0), (2 * H, 0), (3 * H, 2)])]);
}

#[test]
fn filling_adds_no_events() {
    let series = vec![(0, 5), (4 * H, 7), (5 * H, 1), (300 * H, 2)];
    let filled = fill_vacant_hours(&series, MAX_HOUR_DIFF);
    assert_eq!(filled.iter().map(|p| p.1).sum::<usize>(), series.iter().map(|p| p.1).sum::<usize>());
    assert!(filled.len() >= series.len());
    assert!(series.iter().all(|p| filled.contains(p)));
}

#[test]
fn split_parts_are_consecutive_stretches_covering_the_series() {
    let counts = [5usize, 9, 3, 0, 7, 7, 1, 8];
    let series: Vec<(i64, usize)> = counts.iter().enumerate().map(|(i, &c)| (i as i64 * H, c)).collect();
    let parts = split_series_at(&series, &[1, 4, 4, 6]);
    assert_eq!(parts.len(), 5);
    let mut prev_end = 0usize;
    for (k, p) in parts.iter().enumerate() {
        assert!(!p.is_empty());
        let first = series.iter().position(|x| *x == p[0]).unwrap();
        assert_eq!(&series[first..first + p.len()], &p[..]);
        if k > 0 {
            assert!(prev_end - 1 <= first);
        }
        prev_end = first + p.len();
    }
    assert_eq!(prev_end, series.len());
}

#[test]
fn fill_keeps_points_in_order_and_adds_only_zeros() {
    let series = vec![(0, 4), (H, 6), (5 * H, 2), (200 * H, 9)];
    let filled = fill_vacant_hours(&series, MAX_HOUR_DIFF);
    let kept: Vec<(i64, usize)> = filled.iter().cloned().filter(|p| series.contains(p)).collect();
    assert_eq!(kept, series);
    assert!(filled.iter().all(|p| series.contains(p) || p.1 == 0));
    assert_eq!(filled.len(), 4 + 3 + 95);
    let dense = vec![(0, 1), (H, 2), (2 * H, 3)];
    assert_eq!(fill_vacant_hours(&dense, MAX_HOUR_DIFF), dense);
}

#[test]
fn fill_adds_the_gap_less_one_hours_after_each_point() {
    let series = vec![(0, 4), (4 * H, 6), (5 * H, 2), (300 * H, 1)];
    let filled = fill_vacant_hours(&series, MAX_HOUR_DIFF);
    assert_eq!(&filled[0..5], &[(0, 4), (H, 0), (2 * H, 0), (3 * H, 0), (4 * H, 6)]);
    assert_eq!(filled[5], (5 * H, 2));
    assert_eq!(filled.len(), 6 + 95 + 1);
    assert_eq!(filled[6], (6 * H, 0));
    assert_eq!(filled[100], (100 * H, 0));
    assert_eq!(filled[101], (300 * H, 1));
}
