//! Preparing the time series of clusters: hours without events are filled
//! in, and a series is cut into the parts between its trend changes.
//!
//! A point of a series is a time, in seconds since the Unix epoch, and the
//! number of events in the hour that starts there.

use vstd::prelude::*;

verus! {

/// Gaps of fewer hours than this are filled in hour by hour.
pub const MAX_HOUR_DIFF: i64 = 96;

/// Every time handled here lies within this many seconds of the epoch,
/// which holds of every date and time chrono can represent.
pub const MAX_TIMESTAMP: i64 = 10_000_000_000_000;

/// The largest number of seconds a chrono `Duration` holds.
pub const MAX_DURATION_SECS: i64 = 9_223_372_036_854_775;

/// A point of a time series: a time and a count.
pub type Point = (i64, usize);

/// `a / b` rounded toward zero, as Rust's integer division does.
pub open spec fn trunc_div(a: int, b: int) -> int {
    if a >= 0 {
        a / b
    } else {
        -((-a) / b)
    }
}

/// The whole hours from `earlier` to `later`, rounded toward zero.
pub open spec fn hours_between(earlier: int, later: int) -> int {
    trunc_div(later - earlier, 3600)
}

/// The number of hours to fill between two points `diff_hours` apart: the
/// gap itself when it is between 2 and 95 hours, `max_hour_diff` when the
/// gap is at least that long, otherwise none.
pub open spec fn gap_hours(diff_hours: int, max_hour_diff: int) -> int {
    if diff_hours > 1 && diff_hours < MAX_HOUR_DIFF {
        diff_hours
    } else if diff_hours >= max_hour_diff {
        max_hour_diff
    } else {
        0
    }
}

/// The empty hours after `t` for a gap of `gap` hours: one point with
/// count 0 for each hour from 1 to `gap - 1`.
pub open spec fn vacant_points(t: int, gap: int) -> Seq<Point> {
    Seq::new(
        if gap > 1 { (gap - 1) as nat } else { 0 },
        |h: int| ((t + 3600 * (h + 1)) as i64, 0usize),
    )
}

/// A series with the empty hours between its points filled in.
pub open spec fn filled(s: Seq<Point>, max_hour_diff: int) -> Seq<Point>
    decreases s.len(),
{
    if s.len() == 0 {
        Seq::empty()
    } else if s.len() == 1 {
        seq![s[0]]
    } else {
        let prev = s[s.len() - 2].0 as int;
        let cur = s.last().0 as int;
        filled(s.drop_last(), max_hour_diff) + vacant_points(prev, gap_hours(hours_between(prev, cur), max_hour_diff))
            + seq![s.last()]
    }
}

/// Every time of the series is one chrono can represent.
pub open spec fn times_in_range(s: Seq<Point>) -> bool {
    forall|i: int| 0 <= i < s.len() ==> -MAX_TIMESTAMP <= #[trigger] s[i].0 <= MAX_TIMESTAMP
}

/// Calls `chrono::Duration::seconds(secs).num_hours()`: the whole hours in
/// a duration of `secs` seconds, rounded toward zero.
#[verifier::external_body]
fn whole_hours(secs: i64) -> (h: i64)
    requires
        -MAX_DURATION_SECS <= secs <= MAX_DURATION_SECS,
    ensures
        h == trunc_div(secs as int, 3600),
{
    chrono::Duration::seconds(secs).num_hours()
}

/// Calls `chrono::Duration::hours(hours).num_seconds()`: the seconds in a
/// duration of `hours` hours.
#[verifier::external_body]
fn hours_as_seconds(hours: i64) -> (s: i64)
    requires
        -MAX_DURATION_SECS <= 3600 * hours <= MAX_DURATION_SECS,
    ensures
        s == 3600 * hours,
{
    chrono::Duration::hours(hours).num_seconds()
}

proof fn lemma_trunc_div_bounds(a: int)
    ensures
        a >= 0 ==> 0 <= trunc_div(a, 3600) && 3600 * trunc_div(a, 3600) <= a,
        a < 0 ==> trunc_div(a, 3600) <= 0,
{
    if a >= 0 {
        assert(3600 * (a / 3600) <= a) by (nonlinear_arith)
            requires a >= 0;
    }
}

/// The series with the hours between its points filled in: between two
/// consecutive points that are 2 to 95 hours apart, a point with count 0
/// for each hour in between; between points at least `max_hour_diff` hours
/// apart, `max_hour_diff - 1` such points.
pub fn fill_vacant_hours(series: &[Point], max_hour_diff: i64) -> (r: Vec<Point>)
    requires
        times_in_range(series@),
    ensures
        r@ == filled(series@, max_hour_diff as int),
{
    let ghost s = series@;
    let n = series.len();
    let mut out: Vec<Point> = Vec::new();
    let mut i: usize = 0;
    while i < n
        invariant
            n == s.len(),
            s == series@,
            times_in_range(s),
            i <= n,
            out@ == filled(s.take(i as int), max_hour_diff as int),
        decreases n - i,
    {
        if i == 0 {
            out.push(series[0]);
            assert(s.take(1) =~= seq![s[0]]);
        } else {
            let prev = series[i - 1].0;
            let cur = series[i].0;
            assert(-MAX_TIMESTAMP <= s[i - 1].0 <= MAX_TIMESTAMP);
            assert(-MAX_TIMESTAMP <= s[i as int].0 <= MAX_TIMESTAMP);
            let diff = whole_hours(cur - prev);
            let gap: i64 = if diff > 1 && diff < MAX_HOUR_DIFF {
                diff
            } else if diff >= max_hour_diff {
                max_hour_diff
            } else {
                0
            };
            let ghost g = gap_hours(hours_between(prev as int, cur as int), max_hour_diff as int);
            assert(gap == g);
            let ghost base = out@;
            proof {
                lemma_trunc_div_bounds(cur - prev);
            }
            if gap > 0 {
                let mut h: i64 = 1;
                while h < gap
                    invariant
                        1 <= h,
                        gap > 0,
                        h <= gap,
                        gap == g,
                        g > 1 ==> 3600 * (g - 1) < cur - prev,
                        -MAX_TIMESTAMP <= prev <= MAX_TIMESTAMP,
                        -MAX_TIMESTAMP <= cur <= MAX_TIMESTAMP,
                        out@ == base + vacant_points(prev as int, g).take(h - 1),
                    decreases gap - h,
                {
                    let secs = hours_as_seconds(h);
                    out.push((prev + secs, 0));
                    h = h + 1;
                    assert(out@ =~= base + vacant_points(prev as int, g).take(h - 1));
                }
                assert(h == gap);
                assert(vacant_points(prev as int, g).len() == h - 1);
                assert(vacant_points(prev as int, g).take(h - 1) =~= vacant_points(prev as int, g));
            } else {
                assert(vacant_points(prev as int, g) =~= Seq::<Point>::empty());
                assert(out@ =~= base + vacant_points(prev as int, g));
            }
            out.push(series[i]);
            proof {
                let t = s.take(i + 1);
                assert(t.drop_last() =~= s.take(i as int));
                assert(t[t.len() - 2] == s[i - 1]);
            }
        }
        i = i + 1;
    }
    assert(s.take(n as int) =~= s);
    out
}

/// The largest count of a series, 0 for an empty one.
pub open spec fn max_count(s: Seq<Point>) -> nat
    decreases s.len(),
{
    if s.len() == 0 {
        0
    } else {
        let m = max_count(s.drop_last());
        if s.last().1 > m { s.last().1 as nat } else { m }
    }
}

/// The first position from `i` on whose count exceeds `barrier`, or the
/// length of the series when there is none.
pub open spec fn first_above_from(s: Seq<Point>, barrier: nat, i: int) -> int
    decreases s.len() - i,
{
    if i >= s.len() {
        s.len() as int
    } else if s[i].1 > barrier {
        i
    } else {
        first_above_from(s, barrier, i + 1)
    }
}

/// Some point before position `end` has a positive count.
pub open spec fn positive_before(s: Seq<Point>, end: int) -> bool {
    exists|j: int| 0 <= j < end && #[trigger] s[j].1 > 0
}

/// Where a part of a series starts once its small leading counts are
/// dropped: the first point whose count exceeds a tenth of the largest
/// count, unless that point is among the first three and every point
/// before it is 0, in which case nothing is dropped.
pub open spec fn locate_spec(s: Seq<Point>) -> int {
    let barrier = max_count(s) / 10;
    let end = first_above_from(s, barrier, 0);
    let location = if end < s.len() { end } else { 0 };
    if location > 2 || positive_before(s, end) {
        location
    } else {
        0
    }
}

proof fn lemma_first_above_bounds(s: Seq<Point>, barrier: nat, i: int)
    requires
        0 <= i,
    ensures
        i <= first_above_from(s, barrier, i) || (i > s.len() && first_above_from(s, barrier, i) == s.len()),
        first_above_from(s, barrier, i) <= s.len(),
        first_above_from(s, barrier, i) < s.len() ==> s[first_above_from(s, barrier, i)].1 > barrier,
        forall|j: int| i <= j < first_above_from(s, barrier, i) ==> #[trigger] s[j].1 <= barrier,
    decreases s.len() - i,
{
    if i < s.len() && !(s[i].1 > barrier) {
        lemma_first_above_bounds(s, barrier, i + 1);
    }
}

/// The position from which a part of a series is kept: its small leading
/// counts, those not above a tenth of its largest count, are dropped
/// unless there are fewer than three of them and all are 0.
pub fn locate_next_of_front_small_ones(series: &[Point]) -> (r: usize)
    ensures
        r == locate_spec(series@),
        r <= series@.len(),
{
    let ghost s = series@;
    let n = series.len();
    let mut max: usize = 0;
    let mut i: usize = 0;
    while i < n
        invariant
            n == s.len(),
            s == series@,
            i <= n,
            max == max_count(s.take(i as int)),
        decreases n - i,
    {
        if series[i].1 > max {
            max = series[i].1;
        }
        assert(s.take(i + 1).drop_last() =~= s.take(i as int));
        i = i + 1;
    }
    assert(s.take(n as int) =~= s);
    let barrier = max / 10;
    let mut is_zero = false;
    let mut j: usize = 0;
    while j < n && series[j].1 <= barrier
        invariant
            n == s.len(),
            s == series@,
            j <= n,
            barrier == max_count(s) / 10,
            forall|m: int| 0 <= m < j ==> #[trigger] s[m].1 <= barrier,
            is_zero == positive_before(s, j as int),
        decreases n - j,
    {
        proof {
            if series[j as int].1 > 0 {
                assert(s[j as int].1 > 0);
            } else {
                if positive_before(s, j + 1) {
                    let w = choose|w: int| 0 <= w < j + 1 && #[trigger] s[w].1 > 0;
                    assert(w != j);
                }
            }
        }
        if series[j].1 > 0 {
            is_zero = true;
        }
        j = j + 1;
    }
    let location: usize = if j < n { j } else { 0 };
    proof {
        lemma_first_above_bounds(s, barrier as nat, 0);
        let end = first_above_from(s, barrier as nat, 0);
        assert(end == j) by {
            if end < j {
                assert(s[end].1 <= barrier);
            }
            if j < end {
                assert(s[j as int].1 <= barrier);
            }
        }
    }
    if location > 2 || is_zero {
        location
    } else {
        0
    }
}

/// Positions to cut a series at never decrease and lie within it.
pub open spec fn valid_locations(len: int, locations: Seq<usize>) -> bool {
    &&& forall|k: int| 0 <= k < locations.len() ==> #[trigger] locations[k] < len
    &&& forall|a: int, b: int| 0 <= a < b < locations.len() ==> locations[a] <= locations[b]
}

/// Part `idx` of a series cut after each location: from the previous
/// location (or the start) through the location itself (or the end),
/// without its small leading counts.
pub open spec fn part_spec(s: Seq<Point>, locations: Seq<usize>, idx: int) -> Seq<Point> {
    let start = if idx == 0 { 0 } else { locations[idx - 1] as int };
    let end = if idx < locations.len() { locations[idx] + 1 } else { s.len() as int };
    let chunk = s.subrange(start, end);
    chunk.skip(locate_spec(chunk))
}

/// The parts of a series cut at `locations`; consecutive parts share the
/// point at their common location. A series of fewer than two points is
/// its only part, and an empty series has none.
pub open spec fn split_spec(s: Seq<Point>, locations: Seq<usize>) -> Seq<Seq<Point>> {
    if s.len() == 0 {
        Seq::empty()
    } else if s.len() == 1 {
        seq![s]
    } else {
        Seq::new(locations.len() + 1, |idx: int| part_spec(s, locations, idx))
    }
}

/// The points `s[start..end]`.
fn copy_range(s: &[Point], start: usize, end: usize) -> (r: Vec<Point>)
    requires
        start <= end <= s@.len(),
    ensures
        r@ == s@.subrange(start as int, end as int),
{
    let mut r: Vec<Point> = Vec::new();
    let mut i: usize = start;
    while i < end
        invariant
            start <= i <= end,
            end <= s@.len(),
            r@ == s@.subrange(start as int, i as int),
        decreases end - i,
    {
        r.push(s[i]);
        i = i + 1;
        assert(r@ =~= s@.subrange(start as int, i as int));
    }
    r
}

/// A chunk of a series without its small leading counts.
fn trimmed_part(series: &[Point], start: usize, end: usize) -> (r: Vec<Point>)
    requires
        start <= end <= series@.len(),
    ensures
        r@ == series@.subrange(start as int, end as int).skip(locate_spec(series@.subrange(start as int, end as int))),
{
    let chunk = copy_range(series, start, end);
    let p = locate_next_of_front_small_ones(chunk.as_slice());
    let r = copy_range(chunk.as_slice(), p, chunk.len());
    assert(r@ =~= chunk@.skip(p as int));
    r
}

/// The parts of a series between its trend changes at `locations` (as
/// found from the series): each part runs from the previous location
/// through the next one, and loses its small leading counts.
pub fn split_series_at(series: &[Point], locations: &[usize]) -> (r: Vec<Vec<Point>>)
    requires
        series@.len() >= 2 ==> valid_locations(series@.len() as int, locations@),
    ensures
        r@.map_values(|p: Vec<Point>| p@) == split_spec(series@, locations@),
{
    let n = series.len();
    let mut r: Vec<Vec<Point>> = Vec::new();
    if n == 0 {
        assert(r@.map_values(|p: Vec<Point>| p@) =~= split_spec(series@, locations@));
        return r;
    } else if n == 1 {
        r.push(copy_range(series, 0, 1));
        assert(series@.subrange(0, 1) =~= series@);
        assert(r@.map_values(|p: Vec<Point>| p@) =~= split_spec(series@, locations@));
        return r;
    }
    let ghost target = split_spec(series@, locations@);
    let m = locations.len();
    let mut start: usize = 0;
    let mut idx: usize = 0;
    while idx < m
        invariant
            n == series@.len(),
            n >= 2,
            m == locations@.len(),
            valid_locations(n as int, locations@),
            target == split_spec(series@, locations@),
            idx <= m,
            start == if idx == 0 { 0 } else { locations@[idx - 1] as int },
            r@.len() == idx,
            forall|k: int| 0 <= k < idx ==> #[trigger] r@[k]@ == target[k],
        decreases m - idx,
    {
        let end = locations[idx] + 1;
        assert(locations@[idx as int] < n);
        if idx > 0 {
            assert(locations@[idx - 1] <= locations@[idx as int]);
        }
        let part = trimmed_part(series, start, end);
        r.push(part);
        start = locations[idx];
        idx = idx + 1;
    }
    let last = trimmed_part(series, start, n);
    r.push(last);
    assert(r@.map_values(|p: Vec<Point>| p@) =~= target);
    r
}


/// Where the chunk of part `idx` starts: at the previous location, or at
/// the start.
pub open spec fn chunk_start(locations: Seq<usize>, idx: int) -> int {
    if idx == 0 { 0 } else { locations[idx - 1] as int }
}

/// Where the chunk of part `idx` ends: just after its location, or at the
/// end of the series.
pub open spec fn chunk_end(len: int, locations: Seq<usize>, idx: int) -> int {
    if idx < locations.len() { locations[idx] + 1 } else { len }
}

/// The first position of the series that part `idx` keeps.
pub open spec fn part_first(s: Seq<Point>, locations: Seq<usize>, idx: int) -> int {
    if s.len() == 1 {
        0
    } else {
        let start = chunk_start(locations, idx);
        start + locate_spec(s.subrange(start, chunk_end(s.len() as int, locations, idx)))
    }
}

/// The position just after the last point of the series in part `idx`.
pub open spec fn part_end(s: Seq<Point>, locations: Seq<usize>, idx: int) -> int {
    if s.len() == 1 { 1 } else { chunk_end(s.len() as int, locations, idx) }
}

proof fn lemma_locate_within(s: Seq<Point>)
    requires
        s.len() > 0,
    ensures
        0 <= locate_spec(s) < s.len(),
{
    lemma_first_above_bounds(s, max_count(s) / 10, 0);
}

/// A series with points is cut into at least one part; each part is a
/// non-empty stretch `s[part_first..part_end]` of the series, the last
/// part reaches its end, and consecutive parts follow each other, sharing
/// at most the point at their common location.
pub proof fn law_split_parts_cover(s: Seq<Point>, locations: Seq<usize>)
    requires
        s.len() >= 1,
        s.len() >= 2 ==> valid_locations(s.len() as int, locations),
    ensures
        split_spec(s, locations).len() >= 1,
        forall|k: int| 0 <= k < split_spec(s, locations).len() ==> {
            &&& 0 <= #[trigger] part_first(s, locations, k) < part_end(s, locations, k) <= s.len()
            &&& split_spec(s, locations)[k] == s.subrange(part_first(s, locations, k), part_end(s, locations, k))
        },
        part_end(s, locations, split_spec(s, locations).len() - 1) == s.len(),
        forall|k: int| 0 <= k < split_spec(s, locations).len() - 1 ==> {
            &&& part_end(s, locations, k) - 1 <= #[trigger] part_first(s, locations, k + 1)
            &&& part_end(s, locations, k) <= part_end(s, locations, k + 1)
        },
{
    let r = split_spec(s, locations);
    if s.len() == 1 {
        assert(s.subrange(0, 1) =~= s);
    } else {
        let n = s.len() as int;
        let m = locations.len() as int;
        assert forall|k: int| 0 <= k < r.len() implies {
            &&& 0 <= #[trigger] part_first(s, locations, k) < part_end(s, locations, k) <= s.len()
            &&& r[k] == s.subrange(part_first(s, locations, k), part_end(s, locations, k))
        } by {
            let start = chunk_start(locations, k);
            let end = chunk_end(n, locations, k);
            if k > 0 {
                assert(locations[k - 1] < n);
            }
            if k < m {
                assert(locations[k] < n);
                if k > 0 {
                    assert(locations[k - 1] <= locations[k]);
                }
            }
            assert(0 <= start < end <= n);
            let chunk = s.subrange(start, end);
            lemma_locate_within(chunk);
            assert(chunk.skip(locate_spec(chunk)) =~= s.subrange(start + locate_spec(chunk), end));
        }
        assert forall|k: int| 0 <= k < r.len() - 1 implies {
            &&& part_end(s, locations, k) - 1 <= #[trigger] part_first(s, locations, k + 1)
            &&& part_end(s, locations, k) <= part_end(s, locations, k + 1)
        } by {
            let start = chunk_start(locations, k + 1);
            let end = chunk_end(n, locations, k + 1);
            assert(locations[k] < n);
            if k + 1 < m {
                assert(locations[k] <= locations[k + 1]);
                assert(locations[k + 1] < n);
            }
            let chunk = s.subrange(start, end);
            lemma_locate_within(chunk);
        }
    }
}

/// A stored top value of a time column of a cluster: its column, its time
/// (seconds) and its count, as read (`None` where the column was empty).
pub struct TopNRow {
    pub column_index: i32,
    pub value: Option<i64>,
    pub count: Option<i64>,
}

/// A row counts when its column index and count are `usize` values and it
/// has a time.
pub open spec fn valid_row(r: TopNRow) -> bool {
    &&& r.column_index >= 0
    &&& r.value is Some
    &&& r.count matches Some(c) && 0 <= c <= usize::MAX
}

/// A counting row of column `c` at time `t`.
pub open spec fn row_at(r: TopNRow, c: int, t: i64) -> bool {
    valid_row(r) && r.column_index == c && r.value == Some(t)
}

/// The sum of the counts of the first `k` rows of column `c` at time `t`.
pub open spec fn total(rows: Seq<TopNRow>, c: int, t: i64, k: int) -> nat
    decreases k,
{
    if k <= 0 {
        0
    } else {
        total(rows, c, t, k - 1) + if row_at(rows[k - 1], c, t) { rows[k - 1].count->0 as nat } else { 0 }
    }
}

/// Some row among the first `k` counts for column `c` at time `t`.
pub open spec fn seen(rows: Seq<TopNRow>, c: int, t: i64, k: int) -> bool {
    exists|j: int| 0 <= j < k && #[trigger] row_at(rows[j], c, t)
}

/// `(c1, t1)` comes before `(c2, t2)`: by column, then by time.
pub open spec fn key_before(c1: int, t1: i64, c2: int, t2: i64) -> bool {
    c1 < c2 || (c1 == c2 && t1 < t2)
}

/// `out` tallies the first `k` rows: one entry per column and time that a
/// counting row has, in order of column and time, each with the sum of
/// the counts of its rows.
pub open spec fn tallied(rows: Seq<TopNRow>, out: Seq<(usize, i64, usize)>, k: int) -> bool {
    &&& forall|a: int, b: int| 0 <= a < b < out.len() ==> key_before(out[a].0 as int, out[a].1, out[b].0 as int, out[b].1)
    &&& forall|i: int| 0 <= i < out.len() ==> (#[trigger] out[i]).2 == total(rows, out[i].0 as int, out[i].1, k)
        && seen(rows, out[i].0 as int, out[i].1, k)
    &&& forall|j: int| 0 <= j < k && valid_row(#[trigger] rows[j]) ==> exists|i: int|
        0 <= i < out.len() && out[i].0 == rows[j].column_index && out[i].1 == rows[j].value->0
}

/// The sum of the counts of tallied entries.
pub open spec fn tally_sum(out: Seq<(usize, i64, usize)>) -> nat
    decreases out.len(),
{
    if out.len() == 0 {
        0
    } else {
        tally_sum(out.drop_last()) + out.last().2 as nat
    }
}

/// The sum of the counts of the counting rows among the first `k`.
pub open spec fn counted_sum(rows: Seq<TopNRow>, k: int) -> nat
    decreases k,
{
    if k <= 0 {
        0
    } else {
        counted_sum(rows, k - 1) + if valid_row(rows[k - 1]) { rows[k - 1].count->0 as nat } else { 0 }
    }
}

proof fn lemma_tally_sum_insert(s: Seq<(usize, i64, usize)>, p: int, x: (usize, i64, usize))
    requires
        0 <= p <= s.len(),
    ensures
        tally_sum(s.insert(p, x)) == tally_sum(s) + x.2,
    decreases s.len(),
{
    if p == s.len() {
        assert(s.insert(p, x).drop_last() =~= s);
    } else {
        assert(s.insert(p, x).drop_last() =~= s.drop_last().insert(p, x));
        lemma_tally_sum_insert(s.drop_last(), p, x);
    }
}

proof fn lemma_tally_sum_update(s: Seq<(usize, i64, usize)>, p: int, x: (usize, i64, usize))
    requires
        0 <= p < s.len(),
    ensures
        tally_sum(s.update(p, x)) + s[p].2 == tally_sum(s) + x.2,
    decreases s.len(),
{
    if p == s.len() - 1 {
        assert(s.update(p, x).drop_last() =~= s.drop_last());
    } else {
        assert(s.update(p, x).drop_last() =~= s.drop_last().update(p, x));
        lemma_tally_sum_update(s.drop_last(), p, x);
    }
}

proof fn lemma_total_mono(rows: Seq<TopNRow>, c: int, t: i64, a: int, b: int)
    requires
        0 <= a <= b,
    ensures
        total(rows, c, t, a) <= total(rows, c, t, b),
    decreases b - a,
{
    if a < b {
        lemma_total_mono(rows, c, t, a, b - 1);
    }
}

/// The counts of a time column's top values, summed by column and time:
/// `(column, time, count)` in order of column, then time.
pub fn tally_time_series(rows: &Vec<TopNRow>) -> (r: Vec<(usize, i64, usize)>)
    requires
        forall|c: int, t: i64| #[trigger] total(rows@, c, t, rows@.len() as int) <= usize::MAX,
    ensures
        tallied(rows@, r@, rows@.len() as int),
        tally_sum(r@) == counted_sum(rows@, rows@.len() as int),
{
    let mut out: Vec<(usize, i64, usize)> = Vec::new();
    let mut k: usize = 0;
    while k < rows.len()
        invariant
            k <= rows@.len(),
            forall|c: int, t: i64| #[trigger] total(rows@, c, t, rows@.len() as int) <= usize::MAX,
            tallied(rows@, out@, k as int),
            tally_sum(out@) == counted_sum(rows@, k as int),
        decreases rows@.len() - k,
    {
        let row = &rows[k];
        let ghost old_out = out@;
        if row.column_index >= 0 && row.value.is_some() && row.count.is_some() {
            let cnt = row.count.unwrap();
            if cnt >= 0 && (cnt as u64) <= (usize::MAX as u64) {
                let c = row.column_index as usize;
                let t = row.value.unwrap();
                let n = cnt as usize;
                assert(valid_row(rows@[k as int]));
                assert(row_at(rows@[k as int], c as int, t));
                let mut p: usize = 0;
                while p < out.len() && (out[p].0 < c || (out[p].0 == c && out[p].1 < t))
                    invariant
                        p <= out@.len(),
                        out@ == old_out,
                        forall|i: int| 0 <= i < p ==> key_before(out@[i].0 as int, out@[i].1, c as int, t),
                    decreases out@.len() - p,
                {
                    p = p + 1;
                }
                proof {
                    assert forall|i: int| p <= i < out@.len() implies !key_before(out@[i].0 as int, out@[i].1, c as int, t) by {
                        if i > p {
                            assert(key_before(out@[p as int].0 as int, out@[p as int].1, out@[i].0 as int, out@[i].1));
                        }
                    }
                    lemma_total_mono(rows@, c as int, t, k + 1, rows@.len() as int);
                }
                if p < out.len() && out[p].0 == c && out[p].1 == t {
                    let cur = out[p].2;
                    proof {
                        assert(cur == total(rows@, c as int, t, k as int));
                        assert(total(rows@, c as int, t, k + 1) == cur + n);
                    }
                    out.set(p, (c, t, cur + n));
                    proof {
                        lemma_tally_sum_update(old_out, p as int, (c, t, (cur + n) as usize));
                        lemma_tally_update(rows@, old_out, out@, k as int, p as int, c, t, n);
                    }
                } else {
                    proof {
                        assert(total(rows@, c as int, t, k + 1) == total(rows@, c as int, t, k as int) + n);
                        if total(rows@, c as int, t, k as int) > 0 {
                            lemma_total_seen(rows@, c as int, t, k as int);
                            let j = choose|j: int| 0 <= j < k && #[trigger] row_at(rows@[j], c as int, t);
                            assert(valid_row(rows@[j]));
                            let i = choose|i: int| 0 <= i < old_out.len() && old_out[i].0 == rows@[j].column_index && old_out[i].1 == rows@[j].value->0;
                            if i < p {
                                assert(key_before(old_out[i].0 as int, old_out[i].1, c as int, t));
                            } else {
                                assert(!key_before(old_out[i].0 as int, old_out[i].1, c as int, t));
                                if i > p {
                                    assert(key_before(old_out[p as int].0 as int, old_out[p as int].1, old_out[i].0 as int, old_out[i].1));
                                }
                            }
                        }
                    }
                    out.insert(p, (c, t, n));
                    proof {
                        lemma_tally_sum_insert(old_out, p as int, (c, t, n));
                        lemma_tally_insert(rows@, old_out, out@, k as int, p as int, c, t, n);
                    }
                }
            } else {
                proof {
                    lemma_tally_skip(rows@, out@, k as int);
                }
            }
        } else {
            proof {
                lemma_tally_skip(rows@, out@, k as int);
            }
        }
        k = k + 1;
    }
    out
}

proof fn lemma_total_seen(rows: Seq<TopNRow>, c: int, t: i64, k: int)
    requires
        total(rows, c, t, k) > 0,
    ensures
        seen(rows, c, t, k),
    decreases k,
{
    if k > 0 {
        if row_at(rows[k - 1], c, t) {
            assert(row_at(rows[k - 1], c, t));
        } else {
            lemma_total_seen(rows, c, t, k - 1);
            let j = choose|j: int| 0 <= j < k - 1 && #[trigger] row_at(rows[j], c, t);
            assert(row_at(rows[j], c, t));
        }
    }
}

proof fn lemma_tally_skip(rows: Seq<TopNRow>, out: Seq<(usize, i64, usize)>, k: int)
    requires
        0 <= k < rows.len(),
        tallied(rows, out, k),
        !valid_row(rows[k]),
    ensures
        tallied(rows, out, k + 1),
{
    assert forall|i: int| 0 <= i < out.len() implies (#[trigger] out[i]).2 == total(rows, out[i].0 as int, out[i].1, k + 1)
        && seen(rows, out[i].0 as int, out[i].1, k + 1) by {
        let j = choose|j: int| 0 <= j < k && #[trigger] row_at(rows[j], out[i].0 as int, out[i].1);
        assert(row_at(rows[j], out[i].0 as int, out[i].1));
    }
}

proof fn lemma_tally_update(
    rows: Seq<TopNRow>,
    old_out: Seq<(usize, i64, usize)>,
    out: Seq<(usize, i64, usize)>,
    k: int,
    p: int,
    c: usize,
    t: i64,
    n: usize,
)
    requires
        0 <= k < rows.len(),
        tallied(rows, old_out, k),
        row_at(rows[k], c as int, t),
        rows[k].count->0 == n,
        0 <= p < old_out.len(),
        old_out[p].0 == c && old_out[p].1 == t,
        old_out[p].2 + n <= usize::MAX,
        out == old_out.update(p, (c, t, (old_out[p].2 + n) as usize)),
    ensures
        tallied(rows, out, k + 1),
{
    assert forall|a: int, b: int| 0 <= a < b < out.len() implies key_before(out[a].0 as int, out[a].1, out[b].0 as int, out[b].1) by {
        assert(key_before(old_out[a].0 as int, old_out[a].1, old_out[b].0 as int, old_out[b].1));
    }
    assert forall|i: int| 0 <= i < out.len() implies (#[trigger] out[i]).2 == total(rows, out[i].0 as int, out[i].1, k + 1)
        && seen(rows, out[i].0 as int, out[i].1, k + 1) by {
        if i == p {
            assert(row_at(rows[k], c as int, t));
        } else {
            assert(old_out[i] == out[i]);
            assert(key_before(old_out[i].0 as int, old_out[i].1, c as int, t) || key_before(c as int, t, old_out[i].0 as int, old_out[i].1)) by {
                if i < p {
                    assert(key_before(old_out[i].0 as int, old_out[i].1, old_out[p].0 as int, old_out[p].1));
                } else {
                    assert(key_before(old_out[p].0 as int, old_out[p].1, old_out[i].0 as int, old_out[i].1));
                }
            }
            assert(!row_at(rows[k], out[i].0 as int, out[i].1));
            let j = choose|j: int| 0 <= j < k && #[trigger] row_at(rows[j], out[i].0 as int, out[i].1);
            assert(row_at(rows[j], out[i].0 as int, out[i].1));
        }
    }
    assert forall|j: int| 0 <= j < k + 1 && valid_row(#[trigger] rows[j]) implies exists|i: int|
        0 <= i < out.len() && out[i].0 == rows[j].column_index && out[i].1 == rows[j].value->0 by {
        if j == k {
            assert(out[p].0 == rows[j].column_index && out[p].1 == rows[j].value->0);
        } else {
            let i = choose|i: int| 0 <= i < old_out.len() && old_out[i].0 == rows[j].column_index && old_out[i].1 == rows[j].value->0;
            assert(out[i].0 == old_out[i].0 && out[i].1 == old_out[i].1);
        }
    }
}

proof fn lemma_tally_insert(
    rows: Seq<TopNRow>,
    old_out: Seq<(usize, i64, usize)>,
    out: Seq<(usize, i64, usize)>,
    k: int,
    p: int,
    c: usize,
    t: i64,
    n: usize,
)
    requires
        0 <= k < rows.len(),
        tallied(rows, old_out, k),
        row_at(rows[k], c as int, t),
        rows[k].count->0 == n,
        0 <= p <= old_out.len(),
        forall|i: int| 0 <= i < p ==> key_before(old_out[i].0 as int, old_out[i].1, c as int, t),
        forall|i: int| p <= i < old_out.len() ==> key_before(c as int, t, old_out[i].0 as int, old_out[i].1),
        total(rows, c as int, t, k) == 0,
        out == old_out.insert(p, (c, t, n)),
    ensures
        tallied(rows, out, k + 1),
{
    assert forall|a: int, b: int| 0 <= a < b < out.len() implies key_before(out[a].0 as int, out[a].1, out[b].0 as int, out[b].1) by {
        if a < p && b < p {
            assert(key_before(old_out[a].0 as int, old_out[a].1, old_out[b].0 as int, old_out[b].1));
        } else if a < p && b == p {
        } else if a < p {
            assert(out[b] == old_out[b - 1]);
            assert(key_before(old_out[a].0 as int, old_out[a].1, c as int, t));
        } else if a == p {
            assert(out[b] == old_out[b - 1]);
        } else {
            assert(out[a] == old_out[a - 1]);
            assert(out[b] == old_out[b - 1]);
            assert(key_before(old_out[a - 1].0 as int, old_out[a - 1].1, old_out[b - 1].0 as int, old_out[b - 1].1));
        }
    }
    assert forall|i: int| 0 <= i < out.len() implies (#[trigger] out[i]).2 == total(rows, out[i].0 as int, out[i].1, k + 1)
        && seen(rows, out[i].0 as int, out[i].1, k + 1) by {
        if i == p {
            assert(row_at(rows[k], c as int, t));
        } else {
            let o = if i < p { old_out[i] } else { old_out[i - 1] };
            assert(out[i] == o);
            if i < p {
                assert(key_before(o.0 as int, o.1, c as int, t));
            } else {
                assert(key_before(c as int, t, o.0 as int, o.1));
            }
            assert(!row_at(rows[k], o.0 as int, o.1));
            let oi = if i < p { i } else { i - 1 };
            assert(old_out[oi] == o);
            let j = choose|j: int| 0 <= j < k && #[trigger] row_at(rows[j], old_out[oi].0 as int, old_out[oi].1);
            assert(row_at(rows[j], o.0 as int, o.1));
        }
    }
    assert forall|j: int| 0 <= j < k + 1 && valid_row(#[trigger] rows[j]) implies exists|i: int|
        0 <= i < out.len() && out[i].0 == rows[j].column_index && out[i].1 == rows[j].value->0 by {
        if j == k {
            assert(out[p].0 == rows[j].column_index && out[p].1 == rows[j].value->0);
        } else {
            let i = choose|i: int| 0 <= i < old_out.len() && old_out[i].0 == rows[j].column_index && old_out[i].1 == rows[j].value->0;
            if i < p {
                assert(out[i] == old_out[i]);
            } else {
                assert(out[i + 1] == old_out[i]);
            }
        }
    }
}


/// The tallied entries grouped by column, in order: each column with its
/// `(time, count)` points.
pub open spec fn grouped(tally: Seq<(usize, i64, usize)>) -> Seq<(usize, Seq<Point>)>
    decreases tally.len(),
{
    if tally.len() == 0 {
        Seq::empty()
    } else {
        let g = grouped(tally.drop_last());
        let e = tally.last();
        if g.len() > 0 && g.last().0 == e.0 {
            g.update(g.len() - 1, (e.0, g.last().1.push((e.1, e.2))))
        } else {
            g.push((e.0, seq![(e.1, e.2)]))
        }
    }
}

/// The tallied entries grouped by column.
pub fn group_by_column(tally: &Vec<(usize, i64, usize)>) -> (r: Vec<(usize, Vec<Point>)>)
    ensures
        r@.map_values(|g: (usize, Vec<Point>)| (g.0, g.1@)) == grouped(tally@),
{
    let mut r: Vec<(usize, Vec<Point>)> = Vec::new();
    let mut i: usize = 0;
    while i < tally.len()
        invariant
            i <= tally@.len(),
            r@.map_values(|g: (usize, Vec<Point>)| (g.0, g.1@)) == grouped(tally@.take(i as int)),
        decreases tally@.len() - i,
    {
        let (c, t, n) = tally[i];
        let ghost before = r@.map_values(|g: (usize, Vec<Point>)| (g.0, g.1@));
        proof {
            assert(tally@.take(i + 1).drop_last() =~= tally@.take(i as int));
            assert(tally@.take(i + 1).last() == tally@[i as int]);
        }
        let len = r.len();
        if len > 0 && r[len - 1].0 == c {
            let (c0, mut pts) = r.pop().unwrap();
            pts.push((t, n));
            r.push((c0, pts));
            assert(r@.map_values(|g: (usize, Vec<Point>)| (g.0, g.1@)) =~= before.update(before.len() - 1, (c, before.last().1.push((t, n)))));
        } else {
            let mut pts: Vec<Point> = Vec::new();
            pts.push((t, n));
            r.push((c, pts));
            assert(r@.map_values(|g: (usize, Vec<Point>)| (g.0, g.1@)) =~= before.push((c, seq![(t, n)])));
        }
        i = i + 1;
    }
    assert(tally@.take(i as int) =~= tally@);
    r
}

/// Every counting row's time lies in the range a series is filled over.
pub open spec fn rows_in_range(rows: Seq<TopNRow>) -> bool {
    forall|j: int| 0 <= j < rows.len() && valid_row(#[trigger] rows[j]) ==> -MAX_TIMESTAMP <= rows[j].value->0 <= MAX_TIMESTAMP
}

proof fn lemma_grouped_times(tally: Seq<(usize, i64, usize)>, g: int)
    requires
        forall|i: int| 0 <= i < tally.len() ==> -MAX_TIMESTAMP <= #[trigger] tally[i].1 <= MAX_TIMESTAMP,
        0 <= g < grouped(tally).len(),
    ensures
        times_in_range(grouped(tally)[g].1),
    decreases tally.len(),
{
    let t = tally.drop_last();
    assert forall|i: int| 0 <= i < t.len() implies -MAX_TIMESTAMP <= #[trigger] t[i].1 <= MAX_TIMESTAMP by {
        assert(t[i] == tally[i]);
    }
    let gs = grouped(t);
    let e = tally.last();
    assert(e == tally[tally.len() - 1]);
    if gs.len() > 0 && gs.last().0 == e.0 {
        if g < gs.len() - 1 {
            lemma_grouped_times(t, g);
        } else {
            lemma_grouped_times(t, gs.len() - 1);
            let s = gs.last().1.push((e.1, e.2));
            assert forall|i: int| 0 <= i < s.len() implies -MAX_TIMESTAMP <= #[trigger] s[i].0 <= MAX_TIMESTAMP by {
                if i < s.len() - 1 {
                    assert(s[i] == gs.last().1[i]);
                }
            }
        }
    } else {
        if g < gs.len() {
            lemma_grouped_times(t, g);
        }
    }
}

/// The time series of the top values of a cluster's time columns: the
/// counts of each column summed by time (see `tally_time_series`), in
/// order of column and time, each series with its vacant hours filled.
pub fn cluster_time_series(rows: &Vec<TopNRow>) -> (r: Vec<(usize, Vec<Point>)>)
    requires
        forall|c: int, t: i64| #[trigger] total(rows@, c, t, rows@.len() as int) <= usize::MAX,
        rows_in_range(rows@),
    ensures
        exists|tally: Seq<(usize, i64, usize)>| #[trigger] tallied(rows@, tally, rows@.len() as int) && {
            let g = grouped(tally);
            &&& r@.len() == g.len()
            &&& forall|i: int| 0 <= i < r@.len() ==> (#[trigger] r@[i]).0 == g[i].0 && r@[i].1@ == filled(g[i].1, MAX_HOUR_DIFF as int)
        },
{
    let tally = tally_time_series(rows);
    proof {
        assert forall|i: int| 0 <= i < tally@.len() implies -MAX_TIMESTAMP <= #[trigger] tally@[i].1 <= MAX_TIMESTAMP by {
            let j = choose|j: int| 0 <= j < rows@.len() && #[trigger] row_at(rows@[j], tally@[i].0 as int, tally@[i].1);
            assert(valid_row(rows@[j]));
        }
    }
    let groups = group_by_column(&tally);
    let ghost g = grouped(tally@);
    let mut r: Vec<(usize, Vec<Point>)> = Vec::new();
    let mut i: usize = 0;
    while i < groups.len()
        invariant
            i <= groups@.len(),
            g == grouped(tally@),
            groups@.map_values(|x: (usize, Vec<Point>)| (x.0, x.1@)) == g,
            forall|j: int| 0 <= j < tally@.len() ==> -MAX_TIMESTAMP <= #[trigger] tally@[j].1 <= MAX_TIMESTAMP,
            r@.len() == i,
            forall|j: int| 0 <= j < r@.len() ==> (#[trigger] r@[j]).0 == g[j].0 && r@[j].1@ == filled(g[j].1, MAX_HOUR_DIFF as int),
        decreases groups@.len() - i,
    {
        proof {
            assert(groups@[i as int].1@ == g[i as int].1);
            lemma_grouped_times(tally@, i as int);
        }
        let series = fill_vacant_hours(groups[i].1.as_slice(), MAX_HOUR_DIFF);
        r.push((groups[i].0, series));
        i = i + 1;
    }
    r
}


/// The sum of the counts of a series.
pub open spec fn count_sum(s: Seq<Point>) -> nat
    decreases s.len(),
{
    if s.len() == 0 {
        0
    } else {
        count_sum(s.drop_last()) + s.last().1 as nat
    }
}

proof fn lemma_count_sum_concat(a: Seq<Point>, b: Seq<Point>)
    ensures
        count_sum(a + b) == count_sum(a) + count_sum(b),
    decreases b.len(),
{
    if b.len() == 0 {
        assert(a + b =~= a);
    } else {
        assert((a + b).drop_last() =~= a + b.drop_last());
        lemma_count_sum_concat(a, b.drop_last());
    }
}

proof fn lemma_count_sum_single(x: Point)
    ensures
        count_sum(seq![x]) == x.1 as nat,
{
    assert(seq![x].drop_last() =~= Seq::<Point>::empty());
    assert(count_sum(Seq::<Point>::empty()) == 0);
    assert(seq![x].last() == x);
}

proof fn lemma_count_sum_vacant(t: int, gap: int)
    ensures
        count_sum(vacant_points(t, gap)) == 0,
    decreases if gap > 1 { gap } else { 0 },
{
    let v = vacant_points(t, gap);
    if v.len() > 0 {
        assert(v.drop_last() =~= vacant_points(t, gap - 1));
        lemma_count_sum_vacant(t, gap - 1);
    }
}

/// Filling the vacant hours of a series adds only points with no events:
/// the counts of the filled series add up to those of the series, and no
/// point of it is lost (the filled series is at least as long).
pub proof fn law_fill_adds_no_events(s: Seq<Point>, max_hour_diff: int)
    ensures
        count_sum(filled(s, max_hour_diff)) == count_sum(s),
        filled(s, max_hour_diff).len() >= s.len(),
    decreases s.len(),
{
    if s.len() == 0 {
    } else if s.len() == 1 {
        assert(seq![s[0]].drop_last() =~= Seq::<Point>::empty());
        assert(s.drop_last() =~= Seq::<Point>::empty());
        lemma_count_sum_single(s[0]);
        assert(count_sum(s.drop_last()) == 0);
        assert(count_sum(s) == s[0].1 as nat);
    } else {
        let prev = s[s.len() - 2].0 as int;
        let cur = s.last().0 as int;
        let v = vacant_points(prev, gap_hours(hours_between(prev, cur), max_hour_diff));
        law_fill_adds_no_events(s.drop_last(), max_hour_diff);
        lemma_count_sum_concat(filled(s.drop_last(), max_hour_diff) + v, seq![s.last()]);
        lemma_count_sum_concat(filled(s.drop_last(), max_hour_diff), v);
        lemma_count_sum_vacant(prev, gap_hours(hours_between(prev, cur), max_hour_diff));
        assert(seq![s.last()].drop_last() =~= Seq::<Point>::empty());
        lemma_count_sum_single(s.last());
        assert(filled(s, max_hour_diff) == filled(s.drop_last(), max_hour_diff) + v + seq![s.last()]);
    }
}

/// Where point `i` of a series lands once its vacant hours are filled.
pub open spec fn fill_pos(s: Seq<Point>, max_hour_diff: int, i: int) -> int {
    filled(s.take(i + 1), max_hour_diff).len() - 1
}

/// No two consecutive points of a series have an hour to fill between them.
pub open spec fn no_gaps(s: Seq<Point>, max_hour_diff: int) -> bool {
    forall|i: int| 0 <= i < s.len() - 1 ==> #[trigger] gap_hours(hours_between(s[i].0 as int, s[i + 1].0 as int), max_hour_diff) <= 1
}

proof fn lemma_filled_last(t: Seq<Point>, max_hour_diff: int)
    requires
        t.len() >= 1,
    ensures
        filled(t, max_hour_diff).len() >= 1,
        filled(t, max_hour_diff).last() == t.last(),
{
}

proof fn lemma_fill_prefix(s: Seq<Point>, max_hour_diff: int, j: int)
    requires
        1 <= j <= s.len(),
    ensures
        filled(s.take(j), max_hour_diff).len() <= filled(s, max_hour_diff).len(),
        filled(s, max_hour_diff).take(filled(s.take(j), max_hour_diff).len() as int) == filled(s.take(j), max_hour_diff),
    decreases s.len(),
{
    let f = filled(s, max_hour_diff);
    if j == s.len() {
        assert(s.take(j) =~= s);
        assert(f.take(f.len() as int) =~= f);
    } else {
        let d = s.drop_last();
        lemma_fill_prefix(d, max_hour_diff, j);
        assert(d.take(j) =~= s.take(j));
        let fd = filled(d, max_hour_diff);
        let ft = filled(s.take(j), max_hour_diff);
        let prev = s[s.len() - 2].0 as int;
        let cur = s.last().0 as int;
        let v = vacant_points(prev, gap_hours(hours_between(prev, cur), max_hour_diff));
        assert(f == fd + v + seq![s.last()]);
        assert(f.take(ft.len() as int) =~= fd.take(ft.len() as int));
    }
}

proof fn lemma_pos_step(s: Seq<Point>, max_hour_diff: int, i: int)
    requires
        0 <= i < s.len() - 1,
    ensures
        fill_pos(s, max_hour_diff, i) < fill_pos(s, max_hour_diff, i + 1),
{
    let t = s.take(i + 2);
    assert(t.drop_last() =~= s.take(i + 1));
}

proof fn lemma_pos_mono(s: Seq<Point>, max_hour_diff: int, i: int, j: int)
    requires
        0 <= i < j < s.len(),
    ensures
        fill_pos(s, max_hour_diff, i) < fill_pos(s, max_hour_diff, j),
    decreases j - i,
{
    lemma_pos_step(s, max_hour_diff, j - 1);
    if i < j - 1 {
        lemma_pos_mono(s, max_hour_diff, i, j - 1);
    }
}

proof fn lemma_fill_zero_or_kept(s: Seq<Point>, max_hour_diff: int, k: int)
    requires
        0 <= k < filled(s, max_hour_diff).len(),
    ensures
        filled(s, max_hour_diff)[k].1 == 0 || exists|i: int| 0 <= i < s.len() && #[trigger] fill_pos(s, max_hour_diff, i) == k,
    decreases s.len(),
{
    let f = filled(s, max_hour_diff);
    if s.len() == 1 {
        assert(s.take(1) =~= s);
        assert(fill_pos(s, max_hour_diff, 0) == k);
    } else {
        let d = s.drop_last();
        let fd = filled(d, max_hour_diff);
        let prev = s[s.len() - 2].0 as int;
        let cur = s.last().0 as int;
        let v = vacant_points(prev, gap_hours(hours_between(prev, cur), max_hour_diff));
        assert(f == fd + v + seq![s.last()]);
        if k < fd.len() {
            lemma_fill_zero_or_kept(d, max_hour_diff, k);
            if fd[k].1 != 0 {
                let i = choose|i: int| 0 <= i < d.len() && #[trigger] fill_pos(d, max_hour_diff, i) == k;
                assert(d.take(i + 1) =~= s.take(i + 1));
                assert(fill_pos(s, max_hour_diff, i) == k);
            }
        } else if k < fd.len() + v.len() {
            assert(f[k] == v[k - fd.len()]);
        } else {
            assert(s.take(s.len() as int) =~= s);
            assert(fill_pos(s, max_hour_diff, s.len() - 1) == k);
        }
    }
}

proof fn lemma_no_gaps_unchanged(s: Seq<Point>, max_hour_diff: int)
    requires
        no_gaps(s, max_hour_diff),
    ensures
        filled(s, max_hour_diff) == s,
    decreases s.len(),
{
    if s.len() == 1 {
        assert(seq![s[0]] =~= s);
    } else if s.len() >= 2 {
        let d = s.drop_last();
        assert forall|i: int| 0 <= i < d.len() - 1 implies #[trigger] gap_hours(hours_between(d[i].0 as int, d[i + 1].0 as int), max_hour_diff) <= 1 by {
            assert(gap_hours(hours_between(s[i].0 as int, s[i + 1].0 as int), max_hour_diff) <= 1);
        }
        lemma_no_gaps_unchanged(d, max_hour_diff);
        let prev = s[s.len() - 2].0 as int;
        let cur = s.last().0 as int;
        assert(gap_hours(hours_between(s[s.len() - 2].0 as int, s[s.len() - 2 + 1].0 as int), max_hour_diff) <= 1);
        let v = vacant_points(prev, gap_hours(hours_between(prev, cur), max_hour_diff));
        assert(v =~= Seq::<Point>::empty());
        assert(d + v + seq![s.last()] =~= s);
    }
}

/// Filling the vacant hours keeps every point of a series, in order: point
/// `i` lands at `fill_pos(i)`, the positions increase, and every other
/// point of the filled series has count 0. A series with no hour to fill
/// between consecutive points comes back unchanged.
pub proof fn law_fill_keeps_points(s: Seq<Point>, max_hour_diff: int)
    ensures
        forall|i: int| 0 <= i < s.len() ==> 0 <= #[trigger] fill_pos(s, max_hour_diff, i) < filled(s, max_hour_diff).len()
            && filled(s, max_hour_diff)[fill_pos(s, max_hour_diff, i)] == s[i],
        forall|i: int, j: int| 0 <= i < j < s.len() ==> #[trigger] fill_pos(s, max_hour_diff, i) < #[trigger] fill_pos(s, max_hour_diff, j),
        forall|k: int| 0 <= k < filled(s, max_hour_diff).len() ==> (#[trigger] filled(s, max_hour_diff)[k]).1 == 0
            || exists|i: int| 0 <= i < s.len() && #[trigger] fill_pos(s, max_hour_diff, i) == k,
        no_gaps(s, max_hour_diff) ==> filled(s, max_hour_diff) == s,
{
    let f = filled(s, max_hour_diff);
    assert forall|i: int| 0 <= i < s.len() implies 0 <= #[trigger] fill_pos(s, max_hour_diff, i) < f.len()
        && f[fill_pos(s, max_hour_diff, i)] == s[i] by {
        let t = s.take(i + 1);
        lemma_filled_last(t, max_hour_diff);
        lemma_fill_prefix(s, max_hour_diff, i + 1);
        let ft = filled(t, max_hour_diff);
        assert(f.take(ft.len() as int)[ft.len() - 1] == f[ft.len() - 1]);
    }
    assert forall|i: int, j: int| 0 <= i < j < s.len() implies #[trigger] fill_pos(s, max_hour_diff, i) < #[trigger] fill_pos(s, max_hour_diff, j) by {
        lemma_pos_mono(s, max_hour_diff, i, j);
    }
    assert forall|k: int| 0 <= k < f.len() implies (#[trigger] f[k]).1 == 0
        || exists|i: int| 0 <= i < s.len() && #[trigger] fill_pos(s, max_hour_diff, i) == k by {
        lemma_fill_zero_or_kept(s, max_hour_diff, k);
    }
    if no_gaps(s, max_hour_diff) {
        lemma_no_gaps_unchanged(s, max_hour_diff);
    }
}

/// The hours filled between consecutive points `i` and `i + 1`: as many
/// points as `vacant_points` gives for their gap (none for a gap of at
/// most one hour, the gap less one when it is 2 to 95 hours, 95 when it
/// is longer), the `h`-th of them `h + 1` hours after point `i`, with
/// count 0.
pub proof fn law_fill_gap(s: Seq<Point>, max_hour_diff: int, i: int)
    requires
        0 <= i < s.len() - 1,
    ensures
        fill_pos(s, max_hour_diff, i + 1) - fill_pos(s, max_hour_diff, i) - 1
            == vacant_points(s[i].0 as int, gap_hours(hours_between(s[i].0 as int, s[i + 1].0 as int), max_hour_diff)).len(),
        forall|h: int| 0 <= h < fill_pos(s, max_hour_diff, i + 1) - fill_pos(s, max_hour_diff, i) - 1 ==>
            #[trigger] filled(s, max_hour_diff)[fill_pos(s, max_hour_diff, i) + 1 + h] == (((s[i].0 + 3600 * (h + 1)) as i64), 0usize),
{
    let t = s.take(i + 2);
    let d = s.take(i + 1);
    assert(t.drop_last() =~= d);
    assert(t[t.len() - 2] == s[i]);
    assert(t.last() == s[i + 1]);
    let prev = s[i].0 as int;
    let v = vacant_points(prev, gap_hours(hours_between(prev, s[i + 1].0 as int), max_hour_diff));
    let fd = filled(d, max_hour_diff);
    let ft = filled(t, max_hour_diff);
    assert(ft == fd + v + seq![s[i + 1]]);
    lemma_fill_prefix(s, max_hour_diff, i + 2);
    let f = filled(s, max_hour_diff);
    assert forall|h: int| 0 <= h < fill_pos(s, max_hour_diff, i + 1) - fill_pos(s, max_hour_diff, i) - 1 implies
        #[trigger] f[fill_pos(s, max_hour_diff, i) + 1 + h] == (((s[i].0 + 3600 * (h + 1)) as i64), 0usize) by {
        let k = fill_pos(s, max_hour_diff, i) + 1 + h;
        assert(k == fd.len() + h);
        assert(f.take(ft.len() as int)[k] == f[k]);
        assert(ft[k] == v[h]);
    }
}

/// Filling the vacant hours of a series with the standard limit of 96
/// hours, between consecutive points `i` and `i + 1` that are `d` whole
/// hours apart: for 1 < d < 96 exactly the `d - 1` hours in between are
/// added, the `h`-th at `h + 1` hours after point `i` with count 0; for a
/// gap of 96 hours or more, the 95 hours after point `i`; for a gap of at
/// most one hour (or a later point that is earlier), nothing. Both points
/// keep their places.
pub proof fn law_fill_hours_between(s: Seq<Point>, i: int)
    requires
        0 <= i < s.len() - 1,
    ensures
        filled(s, 96)[fill_pos(s, 96, i)] == s[i],
        filled(s, 96)[fill_pos(s, 96, i + 1)] == s[i + 1],
        s[i + 1].0 - s[i].0 < 7200 ==> fill_pos(s, 96, i + 1) == fill_pos(s, 96, i) + 1,
        7200 <= s[i + 1].0 - s[i].0 < 345600 ==> fill_pos(s, 96, i + 1) == fill_pos(s, 96, i) + (s[i + 1].0 - s[i].0) / 3600,
        345600 <= s[i + 1].0 - s[i].0 ==> fill_pos(s, 96, i + 1) == fill_pos(s, 96, i) + 96,
        forall|h: int| 0 <= h < fill_pos(s, 96, i + 1) - fill_pos(s, 96, i) - 1 ==>
            #[trigger] filled(s, 96)[fill_pos(s, 96, i) + 1 + h] == (((s[i].0 + 3600 * (h + 1)) as i64), 0usize),
{
    law_fill_keeps_points(s, 96);
    assert(0 <= i && i < s.len());
    assert(0 <= i + 1 && i + 1 < s.len());
    law_fill_gap(s, 96, i);
    let diff = s[i + 1].0 - s[i].0;
    let d = hours_between(s[i].0 as int, s[i + 1].0 as int);
    if diff >= 0 {
        assert(d == diff / 3600);
        if diff < 7200 {
            assert(d <= 1);
        } else if diff < 345600 {
            assert(2 <= d < 96);
        } else {
            assert(d >= 96);
        }
    } else {
        assert(d == -((-diff) / 3600));
        assert(d <= 0);
    }
}

} // verus!
