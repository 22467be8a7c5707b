//! The fan curve: piecewise-linear interpolation over configured points,
//! anchored at (0, 0) and (100, 100), and the per-tick rate limit.
use vstd::prelude::*;

verus! {

/// The temperature of point `i` of the effective curve: the anchor (0, 0), the
/// configured points in the order given, then the anchor (100, 100).
pub open spec fn curve_x(points: Seq<[u32; 2]>, i: int) -> int {
    if i == 0 {
        0
    } else if i <= points.len() {
        points[i - 1][0] as int
    } else {
        100
    }
}

/// The duty of point `i` of the effective curve.
pub open spec fn curve_y(points: Seq<[u32; 2]>, i: int) -> int {
    if i == 0 {
        0
    } else if i <= points.len() {
        points[i - 1][1] as int
    } else {
        100
    }
}

/// Number of points of the effective curve.
pub open spec fn curve_len(points: Seq<[u32; 2]>) -> int {
    points.len() + 2int
}

/// `n / d` rounded to the nearest integer, halves upward (`n >= 0`, `d > 0`).
pub open spec fn round_div(n: int, d: int) -> int {
    (2 * n + d) / (2 * d)
}

/// Linear interpolation at `t` between `(x1, y1)` and `(x2, y2)`, rounded.
pub open spec fn interpolate(x1: int, y1: int, x2: int, y2: int, t: int) -> int {
    round_div(y1 * (x2 - x1) + (t - x1) * (y2 - y1), x2 - x1)
}

/// Walk the effective curve from pair `(j - 1, j)` onward and interpolate in the
/// first pair whose upper temperature is at least `t`.
pub open spec fn duty_from(points: Seq<[u32; 2]>, t: int, j: int) -> int
    decreases curve_len(points) - j,
{
    if j >= curve_len(points) || j < 1 {
        100
    } else if t <= curve_x(points, j) {
        interpolate(curve_x(points, j - 1), curve_y(points, j - 1), curve_x(points, j), curve_y(points, j), t)
    } else {
        duty_from(points, t, j + 1)
    }
}

/// The duty that the curve gives at temperature `t`.
pub open spec fn curve_duty(points: Seq<[u32; 2]>, t: int) -> int {
    if t <= 0 {
        0
    } else {
        duty_from(points, t, 1)
    }
}

/// Largest duty among the points of the effective curve from `j` on.
pub open spec fn max_y_from(points: Seq<[u32; 2]>, j: int) -> int
    decreases curve_len(points) - j,
{
    if j >= curve_len(points) - 1 || j < 0 {
        100
    } else {
        let rest = max_y_from(points, j + 1);
        if curve_y(points, j) > rest { curve_y(points, j) } else { rest }
    }
}

proof fn lemma_interpolate_between(x1: int, y1: int, x2: int, y2: int, t: int)
    requires
        x1 < t <= x2,
        0 <= y1,
        0 <= y2,
    ensures
        y1 <= y2 ==> y1 <= interpolate(x1, y1, x2, y2, t) <= y2,
        y2 < y1 ==> y2 <= interpolate(x1, y1, x2, y2, t) <= y1,
        t == x2 ==> interpolate(x1, y1, x2, y2, t) == y2,
{
    let d = x2 - x1;
    let a = t - x1;
    let n = y1 * d + a * (y2 - y1);
    assert(0 < a <= d);
    if y1 <= y2 {
        assert(a * (y2 - y1) <= d * (y2 - y1)) by (nonlinear_arith)
            requires a <= d, y1 <= y2;
        assert(0 <= a * (y2 - y1)) by (nonlinear_arith)
            requires 0 < a, y1 <= y2;
        assert(y1 * d <= n <= y2 * d) by (nonlinear_arith)
            requires n == y1 * d + a * (y2 - y1), a * (y2 - y1) <= d * (y2 - y1), 0 <= a * (y2 - y1);
        lemma_round_div_bounds(n, d, y1, y2);
    } else {
        assert(a * (y1 - y2) <= d * (y1 - y2)) by (nonlinear_arith)
            requires a <= d, y2 < y1;
        assert(0 <= a * (y1 - y2)) by (nonlinear_arith)
            requires 0 < a, y2 < y1;
        assert(n == y1 * d - a * (y1 - y2)) by (nonlinear_arith)
            requires n == y1 * d + a * (y2 - y1);
        assert(y2 * d <= n <= y1 * d) by (nonlinear_arith)
            requires n == y1 * d - a * (y1 - y2), a * (y1 - y2) <= d * (y1 - y2), 0 <= a * (y1 - y2);
        lemma_round_div_bounds(n, d, y2, y1);
    }
    if t == x2 {
        assert(n == y2 * d) by (nonlinear_arith)
            requires n == y1 * d + a * (y2 - y1), a == d;
        lemma_round_div_exact(y2, d);
    }
}

proof fn lemma_round_div_bounds(n: int, d: int, lo: int, hi: int)
    requires
        d > 0,
        0 <= lo <= hi,
        lo * d <= n <= hi * d,
    ensures
        lo <= round_div(n, d) <= hi,
{
    let q = (2 * n + d) / (2 * d);
    assert(2 * d * lo <= 2 * n + d) by (nonlinear_arith)
        requires lo * d <= n, d > 0;
    assert(2 * n + d < 2 * d * (hi + 1)) by (nonlinear_arith)
        requires n <= hi * d, d > 0;
    vstd::arithmetic::div_mod::lemma_div_is_ordered(2 * d * lo, 2 * n + d, 2 * d);
    vstd::arithmetic::div_mod::lemma_div_by_multiple(lo, 2 * d);
    assert((lo * (2 * d)) / (2 * d) == lo);
    assert(2 * d * lo == lo * (2 * d)) by (nonlinear_arith);
    vstd::arithmetic::div_mod::lemma_div_by_multiple_is_strongly_ordered(2 * n + d, 2 * d * (hi + 1), hi + 1, 2 * d);
    assert(2 * d * (hi + 1) == (hi + 1) * (2 * d)) by (nonlinear_arith);
    assert(((hi + 1) * (2 * d)) / (2 * d) == hi + 1) by {
        vstd::arithmetic::div_mod::lemma_div_by_multiple(hi + 1, 2 * d);
    }
}

proof fn lemma_round_div_exact(y: int, d: int)
    requires
        d > 0,
        y >= 0,
    ensures
        round_div(y * d, d) == y,
{
    assert(2 * (y * d) + d == y * (2 * d) + d) by (nonlinear_arith);
    vstd::arithmetic::div_mod::lemma_fundamental_div_mod_converse(2 * (y * d) + d, 2 * d, y, d);
}

/// Fan duty for temperature `temp` from the configured curve `points`.
///
/// The effective curve is (0, 0), then `points` in the order given (neither
/// sorted nor deduplicated), then (100, 100). At or below 0 °C the duty is 0;
/// otherwise the first consecutive pair whose upper temperature is at least
/// `temp` is interpolated linearly and the result rounded to the nearest
/// integer. Above every point the duty is 100. An unsorted point sequence is
/// walked as given, which makes the curve non-monotonic.
pub fn calculate_duty_from_curve(temp: i32, points: &[[u32; 2]]) -> (r: u32)
    ensures
        r as int == curve_duty(points@, temp as int),
{
    if temp <= 0 {
        return 0;
    }
    let n = points.len();
    let mut i: usize = 0;
    let mut x1: u32 = 0;
    let mut y1: u32 = 0;
    while i < n
        invariant
            n == points@.len(),
            0 <= i <= n,
            x1 as int == curve_x(points@, i as int),
            y1 as int == curve_y(points@, i as int),
            temp as int > x1 as int,
            duty_from(points@, temp as int, 1) == duty_from(points@, temp as int, i + 1),
        decreases n - i,
    {
        let p = points[i];
        let (x2, y2) = (p[0], p[1]);
        assert(x2 as int == curve_x(points@, i + 1));
        assert(y2 as int == curve_y(points@, i + 1));
        if temp as i64 <= x2 as i64 {
            return segment_duty(x1, y1, x2, y2, temp);
        }
        x1 = x2;
        y1 = y2;
        i = i + 1;
    }
    assert(curve_x(points@, n + 1) == 100 && curve_y(points@, n + 1) == 100);
    if temp as i64 <= 100 {
        return segment_duty(x1, y1, 100, 100, temp);
    }
    assert(duty_from(points@, temp as int, n + 2) == 100);
    100
}

/// The rounded interpolation at `temp` between `(x1, y1)` and `(x2, y2)`.
fn segment_duty(x1: u32, y1: u32, x2: u32, y2: u32, temp: i32) -> (r: u32)
    requires
        (x1 as int) < (temp as int) <= (x2 as int),
    ensures
        r as int == interpolate(x1 as int, y1 as int, x2 as int, y2 as int, temp as int),
{
    proof {
        lemma_interpolate_between(x1 as int, y1 as int, x2 as int, y2 as int, temp as int);
    }
    let d: u128 = (x2 - x1) as u128;
    let a: u128 = (temp as i64 - x1 as i64) as u128;
    let num: u128 = if y1 <= y2 {
        assert(a * ((y2 - y1) as u128) <= 0x1_0000_0000u128 * 0x1_0000_0000u128) by (nonlinear_arith)
            requires
                a < 0x1_0000_0000u128,
                (y2 - y1) as u128 <= 0x1_0000_0000u128,
        ;
        assert((y1 as u128) * d <= 0x1_0000_0000u128 * 0x1_0000_0000u128) by (nonlinear_arith)
            requires
                (y1 as u128) < 0x1_0000_0000u128,
                d < 0x1_0000_0000u128,
        ;
        (y1 as u128) * d + a * ((y2 - y1) as u128)
    } else {
        assert(a * ((y1 - y2) as u128) <= (y1 as u128) * d) by (nonlinear_arith)
            requires
                a <= d,
                ((y1 - y2) as u128) <= y1 as u128,
        ;
        assert((y1 as u128) * d <= 0x1_0000_0000u128 * 0x1_0000_0000u128) by (nonlinear_arith)
            requires
                (y1 as u128) < 0x1_0000_0000u128,
                d < 0x1_0000_0000u128,
        ;
        (y1 as u128) * d - a * ((y1 - y2) as u128)
    };
    assert(num as int == y1 as int * (x2 as int - x1 as int) + (temp as int - x1 as int) * (y2 as int - y1 as int))
        by (nonlinear_arith)
        requires
            d as int == x2 as int - x1 as int,
            a as int == temp as int - x1 as int,
            y1 <= y2 ==> num as int == y1 as int * d as int + a as int * (y2 as int - y1 as int),
            y2 < y1 ==> num as int == y1 as int * d as int - a as int * (y1 as int - y2 as int),
    ;
    let q: u128 = (2 * num + d) / (2 * d);
    assert(q as int == interpolate(x1 as int, y1 as int, x2 as int, y2 as int, temp as int));
    q as u32
}

/// The effective curve rises: its temperatures and its duties never decrease
/// along the sequence (anchors included, so every duty lies in 0..=100).
pub open spec fn monotonic_curve(points: Seq<[u32; 2]>) -> bool {
    forall|i: int, k: int|
        0 <= i <= k < curve_len(points) ==> curve_x(points, i) <= curve_x(points, k) && curve_y(points, i)
            <= curve_y(points, k)
}

proof fn lemma_interpolate_monotonic(x1: int, y1: int, x2: int, y2: int, t1: int, t2: int)
    requires
        x1 < t1 <= t2 <= x2,
        0 <= y1 <= y2,
    ensures
        interpolate(x1, y1, x2, y2, t1) <= interpolate(x1, y1, x2, y2, t2),
{
    let d = x2 - x1;
    assert((t1 - x1) * (y2 - y1) <= (t2 - x1) * (y2 - y1)) by (nonlinear_arith)
        requires t1 <= t2, y1 <= y2;
    vstd::arithmetic::div_mod::lemma_div_is_ordered(
        2 * (y1 * d + (t1 - x1) * (y2 - y1)) + d,
        2 * (y1 * d + (t2 - x1) * (y2 - y1)) + d,
        2 * d,
    );
}

proof fn lemma_duty_from_lower(points: Seq<[u32; 2]>, t: int, j: int)
    requires
        monotonic_curve(points),
        1 <= j,
        t > curve_x(points, j - 1),
    ensures
        duty_from(points, t, j) >= curve_y(points, j - 1),
    decreases curve_len(points) - j,
{
    if j >= curve_len(points) {
        assert(curve_y(points, j - 1) <= curve_y(points, curve_len(points) - 1));
    } else if t <= curve_x(points, j) {
        assert(curve_x(points, j - 1) <= curve_x(points, j));
        assert(curve_y(points, j - 1) <= curve_y(points, j));
        assert(0 <= curve_y(points, j - 1));
        lemma_interpolate_between(
            curve_x(points, j - 1),
            curve_y(points, j - 1),
            curve_x(points, j),
            curve_y(points, j),
            t,
        );
    } else {
        lemma_duty_from_lower(points, t, j + 1);
        assert(curve_y(points, j - 1) <= curve_y(points, j));
    }
}

proof fn lemma_duty_from_monotonic(points: Seq<[u32; 2]>, t1: int, t2: int, j: int)
    requires
        monotonic_curve(points),
        1 <= j,
        curve_x(points, j - 1) < t1 <= t2,
    ensures
        duty_from(points, t1, j) <= duty_from(points, t2, j),
    decreases curve_len(points) - j,
{
    if j >= curve_len(points) {
    } else if t1 <= curve_x(points, j) {
        let (x1, y1, x2, y2) = (curve_x(points, j - 1), curve_y(points, j - 1), curve_x(points, j), curve_y(points, j));
        assert(y1 <= y2);
        assert(0 <= y1);
        lemma_interpolate_between(x1, y1, x2, y2, t1);
        if t2 <= x2 {
            lemma_interpolate_monotonic(x1, y1, x2, y2, t1, t2);
        } else {
            lemma_duty_from_lower(points, t2, j + 1);
        }
    } else {
        lemma_duty_from_monotonic(points, t1, t2, j + 1);
    }
}

/// On a rising curve the duty never decreases as the temperature rises.
pub proof fn lemma_curve_monotonic(points: Seq<[u32; 2]>, t1: int, t2: int)
    requires
        monotonic_curve(points),
        t1 <= t2,
    ensures
        curve_duty(points, t1) <= curve_duty(points, t2),
        0 <= curve_duty(points, t1),
        curve_duty(points, t2) <= 100,
{
    if t1 > 0 {
        lemma_duty_from_monotonic(points, t1, t2, 1);
        lemma_duty_from_lower(points, t1, 1);
    } else if t2 > 0 {
        lemma_duty_from_lower(points, t2, 1);
    }
    lemma_curve_at_most_100(points, t2);
}

proof fn lemma_duty_from_upper(points: Seq<[u32; 2]>, t: int, j: int)
    requires
        monotonic_curve(points),
        1 <= j,
        t > curve_x(points, j - 1),
    ensures
        duty_from(points, t, j) <= 100,
    decreases curve_len(points) - j,
{
    if j >= curve_len(points) {
    } else if t <= curve_x(points, j) {
        let (x1, y1, x2, y2) = (curve_x(points, j - 1), curve_y(points, j - 1), curve_x(points, j), curve_y(points, j));
        assert(y1 <= y2 && 0 <= y1);
        assert(y2 <= curve_y(points, curve_len(points) - 1));
        lemma_interpolate_between(x1, y1, x2, y2, t);
    } else {
        lemma_duty_from_upper(points, t, j + 1);
    }
}

proof fn lemma_curve_at_most_100(points: Seq<[u32; 2]>, t: int)
    requires
        monotonic_curve(points),
    ensures
        curve_duty(points, t) <= 100,
{
    if t > 0 {
        lemma_duty_from_upper(points, t, 1);
    }
}

proof fn lemma_duty_from_at_point(points: Seq<[u32; 2]>, j: int, k: int)
    requires
        1 <= j <= k <= points.len(),
        curve_x(points, j - 1) < curve_x(points, k),
        forall|i: int| j <= i < k ==> curve_x(points, i) < curve_x(points, k),
    ensures
        duty_from(points, curve_x(points, k), j) == curve_y(points, k),
    decreases k - j,
{
    let t = curve_x(points, k);
    if j == k {
        lemma_interpolate_between(curve_x(points, j - 1), curve_y(points, j - 1), t, curve_y(points, k), t);
    } else {
        assert(curve_x(points, j) < t);
        lemma_duty_from_at_point(points, j + 1, k);
    }
}

/// The curve passes exactly through a configured point `(x, y)` (the `k`-th,
/// counting from 0) whenever `x` is above 0 and above every point before it.
pub proof fn lemma_curve_exact_at_point(points: Seq<[u32; 2]>, k: int)
    requires
        0 <= k < points.len(),
        points[k][0] > 0,
        forall|i: int| 0 <= i < k ==> points[i][0] < points[k][0],
    ensures
        curve_duty(points, points[k][0] as int) == points[k][1] as int,
{
    assert forall|i: int| 1 <= i < k + 1 implies #[trigger] curve_x(points, i) < curve_x(points, k + 1) by {
        assert(curve_x(points, i) == points[i - 1][0]);
    }
    lemma_duty_from_at_point(points, 1, k + 1);
}

/// One rate-limited step from `current` toward `target`, by at most
/// `max_change` in either direction.
pub open spec fn rate_step(current: int, target: int, max_change: int) -> int {
    if target > current {
        if current + max_change < target { current + max_change } else { target }
    } else {
        if current - max_change > target { current - max_change } else { target }
    }
}

/// Step from `current` toward `target` by at most `max_change`.
pub fn apply_rate_limit(current: u32, target: u32, max_change: u32) -> (r: u32)
    ensures
        r as int == rate_step(current as int, target as int, max_change as int),
        current <= target ==> current <= r <= target,
        target <= current ==> target <= r <= current,
        r as int - current as int <= max_change as int,
        current as int - r as int <= max_change as int,
{
    if target > current {
        let stepped = current.saturating_add(max_change);
        if stepped < target { stepped } else { target }
    } else {
        let stepped = current.saturating_sub(max_change);
        if stepped > target { stepped } else { target }
    }
}

} // verus!
