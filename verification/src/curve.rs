//! Fan curves: an ordered list of temperature-to-duty points and the linear
//! interpolation between them.
//!
//! Temperatures are whole millidegrees Celsius, the unit in which the kernel
//! reports them; duties are PWM values from 0 to 255.

use vstd::arithmetic::div_mod::{
    lemma_div_is_ordered, lemma_fundamental_div_mod, lemma_fundamental_div_mod_converse,
    lemma_mod_bound,
};
use vstd::prelude::*;
use vstd::string::*;

use crate::text::{decimal, first_match, has_name, push_decimal};

verus! {

/// A single point on a fan curve.
#[derive(Debug, Clone, Copy, PartialEq, Eq, Structural)]
pub struct CurvePoint {
    /// Temperature in millidegrees Celsius.
    pub temp_mc: i64,
    /// PWM duty value (0-255).
    pub pwm: u8,
}

/// A named fan curve with an ordered list of temperature-to-PWM points.
#[derive(Debug, PartialEq, Eq)]
pub struct FanCurve {
    /// Unique name for this curve.
    pub name: String,
    /// The points; [`FanCurve::new`] stores them sorted by ascending
    /// temperature. A usable curve has at least two, with no temperature
    /// twice.
    pub points: Vec<CurvePoint>,
}

/// What a [`FanCurve`] holds, as mathematical values.
pub struct FanCurveView {
    pub name: Seq<char>,
    pub points: Seq<CurvePoint>,
}

impl View for FanCurve {
    type V = FanCurveView;

    open spec fn view(&self) -> FanCurveView {
        FanCurveView { name: self.name@, points: self.points@ }
    }
}

impl DeepView for FanCurve {
    type V = FanCurveView;

    open spec fn deep_view(&self) -> FanCurveView {
        self@
    }
}

/// Temperatures never fall from one point to the next.
pub open spec fn ordered(points: Seq<CurvePoint>) -> bool {
    forall|i: int, j: int|
        0 <= i < j < points.len() ==> (#[trigger] points[i]).temp_mc <= (#[trigger] points[j]).temp_mc
}

/// Temperatures rise from each point to the next, with no ties.
pub open spec fn strictly_increasing(points: Seq<CurvePoint>) -> bool {
    forall|i: int, j: int|
        0 <= i < j < points.len() ==> (#[trigger] points[i]).temp_mc < (#[trigger] points[j]).temp_mc
}

/// Duties never fall from one point to the next.
pub open spec fn duties_rising(points: Seq<CurvePoint>) -> bool {
    forall|i: int, j: int|
        0 <= i < j < points.len() ==> (#[trigger] points[i]).pwm <= (#[trigger] points[j]).pwm
}

/// A curve that can drive a fan: two points or more, strictly increasing
/// temperatures.
pub open spec fn valid_points(points: Seq<CurvePoint>) -> bool {
    points.len() >= 2 && strictly_increasing(points)
}

/// `v` limited to the range of a PWM duty.
pub open spec fn clamp_duty(v: int) -> int {
    if v < 0 {
        0
    } else if v > 255 {
        255
    } else {
        v
    }
}

/// The quotient `num / den` rounded to the nearest integer, halves upwards,
/// for a positive `den`.
pub open spec fn round_half_up(num: int, den: int) -> int {
    (2 * num + den) / (2 * den)
}

/// The duty on the straight line from `lo` to `hi` at temperature `t`,
/// rounded to the nearest integer and clamped. Two points at one temperature
/// give the duty of `lo`.
pub open spec fn segment_duty(lo: CurvePoint, hi: CurvePoint, t: int) -> int {
    let span = hi.temp_mc - lo.temp_mc;
    if span == 0 {
        lo.pwm as int
    } else {
        clamp_duty(round_half_up(lo.pwm * span + (t - lo.temp_mc) * (hi.pwm - lo.pwm), span))
    }
}

/// Whether `t` lies between the temperatures of point `i` and the one after
/// it.
pub open spec fn brackets(points: Seq<CurvePoint>, i: int, t: int) -> bool {
    0 <= i && i + 1 < points.len() && points[i].temp_mc <= t <= points[i + 1].temp_mc
}

/// The first index at or after `from` whose pair of points brackets `t`;
/// `points.len() - 1` when no pair does.
pub open spec fn first_bracket(points: Seq<CurvePoint>, t: int, from: int) -> int
    decreases points.len() - from,
{
    if from < 0 || from + 1 >= points.len() {
        points.len() - 1
    } else if brackets(points, from, t) {
        from
    } else {
        first_bracket(points, t, from + 1)
    }
}

/// The duty that a curve through `points` gives at temperature `t`.
///
/// No points give 0. At or below the first point's temperature, or with a
/// single point, the first point's duty; at or above the last point's
/// temperature, the last point's duty. In between, the duty on the segment
/// of the first pair of neighbours that brackets `t`; where the points are
/// out of order and no pair does, the last point's duty.
pub open spec fn interpolated(points: Seq<CurvePoint>, t: int) -> int {
    if points.len() == 0 {
        0
    } else if points.len() == 1 || t <= points[0].temp_mc {
        points[0].pwm as int
    } else if t >= points.last().temp_mc {
        points.last().pwm as int
    } else {
        let i = first_bracket(points, t, 0);
        if i + 1 < points.len() {
            segment_duty(points[i], points[i + 1], t)
        } else {
            points.last().pwm as int
        }
    }
}

/// The product of an offset within a span and a duty difference stays
/// within the product of their bounds.
proof fn lemma_offset_product_bounds(off: int, span: int, rise: int)
    requires
        0 <= off <= span,
        0 <= rise <= 255,
    ensures
        0 <= off * rise <= span * rise,
        span * rise <= span * 255,
{
    assert(0 <= off * rise <= span * rise) by (nonlinear_arith)
        requires
            0 <= off <= span,
            0 <= rise,
    ;
    assert(span * rise <= span * 255) by (nonlinear_arith)
        requires
            0 <= span,
            rise <= 255,
    ;
}

/// The duty on the segment from `lo` to `hi` at `t`.
fn segment(lo: CurvePoint, hi: CurvePoint, t: i64) -> (r: u8)
    requires
        lo.temp_mc <= t <= hi.temp_mc,
    ensures
        r == segment_duty(lo, hi, t as int),
{
    let span: u128 = (hi.temp_mc as i128 - lo.temp_mc as i128) as u128;
    if span == 0 {
        return lo.pwm;
    }
    let off: u128 = (t as i128 - lo.temp_mc as i128) as u128;
    assert(span <= 0xffff_ffff_ffff_ffff && off <= span);
    assert(0 <= lo.pwm * span <= 255 * 0xffff_ffff_ffff_ffff) by (nonlinear_arith)
        requires
            0 <= lo.pwm <= 255,
            0 <= span <= 0xffff_ffff_ffff_ffff,
    ;
    let base: u128 = (lo.pwm as u128) * span;
    let num: u128 = if hi.pwm >= lo.pwm {
        let rise: u128 = (hi.pwm - lo.pwm) as u128;
        proof {
            lemma_offset_product_bounds(off as int, span as int, rise as int);
            assert(off * (hi.pwm - lo.pwm) == (t - lo.temp_mc) * (hi.pwm - lo.pwm));
        }
        base + off * rise
    } else {
        let fall: u128 = (lo.pwm - hi.pwm) as u128;
        proof {
            lemma_offset_product_bounds(off as int, span as int, fall as int);
            assert(span * fall <= lo.pwm * span) by (nonlinear_arith)
                requires
                    0 <= span,
                    fall <= lo.pwm,
            ;
            assert((t - lo.temp_mc) * (hi.pwm - lo.pwm) == -(off * fall)) by (nonlinear_arith)
                requires
                    off == t - lo.temp_mc,
                    fall == lo.pwm - hi.pwm,
            ;
        }
        base - off * fall
    };
    assert(num == lo.pwm * span + (t - lo.temp_mc) * (hi.pwm - lo.pwm));
    let q: u128 = (2 * num + span) / (2 * span);
    if q > 255 {
        255
    } else {
        q as u8
    }
}

impl FanCurve {
    /// The PWM duty for a temperature in millidegrees Celsius.
    ///
    /// Below the lowest point the lowest point's duty, above the highest
    /// point the highest point's duty, linear interpolation in between.
    pub fn interpolate(&self, temp_mc: i64) -> (duty: u8)
        ensures
            duty == interpolated(self.points@, temp_mc as int),
            self.points@.len() == 0 ==> duty == 0,
            self.points@.len() > 0 && temp_mc <= self.points@[0].temp_mc ==> duty
                == self.points@[0].pwm,
            self.points@.len() > 1 && temp_mc > self.points@[0].temp_mc && temp_mc
                >= self.points@.last().temp_mc ==> duty == self.points@.last().pwm,
    {
        let n = self.points.len();
        if n == 0 {
            return 0;
        }
        if n == 1 || temp_mc <= self.points[0].temp_mc {
            return self.points[0].pwm;
        }
        let last = self.points[n - 1];
        if temp_mc >= last.temp_mc {
            return last.pwm;
        }
        let mut i: usize = 0;
        while i + 1 < n
            invariant
                n == self.points@.len(),
                i < n,
                n >= 2,
                last == self.points@.last(),
                self.points@[0].temp_mc < temp_mc < last.temp_mc,
                first_bracket(self.points@, temp_mc as int, 0) == first_bracket(
                    self.points@,
                    temp_mc as int,
                    i as int,
                ),
            decreases n - i,
        {
            let lo = self.points[i];
            let hi = self.points[i + 1];
            if temp_mc >= lo.temp_mc && temp_mc <= hi.temp_mc {
                return segment(lo, hi, temp_mc);
            }
            i += 1;
        }
        last.pwm
    }
}

/// `sorted` with `p` put in after the last point that is not warmer than
/// `p`.
pub open spec fn insert_ordered(sorted: Seq<CurvePoint>, p: CurvePoint) -> Seq<CurvePoint>
    decreases sorted.len(),
{
    if sorted.len() == 0 || sorted.last().temp_mc <= p.temp_mc {
        sorted.push(p)
    } else {
        insert_ordered(sorted.drop_last(), p).push(sorted.last())
    }
}

/// The points of `points` in ascending order of temperature; points of equal
/// temperature keep the order in which they were given.
pub open spec fn sorted_by_temp(points: Seq<CurvePoint>) -> Seq<CurvePoint>
    decreases points.len(),
{
    if points.len() == 0 {
        points
    } else {
        insert_ordered(sorted_by_temp(points.drop_last()), points.last())
    }
}

/// Putting a point into an ordered sequence at the place found from the
/// back is `insert_ordered`.
proof fn lemma_insert_at(sorted: Seq<CurvePoint>, p: CurvePoint, at: int)
    requires
        0 <= at <= sorted.len(),
        at > 0 ==> sorted[at - 1].temp_mc <= p.temp_mc,
        forall|k: int| at <= k < sorted.len() ==> (#[trigger] sorted[k]).temp_mc > p.temp_mc,
    ensures
        insert_ordered(sorted, p) == sorted.insert(at, p),
    decreases sorted.len() - at,
{
    if at == sorted.len() {
        assert(sorted.push(p) =~= sorted.insert(at, p));
    } else {
        let front = sorted.drop_last();
        assert(sorted.last() == sorted[sorted.len() - 1]);
        assert(sorted.last().temp_mc > p.temp_mc);
        assert forall|k: int| at <= k < front.len() implies (#[trigger] front[k]).temp_mc
            > p.temp_mc by {
            assert(front[k] == sorted[k]);
        }
        if at > 0 {
            assert(front[at - 1] == sorted[at - 1]);
        }
        lemma_insert_at(front, p, at);
        assert(front.insert(at, p).push(sorted.last()) =~= sorted.insert(at, p));
    }
}

/// Inserting into an ordered sequence keeps it ordered and adds exactly the
/// new point.
pub proof fn lemma_insert_ordered(sorted: Seq<CurvePoint>, p: CurvePoint)
    requires
        ordered(sorted),
    ensures
        ordered(insert_ordered(sorted, p)),
        insert_ordered(sorted, p).len() == sorted.len() + 1,
        insert_ordered(sorted, p).to_multiset() == sorted.to_multiset().insert(p),
    decreases sorted.len(),
{
    broadcast use vstd::seq_lib::group_to_multiset_ensures;

    let out = insert_ordered(sorted, p);
    if sorted.len() == 0 || sorted.last().temp_mc <= p.temp_mc {
        assert forall|i: int, j: int| 0 <= i < j < out.len() implies (#[trigger] out[i]).temp_mc
            <= (#[trigger] out[j]).temp_mc by {
            if j == sorted.len() {
                assert(out[i] == sorted[i]);
                assert(sorted[i].temp_mc <= sorted.last().temp_mc);
            } else {
                assert(out[i] == sorted[i] && out[j] == sorted[j]);
            }
        }
    } else {
        let front = sorted.drop_last();
        let last = sorted.last();
        assert forall|i: int, j: int| 0 <= i < j < front.len() implies (#[trigger] front[i]).temp_mc
            <= (#[trigger] front[j]).temp_mc by {
            assert(front[i] == sorted[i] && front[j] == sorted[j]);
        }
        lemma_insert_ordered(front, p);
        let inner = insert_ordered(front, p);
        assert(out == inner.push(last));
        assert forall|k: int| 0 <= k < inner.len() implies (#[trigger] inner[k]).temp_mc
            <= last.temp_mc by {
            assert(inner.to_multiset().count(inner[k]) > 0);
            if inner[k] != p {
                assert(front.to_multiset().count(inner[k]) > 0);
                assert(front.contains(inner[k]));
                let w = choose|w: int| 0 <= w < front.len() && front[w] == inner[k];
                assert(front[w] == sorted[w]);
                assert(sorted[w].temp_mc <= sorted[sorted.len() - 1].temp_mc);
            }
        }
        assert forall|i: int, j: int| 0 <= i < j < out.len() implies (#[trigger] out[i]).temp_mc
            <= (#[trigger] out[j]).temp_mc by {
            if j == inner.len() {
                assert(out[i] == inner[i]);
            } else {
                assert(out[i] == inner[i] && out[j] == inner[j]);
            }
        }
        assert(sorted =~= front.push(last));
        assert(out.to_multiset() =~= sorted.to_multiset().insert(p));
    }
}

/// Sorting orders the points, and neither adds nor drops one.
pub proof fn lemma_sorted_by_temp(points: Seq<CurvePoint>)
    ensures
        ordered(sorted_by_temp(points)),
        sorted_by_temp(points).len() == points.len(),
        sorted_by_temp(points).to_multiset() == points.to_multiset(),
    decreases points.len(),
{
    broadcast use vstd::seq_lib::group_to_multiset_ensures;

    if points.len() > 0 {
        lemma_sorted_by_temp(points.drop_last());
        lemma_insert_ordered(sorted_by_temp(points.drop_last()), points.last());
        assert(points =~= points.drop_last().push(points.last()));
    }
}

/// Points that are already in order are left as they are.
pub proof fn lemma_sorted_of_ordered(points: Seq<CurvePoint>)
    requires
        ordered(points),
    ensures
        sorted_by_temp(points) == points,
    decreases points.len(),
{
    if points.len() > 0 {
        let front = points.drop_last();
        assert forall|i: int, j: int| 0 <= i < j < front.len() implies (#[trigger] front[i]).temp_mc
            <= (#[trigger] front[j]).temp_mc by {
            assert(front[i] == points[i] && front[j] == points[j]);
        }
        lemma_sorted_of_ordered(front);
        if front.len() > 0 {
            assert(front.last() == points[points.len() - 2]);
            assert(points[points.len() - 2].temp_mc <= points[points.len() - 1].temp_mc);
        }
        assert(front.push(points.last()) =~= points);
    }
}

/// The message for a curve of fewer than two points.
pub open spec fn too_few_points_message() -> Seq<char> {
    "Curve must have at least 2 points"@
}

/// The message for a curve whose point `index` is not warmer than the point
/// before it.
pub open spec fn not_increasing_message(index: int) -> Seq<char> {
    "Points must have strictly increasing temperatures (point "@ + decimal(index as nat) + ")"@
}

/// The first index at or after `from` whose point is not warmer than the
/// point before it; `points.len()` when there is none.
pub open spec fn first_descent(points: Seq<CurvePoint>, from: int) -> int
    decreases points.len() - from,
{
    if from < 1 || from >= points.len() {
        points.len() as int
    } else if points[from].temp_mc <= points[from - 1].temp_mc {
        from
    } else {
        first_descent(points, from + 1)
    }
}

/// Why `points` cannot drive a fan, or `None` if they can.
pub open spec fn validation_failure(points: Seq<CurvePoint>) -> Option<Seq<char>> {
    if points.len() < 2 {
        Some(too_few_points_message())
    } else if first_descent(points, 1) < points.len() {
        Some(not_increasing_message(first_descent(points, 1)))
    } else {
        None
    }
}

/// Points whose every neighbour is warmer than the one before are strictly
/// increasing throughout.
pub proof fn lemma_neighbours_increasing(points: Seq<CurvePoint>)
    requires
        forall|k: int| 1 <= k < points.len() ==> points[k - 1].temp_mc < (#[trigger] points[k]).temp_mc,
    ensures
        strictly_increasing(points),
{
    assert forall|i: int, j: int| 0 <= i < j < points.len() implies (#[trigger] points[i]).temp_mc
        < (#[trigger] points[j]).temp_mc by {
        lemma_climb(points, i, j);
    }
}

proof fn lemma_climb(points: Seq<CurvePoint>, i: int, j: int)
    requires
        forall|k: int| 1 <= k < points.len() ==> points[k - 1].temp_mc < (#[trigger] points[k]).temp_mc,
        0 <= i < j < points.len(),
    ensures
        points[i].temp_mc < points[j].temp_mc,
    decreases j - i,
{
    assert(points[j - 1].temp_mc < points[j].temp_mc);
    if i < j - 1 {
        lemma_climb(points, i, j - 1);
    }
}

/// A curve is rejected exactly when it has fewer than two points or its
/// temperatures fail to rise somewhere.
pub proof fn lemma_validation_failure(points: Seq<CurvePoint>)
    ensures
        validation_failure(points) is None <==> valid_points(points),
{
    if points.len() >= 2 {
        lemma_first_descent(points, 1);
        let d = first_descent(points, 1);
        if d < points.len() {
            assert(points[d - 1].temp_mc >= points[d].temp_mc);
        } else {
            lemma_neighbours_increasing(points);
        }
    }
}

/// `first_descent` finds a descent, and no descent lies between `from` and
/// it.
pub proof fn lemma_first_descent(points: Seq<CurvePoint>, from: int)
    requires
        1 <= from,
    ensures
        from <= first_descent(points, from) || first_descent(points, from) == points.len(),
        first_descent(points, from) <= points.len(),
        first_descent(points, from) < points.len() ==> points[first_descent(points, from)].temp_mc
            <= points[first_descent(points, from) - 1].temp_mc,
        forall|k: int|
            from <= k < first_descent(points, from) ==> points[k - 1].temp_mc < (
            #[trigger] points[k]).temp_mc,
    decreases points.len() - from,
{
    if from < points.len() && points[from].temp_mc > points[from - 1].temp_mc {
        lemma_first_descent(points, from + 1);
    }
}

/// A copy of `points`.
fn copy_points(points: &Vec<CurvePoint>) -> (r: Vec<CurvePoint>)
    ensures
        r@ == points@,
{
    let mut out: Vec<CurvePoint> = Vec::new();
    let mut i: usize = 0;
    while i < points.len()
        invariant
            i <= points@.len(),
            out@ == points@.subrange(0, i as int),
        decreases points@.len() - i,
    {
        out.push(points[i]);
        i += 1;
        assert(out@ =~= points@.subrange(0, i as int));
    }
    assert(out@ =~= points@);
    out
}

impl Clone for FanCurve {
    fn clone(&self) -> (r: Self)
        ensures
            r@ == self@,
    {
        FanCurve { name: self.name.clone(), points: copy_points(&self.points) }
    }
}

/// The points of `points` in ascending order of temperature; points of
/// equal temperature keep the order in which they stand.
pub fn sort_points(points: &Vec<CurvePoint>) -> (sorted: Vec<CurvePoint>)
    ensures
        sorted@ == sorted_by_temp(points@),
        ordered(sorted@),
        sorted@.to_multiset() == points@.to_multiset(),
{
    let mut sorted: Vec<CurvePoint> = Vec::new();
    let mut k: usize = 0;
    while k < points.len()
        invariant
            k <= points@.len(),
            sorted@ == sorted_by_temp(points@.subrange(0, k as int)),
        decreases points@.len() - k,
    {
        let p = points[k];
        let mut at: usize = sorted.len();
        while at > 0 && sorted[at - 1].temp_mc > p.temp_mc
            invariant
                at <= sorted@.len(),
                forall|j: int| at <= j < sorted@.len() ==> (#[trigger] sorted@[j]).temp_mc
                    > p.temp_mc,
            decreases at,
        {
            at -= 1;
        }
        proof {
            lemma_insert_at(sorted@, p, at as int);
            let next = points@.subrange(0, k + 1);
            assert(next.drop_last() =~= points@.subrange(0, k as int));
            assert(next.last() == p);
        }
        sorted.insert(at, p);
        k += 1;
    }
    proof {
        assert(points@.subrange(0, k as int) =~= points@);
        lemma_sorted_by_temp(points@);
    }
    sorted
}

impl FanCurve {
    /// Create a new fan curve. Points are sorted by temperature; points of
    /// equal temperature keep their order.
    pub fn new(name: String, points: Vec<CurvePoint>) -> (curve: Self)
        ensures
            curve.name == name,
            curve.points@ == sorted_by_temp(points@),
            ordered(curve.points@),
            curve.points@.to_multiset() == points@.to_multiset(),
    {
        let sorted = sort_points(&points);
        FanCurve { name, points: sorted }
    }

    /// Whether the curve can drive a fan: it has at least two points, and
    /// taken in ascending order their temperatures rise strictly from each
    /// point to the next. The order in which the points are stored does not
    /// matter.
    pub open spec fn is_valid(&self) -> bool {
        valid_points(sorted_by_temp(self.points@))
    }

    /// Checks that the curve has at least two points and that, taken in
    /// ascending order, their temperatures rise strictly; the error says
    /// which of the two failed, and at which point of the ascending order.
    pub fn validate(&self) -> (r: Result<(), String>)
        ensures
            r is Ok <==> self.is_valid(),
            r is Ok <==> self.points@.len() >= 2 && distinct_temps(self.points@),
            match r {
                Ok(_) => validation_failure(sorted_by_temp(self.points@)) is None,
                Err(message) => validation_failure(sorted_by_temp(self.points@)) == Some(
                    message@,
                ),
            },
    {
        let sorted = sort_points(&self.points);
        proof {
            lemma_validation_failure(sorted@);
            lemma_valid_after_sorting(self.points@);
        }
        let n = sorted.len();
        if n < 2 {
            return Err(String::from_str("Curve must have at least 2 points"));
        }
        let mut i: usize = 1;
        while i < n
            invariant
                1 <= i <= n,
                n == sorted@.len(),
                sorted@ == sorted_by_temp(self.points@),
                validation_failure(sorted@) is None <==> valid_points(sorted@),
                valid_points(sorted@) <==> self.points@.len() >= 2 && distinct_temps(
                    self.points@,
                ),
                first_descent(sorted@, 1) == first_descent(sorted@, i as int),
            decreases n - i,
        {
            if sorted[i].temp_mc <= sorted[i - 1].temp_mc {
                let mut message = String::from_str(
                    "Points must have strictly increasing temperatures (point ",
                );
                push_decimal(&mut message, i as u64);
                message.append(")");
                return Err(message);
            }
            i += 1;
        }
        Ok(())
    }
}

/// The points of the default "silent" curve.
pub open spec fn silent_points() -> Seq<CurvePoint> {
    seq![
        CurvePoint { temp_mc: 30_000, pwm: 0 },
        CurvePoint { temp_mc: 50_000, pwm: 64 },
        CurvePoint { temp_mc: 70_000, pwm: 153 },
        CurvePoint { temp_mc: 80_000, pwm: 204 },
        CurvePoint { temp_mc: 90_000, pwm: 255 },
    ]
}

/// The points of the default "performance" curve.
pub open spec fn performance_points() -> Seq<CurvePoint> {
    seq![
        CurvePoint { temp_mc: 30_000, pwm: 64 },
        CurvePoint { temp_mc: 50_000, pwm: 128 },
        CurvePoint { temp_mc: 65_000, pwm: 204 },
        CurvePoint { temp_mc: 75_000, pwm: 255 },
    ]
}

/// A default "silent" curve: low speed until 50 degrees, full speed at 90.
pub fn default_silent_curve() -> (curve: FanCurve)
    ensures
        curve.name@ == "silent"@,
        curve.points@ == silent_points(),
        curve.is_valid(),
{
    let mut points: Vec<CurvePoint> = Vec::new();
    points.push(CurvePoint { temp_mc: 30_000, pwm: 0 });
    points.push(CurvePoint { temp_mc: 50_000, pwm: 64 });
    points.push(CurvePoint { temp_mc: 70_000, pwm: 153 });
    points.push(CurvePoint { temp_mc: 80_000, pwm: 204 });
    points.push(CurvePoint { temp_mc: 90_000, pwm: 255 });
    proof {
        assert(points@ =~= silent_points());
        lemma_sorted_of_ordered(points@);
    }
    FanCurve::new(String::from_str("silent"), points)
}

/// A default "performance" curve: always some airflow, aggressive ramp.
pub fn default_performance_curve() -> (curve: FanCurve)
    ensures
        curve.name@ == "performance"@,
        curve.points@ == performance_points(),
        curve.is_valid(),
{
    let mut points: Vec<CurvePoint> = Vec::new();
    points.push(CurvePoint { temp_mc: 30_000, pwm: 64 });
    points.push(CurvePoint { temp_mc: 50_000, pwm: 128 });
    points.push(CurvePoint { temp_mc: 65_000, pwm: 204 });
    points.push(CurvePoint { temp_mc: 75_000, pwm: 255 });
    proof {
        assert(points@ =~= performance_points());
        lemma_sorted_of_ordered(points@);
    }
    FanCurve::new(String::from_str("performance"), points)
}

/// Rounding a whole number of spans plus half a span gives that whole
/// number.
proof fn lemma_round_at_point(duty: int, span: int)
    requires
        span > 0,
    ensures
        round_half_up(duty * span, span) == duty,
{
    assert(2 * (duty * span) + span == duty * (2 * span) + span) by (nonlinear_arith);
    lemma_fundamental_div_mod_converse(2 * (duty * span) + span, 2 * span, duty, span);
}

/// On a rising segment the duty rises with the temperature, from the duty of
/// `lo` to the duty of `hi`.
pub proof fn lemma_segment_rising(lo: CurvePoint, hi: CurvePoint, t1: int, t2: int)
    requires
        lo.temp_mc < hi.temp_mc,
        lo.pwm <= hi.pwm,
        lo.temp_mc <= t1 <= t2 <= hi.temp_mc,
    ensures
        lo.pwm <= segment_duty(lo, hi, t1) <= segment_duty(lo, hi, t2) <= hi.pwm,
        segment_duty(lo, hi, lo.temp_mc as int) == lo.pwm,
        segment_duty(lo, hi, hi.temp_mc as int) == hi.pwm,
{
    let span = hi.temp_mc - lo.temp_mc;
    let rise = hi.pwm - lo.pwm;
    let n0 = lo.pwm * span;
    let n1 = lo.pwm * span + (t1 - lo.temp_mc) * rise;
    let n2 = lo.pwm * span + (t2 - lo.temp_mc) * rise;
    let n3 = hi.pwm * span;
    assert(n0 <= n1 <= n2 <= n3) by (nonlinear_arith)
        requires
            n0 == lo.pwm * span,
            n1 == lo.pwm * span + (t1 - lo.temp_mc) * rise,
            n2 == lo.pwm * span + (t2 - lo.temp_mc) * rise,
            n3 == hi.pwm * span,
            rise == hi.pwm - lo.pwm,
            rise >= 0,
            span == hi.temp_mc - lo.temp_mc,
            lo.temp_mc <= t1 <= t2 <= hi.temp_mc,
    ;
    lemma_round_at_point(lo.pwm as int, span);
    lemma_round_at_point(hi.pwm as int, span);
    lemma_div_is_ordered(2 * n0 + span, 2 * n1 + span, 2 * span);
    lemma_div_is_ordered(2 * n1 + span, 2 * n2 + span, 2 * span);
    lemma_div_is_ordered(2 * n2 + span, 2 * n3 + span, 2 * span);
    assert(lo.pwm * span + (lo.temp_mc - lo.temp_mc) * rise == n0) by (nonlinear_arith)
        requires
            n0 == lo.pwm * span,
    ;
    assert(lo.pwm * span + (hi.temp_mc - lo.temp_mc) * rise == n3) by (nonlinear_arith)
        requires
            n3 == hi.pwm * span,
            rise == hi.pwm - lo.pwm,
            span == hi.temp_mc - lo.temp_mc,
    ;
}

/// What `first_bracket` finds from `from` on: an index in range, which
/// brackets `t` unless it is the last, with no bracketing pair before it.
pub proof fn lemma_first_bracket(points: Seq<CurvePoint>, t: int, from: int)
    requires
        0 <= from < points.len(),
    ensures
        from <= first_bracket(points, t, from) < points.len(),
        first_bracket(points, t, from) + 1 < points.len() ==> brackets(
            points,
            first_bracket(points, t, from),
            t,
        ),
        forall|k: int| from <= k < first_bracket(points, t, from) ==> !brackets(points, k, t),
    decreases points.len() - from,
{
    if from + 1 < points.len() && !brackets(points, from, t) {
        lemma_first_bracket(points, t, from + 1);
    }
}

/// Between the first and the last temperature of a curve with rising
/// temperatures, some pair of neighbours brackets `t`.
proof fn lemma_bracket_exists(points: Seq<CurvePoint>, t: int, from: int)
    requires
        0 <= from < points.len(),
        points[from].temp_mc <= t < points.last().temp_mc,
    ensures
        first_bracket(points, t, from) + 1 < points.len(),
    decreases points.len() - from,
{
    if from + 1 < points.len() && !brackets(points, from, t) {
        lemma_bracket_exists(points, t, from + 1);
    }
}

/// The duty of a valid curve with rising duties lies between the duties of
/// its first and last point.
pub proof fn lemma_interpolated_between(points: Seq<CurvePoint>, t: int)
    requires
        valid_points(points),
        duties_rising(points),
    ensures
        points[0].pwm <= interpolated(points, t) <= points.last().pwm,
{
    let n = points.len() as int;
    assert(points[0].pwm <= points[n - 1].pwm);
    if points[0].temp_mc < t < points.last().temp_mc {
        lemma_first_bracket(points, t, 0);
        lemma_bracket_exists(points, t, 0);
        let i = first_bracket(points, t, 0);
        assert(points[i].temp_mc < points[i + 1].temp_mc);
        assert(points[i].pwm <= points[i + 1].pwm);
        lemma_segment_rising(points[i], points[i + 1], t, t);
        if 0 < i {
            assert(points[0].pwm <= points[i].pwm);
        }
        if i + 1 < n - 1 {
            assert(points[i + 1].pwm <= points[n - 1].pwm);
        }
    }
}

/// Whatever the points, the duty is a PWM value.
pub proof fn lemma_interpolated_in_range(points: Seq<CurvePoint>, t: int)
    ensures
        0 <= interpolated(points, t) <= 255,
{
    if points.len() > 1 {
        lemma_first_bracket(points, t, 0);
    }
}

/// Outside the curve there is no extrapolation: at or below the first
/// temperature the duty is the first point's, at or above the last
/// temperature it is the last point's.
pub proof fn lemma_interpolated_outside(points: Seq<CurvePoint>, t: int)
    requires
        valid_points(points),
    ensures
        t <= points[0].temp_mc ==> interpolated(points, t) == points[0].pwm,
        t >= points.last().temp_mc ==> interpolated(points, t) == points.last().pwm,
{
    assert(points[0].temp_mc < points[points.len() - 1].temp_mc);
}

/// On a valid curve the duty at the temperature of a point is that point's
/// duty.
pub proof fn lemma_interpolated_at_point(points: Seq<CurvePoint>, k: int)
    requires
        valid_points(points),
        0 <= k < points.len(),
    ensures
        interpolated(points, points[k].temp_mc as int) == points[k].pwm,
{
    let n = points.len() as int;
    let t = points[k].temp_mc as int;
    assert(points[0].temp_mc < points[n - 1].temp_mc);
    if 0 < k < n - 1 {
        assert(points[0].temp_mc < points[k].temp_mc);
        assert(points[k].temp_mc < points[n - 1].temp_mc);
        lemma_first_bracket(points, t, 0);
        lemma_bracket_exists(points, t, 0);
        let i = first_bracket(points, t, 0);
        assert(brackets(points, k - 1, t)) by {
            assert(points[k - 1].temp_mc < points[k].temp_mc);
        }
        assert(i <= k - 1);
        if i < k - 1 {
            assert(points[i + 1].temp_mc < points[k].temp_mc);
        }
        assert(i == k - 1);
        let lo = points[i];
        let hi = points[k];
        let span = hi.temp_mc - lo.temp_mc;
        assert(lo.temp_mc < hi.temp_mc);
        assert(lo.pwm * span + (t - lo.temp_mc) * (hi.pwm - lo.pwm) == hi.pwm * span)
            by (nonlinear_arith)
            requires
                span == hi.temp_mc - lo.temp_mc,
                t == hi.temp_mc,
        ;
        lemma_round_at_point(hi.pwm as int, span);
    }
}

/// On a valid curve whose duties never fall from point to point, the duty
/// never falls as the temperature rises.
pub proof fn lemma_interpolated_monotonic(points: Seq<CurvePoint>, t1: int, t2: int)
    requires
        valid_points(points),
        duties_rising(points),
        t1 <= t2,
    ensures
        interpolated(points, t1) <= interpolated(points, t2),
{
    let n = points.len() as int;
    lemma_interpolated_between(points, t1);
    lemma_interpolated_between(points, t2);
    assert(points[0].temp_mc < points[n - 1].temp_mc);
    if t1 <= points[0].temp_mc {
    } else if t2 >= points.last().temp_mc {
    } else {
        lemma_first_bracket(points, t1, 0);
        lemma_bracket_exists(points, t1, 0);
        lemma_first_bracket(points, t2, 0);
        lemma_bracket_exists(points, t2, 0);
        let i1 = first_bracket(points, t1, 0);
        let i2 = first_bracket(points, t2, 0);
        assert(points[i1].temp_mc < points[i1 + 1].temp_mc);
        assert(points[i2].temp_mc < points[i2 + 1].temp_mc);
        assert(points[i1].pwm <= points[i1 + 1].pwm);
        assert(points[i2].pwm <= points[i2 + 1].pwm);
        if i2 < i1 {
            assert(points[i2].temp_mc < points[i1].temp_mc);
            assert(brackets(points, i2, t1));
        }
        if i1 == i2 {
            lemma_segment_rising(points[i1], points[i1 + 1], t1, t2);
        } else {
            lemma_segment_rising(points[i1], points[i1 + 1], t1, t1);
            lemma_segment_rising(points[i2], points[i2 + 1], t2, t2);
            if i1 + 1 < i2 {
                assert(points[i1 + 1].pwm <= points[i2].pwm);
            }
        }
    }
}

/// The names of `curves`, in order.
pub open spec fn curve_names(curves: Seq<FanCurveView>) -> Seq<Seq<char>> {
    curves.map_values(|curve: FanCurveView| curve.name)
}

/// The position of the first curve of `curves` named `name`, if there is
/// one.
pub fn find_curve(curves: &Vec<FanCurve>, name: &String) -> (r: Option<usize>)
    ensures
        match r {
            Some(at) => at < curves@.len() && at == first_match(
                curve_names(curves.deep_view()),
                name@,
                0,
            ),
            None => !has_name(curve_names(curves.deep_view()), name@),
        },
{
    let ghost names = curve_names(curves.deep_view());
    let mut i: usize = 0;
    while i < curves.len()
        invariant
            i <= curves@.len(),
            names == curve_names(curves.deep_view()),
            first_match(names, name@, 0) == first_match(names, name@, i as int),
        decreases curves@.len() - i,
    {
        assert(names[i as int] == curves@[i as int].name@);
        if curves[i].name == *name {
            return Some(i);
        }
        i += 1;
    }
    None
}

/// The exact place of the line from `lo` to `hi` at `t`, as a multiple of
/// the span of the segment: the duty on the line times the span.
pub open spec fn line_times_span(lo: CurvePoint, hi: CurvePoint, t: int) -> int {
    lo.pwm * (hi.temp_mc - lo.temp_mc) + (t - lo.temp_mc) * (hi.pwm - lo.pwm)
}

/// Within a segment the duty is the integer nearest to the straight line
/// from `lo` to `hi`, whether the line rises or falls: it lies no more than
/// half a step from the line, a line exactly between two duties giving the
/// higher, and it lies between the duties of the two points.
pub proof fn lemma_segment_nearest(lo: CurvePoint, hi: CurvePoint, t: int)
    requires
        lo.temp_mc < hi.temp_mc,
        lo.temp_mc <= t <= hi.temp_mc,
    ensures
        ({
            let span = hi.temp_mc - lo.temp_mc;
            let duty = segment_duty(lo, hi, t);
            &&& 2 * line_times_span(lo, hi, t) - span < 2 * duty * span <= 2 * line_times_span(
                lo,
                hi,
                t,
            ) + span
            &&& lo.pwm <= duty <= hi.pwm || hi.pwm <= duty <= lo.pwm
        }),
{
    let span = hi.temp_mc - lo.temp_mc;
    let line = line_times_span(lo, hi, t);
    let low = if lo.pwm <= hi.pwm {
        lo.pwm as int
    } else {
        hi.pwm as int
    };
    let high = if lo.pwm <= hi.pwm {
        hi.pwm as int
    } else {
        lo.pwm as int
    };
    assert(low * span <= line <= high * span) by (nonlinear_arith)
        requires
            line == lo.pwm * span + (t - lo.temp_mc) * (hi.pwm - lo.pwm),
            span == hi.temp_mc - lo.temp_mc,
            lo.temp_mc <= t <= hi.temp_mc,
            low == (if lo.pwm <= hi.pwm {
                lo.pwm as int
            } else {
                hi.pwm as int
            }),
            high == (if lo.pwm <= hi.pwm {
                hi.pwm as int
            } else {
                lo.pwm as int
            }),
    ;
    let rounded = round_half_up(line, span);
    lemma_round_at_point(low, span);
    lemma_round_at_point(high, span);
    lemma_div_is_ordered(2 * (low * span) + span, 2 * line + span, 2 * span);
    lemma_div_is_ordered(2 * line + span, 2 * (high * span) + span, 2 * span);
    assert(low <= rounded <= high);
    lemma_fundamental_div_mod(2 * line + span, 2 * span);
    lemma_mod_bound(2 * line + span, 2 * span);
    assert((2 * span) * rounded == 2 * rounded * span) by (nonlinear_arith);
}

/// No two points have the same temperature.
pub open spec fn distinct_temps(points: Seq<CurvePoint>) -> bool {
    forall|i: int, j: int|
        0 <= i < j < points.len() ==> (#[trigger] points[i]).temp_mc != (#[trigger] points[j]).temp_mc
}

/// Whether some point of `points` has the temperature `t`.
pub open spec fn has_temp(points: Seq<CurvePoint>, t: int) -> bool {
    exists|i: int| 0 <= i < points.len() && (#[trigger] points[i]).temp_mc == t
}

/// Inserting a point adds its temperature to those of the sequence and no
/// other.
proof fn lemma_insert_temps(sorted: Seq<CurvePoint>, p: CurvePoint, t: int)
    ensures
        has_temp(insert_ordered(sorted, p), t) <==> has_temp(sorted, t) || t == p.temp_mc,
    decreases sorted.len(),
{
    let out = insert_ordered(sorted, p);
    if sorted.len() == 0 || sorted.last().temp_mc <= p.temp_mc {
        assert(out == sorted.push(p));
        if has_temp(out, t) {
            let i = choose|i: int| 0 <= i < out.len() && (#[trigger] out[i]).temp_mc == t;
            if i < sorted.len() {
                assert(sorted[i].temp_mc == t);
            }
        }
        if has_temp(sorted, t) {
            let i = choose|i: int| 0 <= i < sorted.len() && (#[trigger] sorted[i]).temp_mc == t;
            assert(out[i].temp_mc == t);
        }
        if t == p.temp_mc {
            assert(out[sorted.len() as int].temp_mc == t);
        }
    } else {
        let front = sorted.drop_last();
        let last = sorted.last();
        let inner = insert_ordered(front, p);
        lemma_insert_temps(front, p, t);
        assert(out == inner.push(last));
        if has_temp(out, t) {
            let i = choose|i: int| 0 <= i < out.len() && (#[trigger] out[i]).temp_mc == t;
            if i < inner.len() {
                assert(inner[i].temp_mc == t);
                if has_temp(front, t) {
                    let w = choose|w: int| 0 <= w < front.len() && (#[trigger] front[w]).temp_mc == t;
                    assert(sorted[w].temp_mc == t);
                }
            } else {
                assert(sorted[sorted.len() - 1].temp_mc == t);
            }
        }
        if has_temp(sorted, t) {
            let i = choose|i: int| 0 <= i < sorted.len() && (#[trigger] sorted[i]).temp_mc == t;
            if i < front.len() {
                assert(front[i].temp_mc == t);
                let w = choose|w: int| 0 <= w < inner.len() && (#[trigger] inner[w]).temp_mc == t;
                assert(out[w].temp_mc == t);
            } else {
                assert(out[inner.len() as int].temp_mc == t);
            }
        }
        if t == p.temp_mc {
            let w = choose|w: int| 0 <= w < inner.len() && (#[trigger] inner[w]).temp_mc == t;
            assert(out[w].temp_mc == t);
        }
    }
}

/// Sorting keeps the temperatures: the sorted points have a temperature
/// exactly when the given points have it.
pub proof fn lemma_sorted_temps(points: Seq<CurvePoint>, t: int)
    ensures
        has_temp(sorted_by_temp(points), t) <==> has_temp(points, t),
    decreases points.len(),
{
    if points.len() > 0 {
        let front = points.drop_last();
        lemma_sorted_temps(front, t);
        lemma_insert_temps(sorted_by_temp(front), points.last(), t);
        if has_temp(front, t) {
            let i = choose|i: int| 0 <= i < front.len() && (#[trigger] front[i]).temp_mc == t;
            assert(points[i].temp_mc == t);
        }
        if t == points.last().temp_mc {
            assert(points[points.len() - 1].temp_mc == t);
        }
        if has_temp(points, t) {
            let i = choose|i: int| 0 <= i < points.len() && (#[trigger] points[i]).temp_mc == t;
            if i < front.len() {
                assert(front[i].temp_mc == t);
            }
        }
    }
}

/// Inserting a point into an ordered sequence gives strictly rising
/// temperatures exactly when the sequence had them and did not have the
/// temperature of the point.
proof fn lemma_insert_strict(sorted: Seq<CurvePoint>, p: CurvePoint)
    requires
        ordered(sorted),
    ensures
        strictly_increasing(insert_ordered(sorted, p)) <==> strictly_increasing(sorted)
            && !has_temp(sorted, p.temp_mc as int),
    decreases sorted.len(),
{
    let out = insert_ordered(sorted, p);
    let n = sorted.len() as int;
    if sorted.len() == 0 || sorted.last().temp_mc <= p.temp_mc {
        assert(out == sorted.push(p));
        if strictly_increasing(out) {
            assert forall|i: int, j: int| 0 <= i < j < n implies (#[trigger] sorted[i]).temp_mc
                < (#[trigger] sorted[j]).temp_mc by {
                assert(out[i] == sorted[i] && out[j] == sorted[j]);
            }
            if has_temp(sorted, p.temp_mc as int) {
                let i = choose|i: int|
                    0 <= i < n && (#[trigger] sorted[i]).temp_mc == p.temp_mc as int;
                assert(out[i].temp_mc < out[n].temp_mc);
            }
        }
        if strictly_increasing(sorted) && !has_temp(sorted, p.temp_mc as int) {
            assert forall|i: int, j: int| 0 <= i < j < out.len() implies (#[trigger] out[i]).temp_mc
                < (#[trigger] out[j]).temp_mc by {
                if j == n {
                    assert(out[i] == sorted[i]);
                    assert(sorted[i].temp_mc != p.temp_mc);
                    if i < n - 1 {
                        assert(sorted[i].temp_mc <= sorted[n - 1].temp_mc);
                    }
                } else {
                    assert(out[i] == sorted[i] && out[j] == sorted[j]);
                }
            }
        }
    } else {
        let front = sorted.drop_last();
        let last = sorted.last();
        let inner = insert_ordered(front, p);
        assert forall|i: int, j: int| 0 <= i < j < front.len() implies (#[trigger] front[i]).temp_mc
            <= (#[trigger] front[j]).temp_mc by {
            assert(front[i] == sorted[i] && front[j] == sorted[j]);
        }
        lemma_insert_strict(front, p);
        assert(out == inner.push(last));
        assert(last == sorted[n - 1]);
        if strictly_increasing(out) {
            assert forall|i: int, j: int| 0 <= i < j < inner.len() implies (
            #[trigger] inner[i]).temp_mc < (#[trigger] inner[j]).temp_mc by {
                assert(out[i] == inner[i] && out[j] == inner[j]);
            }
            assert forall|i: int, j: int| 0 <= i < j < n implies (#[trigger] sorted[i]).temp_mc
                < (#[trigger] sorted[j]).temp_mc by {
                if j == n - 1 {
                    assert(front[i] == sorted[i]);
                    lemma_insert_temps(front, p, sorted[i].temp_mc as int);
                    let w = choose|w: int|
                        0 <= w < inner.len() && (#[trigger] inner[w]).temp_mc
                            == sorted[i].temp_mc as int;
                    assert(out[w] == inner[w]);
                    assert(out[w].temp_mc < out[inner.len() as int].temp_mc);
                } else {
                    assert(front[i] == sorted[i] && front[j] == sorted[j]);
                }
            }
            if has_temp(sorted, p.temp_mc as int) {
                let i = choose|i: int|
                    0 <= i < n && (#[trigger] sorted[i]).temp_mc == p.temp_mc as int;
                if i < n - 1 {
                    assert(front[i].temp_mc == p.temp_mc);
                }
            }
        }
        if strictly_increasing(sorted) && !has_temp(sorted, p.temp_mc as int) {
            assert forall|i: int, j: int| 0 <= i < j < front.len() implies (
            #[trigger] front[i]).temp_mc < (#[trigger] front[j]).temp_mc by {
                assert(front[i] == sorted[i] && front[j] == sorted[j]);
            }
            if has_temp(front, p.temp_mc as int) {
                let i = choose|i: int|
                    0 <= i < front.len() && (#[trigger] front[i]).temp_mc == p.temp_mc as int;
                assert(sorted[i].temp_mc == p.temp_mc);
            }
            assert(strictly_increasing(inner));
            assert forall|i: int, j: int| 0 <= i < j < out.len() implies (#[trigger] out[i]).temp_mc
                < (#[trigger] out[j]).temp_mc by {
                if j == inner.len() {
                    assert(out[i] == inner[i]);
                    lemma_insert_temps(front, p, inner[i].temp_mc as int);
                    if has_temp(front, inner[i].temp_mc as int) {
                        let w = choose|w: int|
                            0 <= w < front.len() && (#[trigger] front[w]).temp_mc
                                == inner[i].temp_mc as int;
                        assert(front[w] == sorted[w]);
                        assert(sorted[w].temp_mc < sorted[n - 1].temp_mc);
                    }
                } else {
                    assert(out[i] == inner[i] && out[j] == inner[j]);
                }
            }
        }
    }
}

/// Taken in ascending order, the temperatures rise strictly exactly when no
/// two points have the same temperature.
pub proof fn lemma_sorted_strict(points: Seq<CurvePoint>)
    ensures
        strictly_increasing(sorted_by_temp(points)) <==> distinct_temps(points),
    decreases points.len(),
{
    if points.len() > 0 {
        let front = points.drop_last();
        let last = points.last();
        let n = points.len() as int;
        lemma_sorted_strict(front);
        lemma_sorted_by_temp(front);
        lemma_insert_strict(sorted_by_temp(front), last);
        lemma_sorted_temps(front, last.temp_mc as int);
        if distinct_temps(points) {
            assert forall|i: int, j: int| 0 <= i < j < front.len() implies (
            #[trigger] front[i]).temp_mc != (#[trigger] front[j]).temp_mc by {
                assert(front[i] == points[i] && front[j] == points[j]);
            }
            if has_temp(front, last.temp_mc as int) {
                let i = choose|i: int|
                    0 <= i < front.len() && (#[trigger] front[i]).temp_mc == last.temp_mc as int;
                assert(points[i].temp_mc != points[n - 1].temp_mc);
            }
        }
        if distinct_temps(front) && !has_temp(front, last.temp_mc as int) {
            assert forall|i: int, j: int| 0 <= i < j < n implies (#[trigger] points[i]).temp_mc != (
            #[trigger] points[j]).temp_mc by {
                assert(front[i] == points[i]);
                if j < n - 1 {
                    assert(front[j] == points[j]);
                }
            }
        }
    }
}

/// A curve is valid exactly when it has at least two points and no two of
/// them have the same temperature, in whatever order they are stored.
pub proof fn lemma_valid_after_sorting(points: Seq<CurvePoint>)
    ensures
        valid_points(sorted_by_temp(points)) <==> points.len() >= 2 && distinct_temps(points),
        validation_failure(sorted_by_temp(points)) is None <==> points.len() >= 2
            && distinct_temps(points),
{
    lemma_sorted_by_temp(points);
    lemma_sorted_strict(points);
    lemma_validation_failure(sorted_by_temp(points));
}

} // verus!
