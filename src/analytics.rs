//! Pure analytics over a session's readings: windowed averages by sensor
//! type, target-range checks, a quality score, stage readiness, and issue
//! tags. A reading's type is the type of the first sensor with its id.

use vstd::prelude::*;
use crate::telemetry::{FermentationStage, SensorDevice, SensorType, TelemetryReading, find_sensor_from};

verus! {

/// The accepted range of values for one sensor type, in the readings'
/// fixed-point scale.
#[derive(Debug, Clone, Copy, PartialEq, Eq, Structural)]
pub struct TargetRange {
    pub sensor_type: SensorType,
    pub min: i64,
    pub max: i64,
}

/// A problem that a reading shows.
#[derive(Debug, Clone, Copy, PartialEq, Eq, Structural)]
pub enum FermentationIssue {
    BelowTarget(SensorType),
    AboveTarget(SensorType),
}

/// The type of the sensor that produced readings with id `id`.
pub open spec fn sensor_type_of(sensors: Seq<SensorDevice>, id: Seq<char>) -> Option<SensorType> {
    let i = find_sensor_from(sensors, id, 0);
    if i == -1 {
        None
    } else {
        Some(sensors[i].sensor_type)
    }
}

/// Index of the first target for type `t` from `k` on, or -1.
pub open spec fn find_target_from(targets: Seq<TargetRange>, t: SensorType, k: int) -> int
    decreases targets.len() - k,
{
    if k < 0 || k >= targets.len() {
        -1
    } else if targets[k].sensor_type == t {
        k
    } else {
        find_target_from(targets, t, k + 1)
    }
}

/// The target of the reading's type, if there is one.
pub open spec fn target_of(r: TelemetryReading, sensors: Seq<SensorDevice>, targets: Seq<TargetRange>) -> Option<TargetRange> {
    match sensor_type_of(sensors, r.sensor_id@) {
        None => None,
        Some(t) => {
            let i = find_target_from(targets, t, 0);
            if i == -1 {
                None
            } else {
                Some(targets[i])
            }
        },
    }
}

/// The reading's issue, if its value lies outside its type's target.
pub open spec fn issue_of(r: TelemetryReading, sensors: Seq<SensorDevice>, targets: Seq<TargetRange>) -> Option<FermentationIssue> {
    match target_of(r, sensors, targets) {
        None => None,
        Some(g) => if r.value < g.min {
            Some(FermentationIssue::BelowTarget(g.sensor_type))
        } else if r.value > g.max {
            Some(FermentationIssue::AboveTarget(g.sensor_type))
        } else {
            None
        },
    }
}

/// The issues of `rs`, one per offending reading, in order.
pub open spec fn issues_of(rs: Seq<TelemetryReading>, sensors: Seq<SensorDevice>, targets: Seq<TargetRange>) -> Seq<FermentationIssue>
    decreases rs.len(),
{
    if rs.len() == 0 {
        Seq::empty()
    } else {
        match issue_of(rs.last(), sensors, targets) {
            Some(i) => issues_of(rs.drop_last(), sensors, targets).push(i),
            None => issues_of(rs.drop_last(), sensors, targets),
        }
    }
}

/// Number of readings of `rs` within their targets.
pub open spec fn count_in_range(rs: Seq<TelemetryReading>, sensors: Seq<SensorDevice>, targets: Seq<TargetRange>) -> nat
    decreases rs.len(),
{
    if rs.len() == 0 {
        0
    } else {
        count_in_range(rs.drop_last(), sensors, targets) + if issue_of(rs.last(), sensors, targets) is None { 1nat } else { 0nat }
    }
}

/// The reading is of type `t` and taken within `[start, end]`.
pub open spec fn in_window(r: TelemetryReading, sensors: Seq<SensorDevice>, t: SensorType, start: u64, end: u64) -> bool {
    sensor_type_of(sensors, r.sensor_id@) == Some(t) && start <= r.timestamp <= end
}

pub open spec fn window_sum(rs: Seq<TelemetryReading>, sensors: Seq<SensorDevice>, t: SensorType, start: u64, end: u64) -> int
    decreases rs.len(),
{
    if rs.len() == 0 {
        0
    } else {
        window_sum(rs.drop_last(), sensors, t, start, end) + if in_window(rs.last(), sensors, t, start, end) {
            rs.last().value as int
        } else {
            0
        }
    }
}

pub open spec fn window_count(rs: Seq<TelemetryReading>, sensors: Seq<SensorDevice>, t: SensorType, start: u64, end: u64) -> nat
    decreases rs.len(),
{
    if rs.len() == 0 {
        0
    } else {
        window_count(rs.drop_last(), sensors, t, start, end) + if in_window(rs.last(), sensors, t, start, end) {
            1nat
        } else {
            0nat
        }
    }
}

/// `a / b` rounded toward zero.
pub open spec fn div_toward_zero(a: int, b: int) -> int {
    if a >= 0 {
        a / b
    } else {
        -((-a) / b)
    }
}

proof fn lemma_window_bounds(rs: Seq<TelemetryReading>, sensors: Seq<SensorDevice>, t: SensorType, start: u64, end: u64)
    ensures
        window_count(rs, sensors, t, start, end) <= rs.len(),
        -0x8000_0000_0000_0000 * window_count(rs, sensors, t, start, end) <= window_sum(rs, sensors, t, start, end)
            <= 0x7fff_ffff_ffff_ffff * window_count(rs, sensors, t, start, end),
    decreases rs.len(),
{
    if rs.len() > 0 {
        lemma_window_bounds(rs.drop_last(), sensors, t, start, end);
    }
}

fn type_of_sensor(sensors: &[SensorDevice], id: &String) -> (r: Option<SensorType>)
    ensures
        r == sensor_type_of(sensors@, id@),
{
    let mut k: usize = 0;
    while k < sensors.len()
        invariant
            k <= sensors@.len(),
            find_sensor_from(sensors@, id@, 0) == find_sensor_from(sensors@, id@, k as int),
        decreases sensors@.len() - k,
    {
        if sensors[k].id == *id {
            return Some(sensors[k].sensor_type);
        }
        k += 1;
    }
    None
}

fn target(targets: &[TargetRange], t: SensorType) -> (r: Option<TargetRange>)
    ensures
        r == (if find_target_from(targets@, t, 0) == -1 {
            None
        } else {
            Some(targets@[find_target_from(targets@, t, 0)])
        }),
{
    let mut k: usize = 0;
    while k < targets.len()
        invariant
            k <= targets@.len(),
            find_target_from(targets@, t, 0) == find_target_from(targets@, t, k as int),
        decreases targets@.len() - k,
    {
        if targets[k].sensor_type == t {
            return Some(targets[k]);
        }
        k += 1;
    }
    None
}

fn reading_issue(r: &TelemetryReading, sensors: &[SensorDevice], targets: &[TargetRange]) -> (o: Option<FermentationIssue>)
    ensures
        o == issue_of(*r, sensors@, targets@),
{
    let t = match type_of_sensor(sensors, &r.sensor_id) {
        None => return None,
        Some(t) => t,
    };
    match target(targets, t) {
        None => None,
        Some(g) => if r.value < g.min {
            Some(FermentationIssue::BelowTarget(g.sensor_type))
        } else if r.value > g.max {
            Some(FermentationIssue::AboveTarget(g.sensor_type))
        } else {
            None
        },
    }
}

/// Mean value, rounded toward zero, of the readings of type `sensor_type`
/// taken between `start_time` and `end_time` inclusive; `None` when there
/// are none.
pub fn calculate_average(
    readings: &[TelemetryReading],
    sensors: &[SensorDevice],
    sensor_type: SensorType,
    start_time: u64,
    end_time: u64,
) -> (r: Option<i64>)
    ensures
        ({
            let n = window_count(readings@, sensors@, sensor_type, start_time, end_time);
            let s = window_sum(readings@, sensors@, sensor_type, start_time, end_time);
            &&& n == 0 ==> r is None
            &&& n > 0 ==> r == Some(div_toward_zero(s, n as int) as i64)
        }),
{
    let rlen: usize = readings.len();
    let mut sum: i128 = 0;
    let mut count: u64 = 0;
    let mut k: usize = 0;
    while k < readings.len()
        invariant
            k <= readings@.len(),
            rlen == readings@.len(),
            sum == window_sum(readings@.take(k as int), sensors@, sensor_type, start_time, end_time),
            count == window_count(readings@.take(k as int), sensors@, sensor_type, start_time, end_time),
        decreases readings@.len() - k,
    {
        proof {
            let t = readings@.take(k as int);
            lemma_window_bounds(t, sensors@, sensor_type, start_time, end_time);
            assert(readings@.take(k + 1).drop_last() =~= t);
            assert(count <= k);
            assert(-0x8000_0000_0000_0000 * (count as int) >= -0x8000_0000_0000_0000 * 0x1_0000_0000_0000_0000) by (nonlinear_arith)
                requires count <= 0x1_0000_0000_0000_0000int;
            assert(0x7fff_ffff_ffff_ffff * (count as int) <= 0x7fff_ffff_ffff_ffff * 0x1_0000_0000_0000_0000) by (nonlinear_arith)
                requires count <= 0x1_0000_0000_0000_0000int;
        }
        let r = &readings[k];
        let hit = match type_of_sensor(sensors, &r.sensor_id) {
            Some(t) => t == sensor_type && start_time <= r.timestamp && r.timestamp <= end_time,
            None => false,
        };
        if hit {
            sum = sum + r.value as i128;
            count = count + 1;
        }
        k += 1;
    }
    assert(readings@.take(k as int) =~= readings@);
    if count == 0 {
        return None;
    }
    proof {
        lemma_window_bounds(readings@, sensors@, sensor_type, start_time, end_time);
        assert(sum >= -0x8000_0000_0000_0000 * (count as int)) ;
    }
    let n = count as i128;
    let avg: i128 = if sum >= 0 {
        sum / n
    } else {
        -((-sum) / n)
    };
    proof {
        lemma_average_bound(sum as int, n as int);
    }
    Some(avg as i64)
}

proof fn lemma_average_bound(s: int, n: int)
    requires
        n >= 1,
        -0x8000_0000_0000_0000 * n <= s <= 0x7fff_ffff_ffff_ffff * n,
    ensures
        -0x8000_0000_0000_0000 <= div_toward_zero(s, n) <= 0x7fff_ffff_ffff_ffff,
{
    if s >= 0 {
        assert(s / n <= 0x7fff_ffff_ffff_ffff) by (nonlinear_arith)
            requires n >= 1, 0 <= s <= 0x7fff_ffff_ffff_ffff * n;
    } else {
        assert((-s) / n <= 0x8000_0000_0000_0000) by (nonlinear_arith)
            requires n >= 1, 0 < -s <= 0x8000_0000_0000_0000 * n;
    }
}

/// Whether every reading lies within the target of its type (readings of a
/// type without a target pass).
pub fn check_optimal_conditions(readings: &[TelemetryReading], sensors: &[SensorDevice], targets: &[TargetRange]) -> (r:
    bool)
    ensures
        r == (issues_of(readings@, sensors@, targets@).len() == 0),
{
    let issues = detect_fermentation_issues(readings, sensors, targets);
    issues.len() == 0
}

/// Share of readings within their targets, as a percentage; 0 without
/// readings.
pub fn generate_quality_score(readings: &[TelemetryReading], sensors: &[SensorDevice], targets: &[TargetRange]) -> (r: u8)
    ensures
        readings@.len() == 0 ==> r == 0,
        readings@.len() > 0 ==> r as int == count_in_range(readings@, sensors@, targets@) * 100 / readings@.len(),
        r <= 100,
{
    let mut good: u64 = 0;
    let mut k: usize = 0;
    while k < readings.len()
        invariant
            k <= readings@.len(),
            good == count_in_range(readings@.take(k as int), sensors@, targets@),
            good <= k,
        decreases readings@.len() - k,
    {
        assert(readings@.take(k + 1).drop_last() =~= readings@.take(k as int));
        if reading_issue(&readings[k], sensors, targets).is_none() {
            good = good + 1;
        }
        k += 1;
    }
    assert(readings@.take(k as int) =~= readings@);
    if k == 0 {
        return 0;
    }
    let n = k as u128;
    let score: u128 = (good as u128) * 100 / n;
    assert(score <= 100) by (nonlinear_arith)
        requires score as int == (good as int) * 100 / (n as int), good <= n, n >= 1;
    score as u8
}

/// Whether a session in `stage` may move on: it is not complete, it has
/// readings, and all of them are within target.
pub fn check_stage_progression(
    stage: &FermentationStage,
    readings: &[TelemetryReading],
    sensors: &[SensorDevice],
    targets: &[TargetRange],
) -> (r: bool)
    ensures
        r == (*stage != FermentationStage::Completed && readings@.len() > 0 && issues_of(readings@, sensors@, targets@).len()
            == 0),
{
    if *stage == FermentationStage::Completed || readings.len() == 0 {
        return false;
    }
    check_optimal_conditions(readings, sensors, targets)
}

/// One issue per reading outside its type's target, in reading order.
pub fn detect_fermentation_issues(readings: &[TelemetryReading], sensors: &[SensorDevice], targets: &[TargetRange]) -> (r:
    Vec<FermentationIssue>)
    ensures
        r@ == issues_of(readings@, sensors@, targets@),
{
    let mut out: Vec<FermentationIssue> = Vec::new();
    let mut k: usize = 0;
    while k < readings.len()
        invariant
            k <= readings@.len(),
            out@ == issues_of(readings@.take(k as int), sensors@, targets@),
        decreases readings@.len() - k,
    {
        assert(readings@.take(k + 1).drop_last() =~= readings@.take(k as int));
        match reading_issue(&readings[k], sensors, targets) {
            Some(i) => out.push(i),
            None => {},
        }
        k += 1;
    }
    assert(readings@.take(k as int) =~= readings@);
    out
}

} // verus!
