//! Which restore points to keep: every named one, everything recent, and a
//! thinning trail of automatic ones further back.

use vstd::prelude::*;

use crate::text::{decimal, push_decimal, push_str};

verus! {

/// How a restore point came to be.
#[derive(Debug, Clone, Copy, PartialEq, Eq, PartialOrd, Ord, Hash, Structural)]
#[non_exhaustive]
pub enum PointKind {
    /// Made by the product on a schedule.
    Automatic,
    /// Made and named by a person; never thinned away.
    Deliberate,
}

impl PointKind {
    /// A stable identifier of the kind.
    pub fn key(self) -> (key: &'static str)
        ensures
            key@ == (match self {
                PointKind::Automatic => "point.automatic"@,
                PointKind::Deliberate => "point.deliberate"@,
            }),
    {
        match self {
            PointKind::Automatic => "point.automatic",
            PointKind::Deliberate => "point.deliberate",
        }
    }
}

/// A point a project can be restored to.
#[derive(Debug, Clone, Copy, PartialEq, Eq, Structural)]
pub struct RestorePoint {
    /// Where it is in the history.
    pub position: usize,
    /// How long ago it was made.
    pub age_seconds: u64,
    /// How it came to be.
    pub kind: PointKind,
}

impl RestorePoint {
    /// The point as a person reads it: its kind, where it is, and its age.
    pub fn to_text(self) -> (text: String)
        ensures
            text@ == (match self.kind {
                PointKind::Automatic => "point.automatic"@,
                PointKind::Deliberate => "point.deliberate"@,
            }) + " at "@ + decimal(self.position as int) + " ("@ + decimal(self.age_seconds as int) + "s ago)"@,
    {
        let mut text = String::new();
        push_str(&mut text, self.kind.key());
        push_str(&mut text, " at ");
        push_decimal(&mut text, self.position as i128);
        push_str(&mut text, " (");
        push_decimal(&mut text, self.age_seconds as i128);
        push_str(&mut text, "s ago)");
        text
    }
}

/// How restore points are thinned.
#[derive(Debug, Clone, Copy, PartialEq, Eq, Structural)]
pub struct RetentionPolicy {
    /// Every automatic point younger than this is kept.
    pub keep_everything_under: u64,
    /// Beyond that, one automatic point per this many seconds is kept.
    pub hourly: u64,
    /// Beyond this age, one automatic point per this many seconds is kept.
    pub daily: u64,
    /// The most automatic points kept.
    pub maximum_automatic: usize,
}

/// The band of an age: ages in the same band keep one automatic point
/// between them. Every age below `keep_everything_under` is a band of its own;
/// then one band per `hourly` seconds until `daily`, then one per `daily`
/// seconds; a step of zero counts as one. Additions saturate.
pub open spec fn age_band(policy: RetentionPolicy, age: u64) -> u64 {
    if age < policy.keep_everything_under {
        age
    } else if age < policy.daily {
        let step = if policy.hourly == 0 { 1 } else { policy.hourly };
        saturating_u64(policy.keep_everything_under + age / step)
    } else {
        let step = if policy.daily == 0 { 1 } else { policy.daily };
        saturating_u64(saturating_u64(policy.keep_everything_under + policy.daily) + age / step)
    }
}

/// A step length in seconds, a step of zero counting as one second.
pub open spec fn step_of(seconds: u64) -> u64 {
    if seconds == 0 {
        1
    } else {
        seconds
    }
}

/// What the bands mean: every point younger than `keep_everything_under`
/// has a band of its own; from there until `daily`, two ages share a band
/// exactly when they fall in the same step of `hourly` seconds; past
/// `daily`, exactly when they fall in the same step of `daily` seconds; and
/// bands never go backwards as points age, so different stretches never
/// share a band. Stated where the sums stay within 64 bits.
pub proof fn lemma_bands_follow_the_policy(policy: RetentionPolicy, a: u64, b: u64)
    requires
        policy.keep_everything_under + policy.daily + u64::MAX / step_of(policy.daily) <= u64::MAX,
    ensures
        a < policy.keep_everything_under && b < policy.keep_everything_under ==> (age_band(policy, a)
            == age_band(policy, b) <==> a == b),
        policy.keep_everything_under <= a < policy.daily && policy.keep_everything_under <= b < policy.daily
            ==> (age_band(policy, a) == age_band(policy, b) <==> a / step_of(policy.hourly) == b / step_of(
            policy.hourly,
        )),
        policy.daily <= a && policy.daily <= b && policy.keep_everything_under <= a && policy.keep_everything_under
            <= b ==> (age_band(policy, a) == age_band(policy, b) <==> a / step_of(policy.daily) == b / step_of(
            policy.daily,
        )),
        a <= b ==> age_band(policy, a) <= age_band(policy, b),
{
    let hourly = step_of(policy.hourly);
    let daily = step_of(policy.daily);
    assert(a / hourly <= a && b / hourly <= b) by {
        vstd::arithmetic::div_mod::lemma_div_is_ordered_by_denominator(a as int, 1, hourly as int);
        vstd::arithmetic::div_mod::lemma_div_is_ordered_by_denominator(b as int, 1, hourly as int);
    }
    assert(a / daily <= u64::MAX / daily && b / daily <= u64::MAX / daily) by {
        vstd::arithmetic::div_mod::lemma_div_is_ordered(a as int, u64::MAX as int, daily as int);
        vstd::arithmetic::div_mod::lemma_div_is_ordered(b as int, u64::MAX as int, daily as int);
    }
    if a <= b {
        vstd::arithmetic::div_mod::lemma_div_is_ordered(a as int, b as int, hourly as int);
        vstd::arithmetic::div_mod::lemma_div_is_ordered(a as int, b as int, daily as int);
    }
}

/// Clamps a sum to the largest 64-bit unsigned value.
pub open spec fn saturating_u64(value: int) -> u64 {
    if value > u64::MAX {
        u64::MAX
    } else {
        value as u64
    }
}

impl RetentionPolicy {
    /// Everything from the last hour, one per hour for a day, one per day
    /// after that, and at most sixty-four automatic points.
    pub fn standard() -> (policy: RetentionPolicy)
        ensures
            policy == (RetentionPolicy {
                keep_everything_under: 3_600,
                hourly: 3_600,
                daily: 86_400,
                maximum_automatic: 64,
            }),
    {
        RetentionPolicy { keep_everything_under: 3_600, hourly: 3_600, daily: 86_400, maximum_automatic: 64 }
    }

    fn band(self, age_seconds: u64) -> (band: u64)
        ensures
            band == age_band(self, age_seconds),
    {
        if age_seconds < self.keep_everything_under {
            age_seconds
        } else if age_seconds < self.daily {
            let step = if self.hourly == 0 { 1 } else { self.hourly };
            self.keep_everything_under.saturating_add(age_seconds / step)
        } else {
            let step = if self.daily == 0 { 1 } else { self.daily };
            self.keep_everything_under.saturating_add(self.daily).saturating_add(age_seconds / step)
        }
    }
}

impl Default for RetentionPolicy {
    /// The standard policy.
    fn default() -> (policy: RetentionPolicy)
        ensures
            policy == (RetentionPolicy {
                keep_everything_under: 3_600,
                hourly: 3_600,
                daily: 86_400,
                maximum_automatic: 64,
            }),
    {
        RetentionPolicy::standard()
    }
}

/// Whether one point comes no later than another: newest first, then by
/// position.
pub open spec fn not_after(a: RestorePoint, b: RestorePoint) -> bool {
    a.age_seconds < b.age_seconds || (a.age_seconds == b.age_seconds && a.position <= b.position)
}

/// How many points at the front of a sequence come no later than a point.
pub open spec fn leading_not_after(points: Seq<RestorePoint>, point: RestorePoint) -> nat
    decreases points.len(),
{
    if points.len() == 0 {
        0
    } else if not_after(points[0], point) {
        1 + leading_not_after(points.drop_first(), point)
    } else {
        0
    }
}

/// The points ordered newest first, then by position, equal points keeping
/// their order: each point in turn is inserted after every point at the front
/// that comes no later than it.
pub open spec fn stable_sorted(points: Seq<RestorePoint>) -> Seq<RestorePoint>
    decreases points.len(),
{
    if points.len() == 0 {
        Seq::empty()
    } else {
        let sorted = stable_sorted(points.drop_last());
        sorted.insert(leading_not_after(sorted, points.last()) as int, points.last())
    }
}

/// What thinning has decided after the first `count` sorted points: the
/// points kept, the bands taken by automatic points, and how many automatic
/// points were kept.
pub open spec fn thinning(sorted: Seq<RestorePoint>, policy: RetentionPolicy, count: nat) -> (
    Seq<RestorePoint>,
    Seq<u64>,
    nat,
)
    decreases count,
{
    if count == 0 {
        (Seq::empty(), Seq::empty(), 0)
    } else {
        let (kept, bands, automatic) = thinning(sorted, policy, (count - 1) as nat);
        let point = sorted[count - 1];
        if point.kind == PointKind::Deliberate {
            (kept.push(point), bands, automatic)
        } else if automatic >= policy.maximum_automatic {
            (kept, bands, automatic)
        } else if bands.contains(age_band(policy, point.age_seconds)) {
            (kept, bands, automatic)
        } else {
            (kept.push(point), bands.push(age_band(policy, point.age_seconds)), automatic + 1)
        }
    }
}

/// The points a policy keeps: in order, newest first, every deliberate point,
/// and each automatic one whose band is not yet taken while fewer than the
/// maximum have been kept.
pub open spec fn spec_thin(points: Seq<RestorePoint>, policy: RetentionPolicy) -> Seq<RestorePoint> {
    let sorted = stable_sorted(points);
    thinning(sorted, policy, sorted.len()).0
}

/// Inserts a point after every point at the front that comes no later than it.
fn insert_in_order(sorted: &mut Vec<RestorePoint>, point: RestorePoint)
    ensures
        final(sorted)@ == old(sorted)@.insert(leading_not_after(old(sorted)@, point) as int, point),
{
    let ghost before = sorted@;
    let mut index: usize = 0;
    assert(before.skip(0) =~= before);
    while index < sorted.len() && (sorted[index].age_seconds < point.age_seconds || (sorted[index].age_seconds
        == point.age_seconds && sorted[index].position <= point.position))
        invariant
            sorted@ == before,
            index <= before.len(),
            leading_not_after(before, point) == index + leading_not_after(before.skip(index as int), point),
        decreases before.len() - index,
    {
        proof {
            assert(before.skip(index as int).drop_first() =~= before.skip(index as int + 1));
        }
        index += 1;
    }
    proof {
        if index < before.len() {
            assert(before.skip(index as int)[0] == before[index as int]);
        }
    }
    sorted.insert(index, point);
}

/// Thins restore points under a policy: the points kept, newest first.
pub fn thin(points: &[RestorePoint], policy: RetentionPolicy) -> (kept: Vec<RestorePoint>)
    ensures
        kept@ == spec_thin(points@, policy),
{
    let mut sorted: Vec<RestorePoint> = Vec::new();
    let mut index: usize = 0;
    while index < points.len()
        invariant
            index <= points@.len(),
            sorted@ == stable_sorted(points@.take(index as int)),
        decreases points@.len() - index,
    {
        proof {
            assert(points@.take(index as int + 1).drop_last() =~= points@.take(index as int));
        }
        insert_in_order(&mut sorted, points[index]);
        index += 1;
    }
    proof {
        assert(points@.take(points@.len() as int) =~= points@);
    }
    let mut kept: Vec<RestorePoint> = Vec::new();
    let mut bands: Vec<u64> = Vec::new();
    let mut automatic: usize = 0;
    let mut index: usize = 0;
    while index < sorted.len()
        invariant
            index <= sorted@.len(),
            sorted@ == stable_sorted(points@),
            (kept@, bands@, automatic as nat) == thinning(sorted@, policy, index as nat),
            automatic <= index,
        decreases sorted@.len() - index,
    {
        let point = sorted[index];
        if point.kind == PointKind::Deliberate {
            kept.push(point);
        } else if automatic >= policy.maximum_automatic {
        } else {
            let band = policy.band(point.age_seconds);
            let mut seen = false;
            let mut look: usize = 0;
            while look < bands.len()
                invariant
                    look <= bands@.len(),
                    seen == exists|i: int| 0 <= i < look && bands@[i] == band,
                decreases bands@.len() - look,
            {
                if bands[look] == band {
                    seen = true;
                }
                look += 1;
            }
            if !seen {
                bands.push(band);
                kept.push(point);
                automatic += 1;
            } else {
                proof {
                    let i = choose|i: int| 0 <= i < bands@.len() && bands@[i] == band;
                    assert(bands@.contains(band));
                }
            }
        }
        index += 1;
    }
    kept
}

/// The bands of the automatic points among some points, in order.
pub open spec fn automatic_bands(points: Seq<RestorePoint>, policy: RetentionPolicy) -> Seq<u64>
    decreases points.len(),
{
    if points.len() == 0 {
        Seq::empty()
    } else {
        let earlier = automatic_bands(points.drop_last(), policy);
        if points.last().kind == PointKind::Automatic {
            earlier.push(age_band(policy, points.last().age_seconds))
        } else {
            earlier
        }
    }
}

/// Points in order: newest first, then by position.
pub open spec fn in_order(points: Seq<RestorePoint>) -> bool {
    forall|i: int, j: int| 0 <= i < j < points.len() ==> not_after(points[i], points[j])
}

/// The front counted by `leading_not_after` comes no later than the point,
/// and the next one, if any, comes after it.
proof fn lemma_leading(points: Seq<RestorePoint>, point: RestorePoint)
    ensures
        leading_not_after(points, point) <= points.len(),
        forall|i: int| 0 <= i < leading_not_after(points, point) ==> not_after(#[trigger] points[i], point),
        leading_not_after(points, point) < points.len() ==> !not_after(
            points[leading_not_after(points, point) as int],
            point,
        ),
    decreases points.len(),
{
    if points.len() > 0 && not_after(points[0], point) {
        let rest = points.drop_first();
        lemma_leading(rest, point);
        assert forall|i: int| 0 <= i < leading_not_after(points, point) implies not_after(#[trigger] points[i], point) by {
            if i > 0 {
                assert(points[i] == rest[i - 1]);
            }
        }
        if leading_not_after(points, point) < points.len() {
            assert(points[leading_not_after(points, point) as int] == rest[leading_not_after(rest, point) as int]);
        }
    }
}

/// Sorting keeps exactly the points it was given, and orders them.
pub proof fn lemma_stable_sorted(points: Seq<RestorePoint>)
    ensures
        stable_sorted(points).len() == points.len(),
        forall|point: RestorePoint| stable_sorted(points).contains(point) <==> points.contains(point),
        in_order(stable_sorted(points)),
    decreases points.len(),
{
    if points.len() > 0 {
        let shorter = points.drop_last();
        let sorted = stable_sorted(shorter);
        let point = points.last();
        let at = leading_not_after(sorted, point) as int;
        lemma_stable_sorted(shorter);
        lemma_leading(sorted, point);
        sorted.insert_ensures(at, point);
        let result = sorted.insert(at, point);
        assert forall|x: RestorePoint| result.contains(x) <==> points.contains(x) by {
            if result.contains(x) {
                let i = choose|i: int| 0 <= i < result.len() && result[i] == x;
                if i == at {
                    assert(points[points.len() - 1] == x);
                } else {
                    let si = if i < at { i } else { i - 1 };
                    assert(sorted[si] == x);
                    assert(sorted.contains(x));
                    assert(shorter.contains(x));
                    let j = choose|j: int| 0 <= j < shorter.len() && shorter[j] == x;
                    assert(points[j] == x);
                }
            }
            if points.contains(x) {
                let j = choose|j: int| 0 <= j < points.len() && points[j] == x;
                if j == points.len() - 1 {
                    assert(result[at] == x);
                } else {
                    assert(shorter[j] == x);
                    assert(shorter.contains(x));
                    let i = choose|i: int| 0 <= i < sorted.len() && sorted[i] == x;
                    if i < at {
                        assert(result[i] == x);
                    } else {
                        assert(result[i + 1] == x);
                    }
                }
            }
        }
        assert forall|i: int, j: int| 0 <= i < j < result.len() implies not_after(result[i], result[j]) by {
            if j < at {
            } else if j == at {
                assert(not_after(sorted[i], point));
            } else if i == at {
                assert(!not_after(sorted[at], point));
                if j - 1 > at {
                    assert(not_after(sorted[at], sorted[j - 1]));
                }
            } else if i < at {
                assert(result[j] == sorted[j - 1]);
            } else {
                assert(result[i] == sorted[i - 1]);
                assert(result[j] == sorted[j - 1]);
            }
        }
    }
}

/// What thinning keeps holds together: each point kept is one of the sorted
/// points seen, in order; every deliberate point seen is kept; the bands taken
/// are those of the automatic points kept, each once; and no more automatic
/// points than the maximum are kept.
proof fn lemma_thinning(sorted: Seq<RestorePoint>, policy: RetentionPolicy, count: nat)
    requires
        count <= sorted.len(),
        in_order(sorted),
    ensures
        ({
            let (kept, bands, automatic) = thinning(sorted, policy, count);
            &&& in_order(kept)
            &&& forall|x: RestorePoint| kept.contains(x) ==> sorted.take(count as int).contains(x)
            &&& forall|i: int| 0 <= i < kept.len() ==> exists|k: int| 0 <= k < count && sorted[k] == #[trigger] kept[i]
            &&& forall|i: int| 0 <= i < count && (#[trigger] sorted[i]).kind == PointKind::Deliberate ==> kept.contains(sorted[i])
            &&& bands == automatic_bands(kept, policy)
            &&& bands.no_duplicates()
            &&& automatic == bands.len()
            &&& automatic <= policy.maximum_automatic
        }),
    decreases count,
{
    if count > 0 {
        lemma_thinning(sorted, policy, (count - 1) as nat);
        let (kept, bands, automatic) = thinning(sorted, policy, (count - 1) as nat);
        let point = sorted[count - 1];
        let (next_kept, next_bands, next_automatic) = thinning(sorted, policy, count);
        assert(sorted.take(count as int - 1) =~= sorted.take(count as int).drop_last());
        if next_kept == kept.push(point) {
            assert(next_kept.drop_last() =~= kept);
            assert forall|i: int, j: int| 0 <= i < j < next_kept.len() implies not_after(next_kept[i], next_kept[j]) by {
                if j == next_kept.len() - 1 {
                    let k = choose|k: int| 0 <= k < count - 1 && sorted[k] == #[trigger] kept[i];
                }
            }
            assert forall|x: RestorePoint| next_kept.contains(x) implies sorted.take(count as int).contains(x) by {
                if x == point {
                    assert(sorted.take(count as int)[count - 1] == x);
                } else {
                    let i = choose|i: int| 0 <= i < next_kept.len() && next_kept[i] == x;
                    assert(kept[i] == x);
                    assert(kept.contains(x));
                    let k = choose|k: int| 0 <= k < count - 1 && #[trigger] sorted.take(count as int - 1)[k] == x;
                    assert(sorted.take(count as int)[k] == x);
                }
            }
            assert forall|i: int| 0 <= i < next_kept.len() implies exists|k: int| 0 <= k < count && sorted[k]
                == #[trigger] next_kept[i] by {
                if i == next_kept.len() - 1 {
                    assert(sorted[count - 1] == next_kept[i]);
                } else {
                    assert(next_kept[i] == kept[i]);
                }
            }
            assert forall|i: int| 0 <= i < count && (#[trigger] sorted[i]).kind == PointKind::Deliberate implies next_kept.contains(sorted[i]) by {
                if i == count - 1 {
                    assert(next_kept[next_kept.len() - 1] == sorted[i]);
                } else {
                    let j = choose|j: int| 0 <= j < kept.len() && kept[j] == sorted[i];
                    assert(next_kept[j] == sorted[i]);
                }
            }
            if point.kind == PointKind::Automatic {
                assert(next_bands == bands.push(age_band(policy, point.age_seconds)));
            }
        } else {
            assert forall|x: RestorePoint| next_kept.contains(x) implies sorted.take(count as int).contains(x) by {
                let k = choose|k: int| 0 <= k < count - 1 && #[trigger] sorted.take(count as int - 1)[k] == x;
                assert(sorted.take(count as int)[k] == x);
            }
        }
    }
}

/// A thinned list, thinned again, is unchanged: thinning is idempotent.
proof fn lemma_thinning_kept(kept: Seq<RestorePoint>, policy: RetentionPolicy, count: nat)
    requires
        count <= kept.len(),
        automatic_bands(kept, policy).no_duplicates(),
        automatic_bands(kept, policy).len() <= policy.maximum_automatic,
    ensures
        thinning(kept, policy, count) == (
            kept.take(count as int),
            automatic_bands(kept.take(count as int), policy),
            automatic_bands(kept.take(count as int), policy).len(),
        ),
    decreases count,
{
    if count > 0 {
        lemma_thinning_kept(kept, policy, (count - 1) as nat);
        let before = kept.take(count as int - 1);
        let now = kept.take(count as int);
        assert(now.drop_last() =~= before);
        let point = kept[count - 1];
        if point.kind == PointKind::Automatic {
            lemma_bands_prefix(kept, policy, count as int);
            let all = automatic_bands(kept, policy);
            let earlier = automatic_bands(before, policy);
            let band = age_band(policy, point.age_seconds);
            assert(now.last() == point);
            assert(automatic_bands(now, policy) == earlier.push(band));
            let taken = automatic_bands(now, policy);
            assert(taken =~= all.take(taken.len() as int));
            assert(!earlier.contains(band)) by {
                if earlier.contains(band) {
                    let i = choose|i: int| 0 <= i < earlier.len() && earlier[i] == band;
                    assert(taken[i] == all[i]);
                    assert(taken[earlier.len() as int] == all[earlier.len() as int]);
                    assert(all[i] == band);
                    assert(all[earlier.len() as int] == band);
                }
            }
        }
        assert(thinning(kept, policy, count).0 =~= now);
    } else {
        assert(kept.take(0) =~= Seq::<RestorePoint>::empty());
    }
}

/// The bands of a prefix are a prefix of the bands, and those of a longer
/// prefix are no fewer.
proof fn lemma_bands_prefix(points: Seq<RestorePoint>, policy: RetentionPolicy, count: int)
    requires
        0 <= count <= points.len(),
    ensures
        automatic_bands(points.take(count), policy).len() <= automatic_bands(points, policy).len(),
        automatic_bands(points.take(count), policy) =~= automatic_bands(points, policy).take(
            automatic_bands(points.take(count), policy).len() as int,
        ),
    decreases points.len(),
{
    if count < points.len() {
        let shorter = points.drop_last();
        assert(points.take(count) =~= shorter.take(count));
        lemma_bands_prefix(shorter, policy, count);
    } else {
        assert(points.take(count) =~= points);
    }
}

/// A sorted sequence sorts to itself.
proof fn lemma_sorted_is_fixed(points: Seq<RestorePoint>)
    requires
        in_order(points),
    ensures
        stable_sorted(points) == points,
    decreases points.len(),
{
    if points.len() > 0 {
        let shorter = points.drop_last();
        lemma_sorted_is_fixed(shorter);
        lemma_leading_all(shorter, points.last());
        shorter.insert_ensures(shorter.len() as int, points.last());
        assert(shorter.insert(shorter.len() as int, points.last()) =~= points);
    }
}

/// When every point comes no later than a point, all of them lead.
proof fn lemma_leading_all(points: Seq<RestorePoint>, point: RestorePoint)
    requires
        forall|i: int| 0 <= i < points.len() ==> not_after(#[trigger] points[i], point),
    ensures
        leading_not_after(points, point) == points.len(),
    decreases points.len(),
{
    if points.len() > 0 {
        let rest = points.drop_first();
        assert forall|i: int| 0 <= i < rest.len() implies not_after(#[trigger] rest[i], point) by {
            assert(rest[i] == points[i + 1]);
        }
        lemma_leading_all(rest, point);
    }
}

/// Sorting gives back the same points, each as often as it was given.
proof fn lemma_stable_sorted_same_points(points: Seq<RestorePoint>)
    ensures
        stable_sorted(points).to_multiset() =~= points.to_multiset(),
    decreases points.len(),
{
    broadcast use vstd::seq_lib::group_to_multiset_ensures;
    broadcast use vstd::multiset::group_multiset_axioms;

    if points.len() > 0 {
        let shorter = points.drop_last();
        let sorted = stable_sorted(shorter);
        let point = points.last();
        let at = leading_not_after(sorted, point) as int;
        lemma_stable_sorted_same_points(shorter);
        lemma_leading(sorted, point);
        let result = sorted.insert(at, point);
        sorted.insert_ensures(at, point);
        assert(result.remove(at) =~= sorted);
        assert(result[at] == point);
        assert(shorter.push(point) =~= points);
        assert(result.to_multiset().count(point) > 0) by {
            assert(result.contains(point));
        }
        assert(result.to_multiset() =~= sorted.to_multiset().insert(point));
    }
}

/// What thinning keeps after `count` sorted points is drawn from those
/// points, none more often than it occurs among them.
proof fn lemma_thinning_within(sorted: Seq<RestorePoint>, policy: RetentionPolicy, count: nat)
    requires
        count <= sorted.len(),
    ensures
        thinning(sorted, policy, count).0.to_multiset().subset_of(sorted.take(count as int).to_multiset()),
    decreases count,
{
    broadcast use vstd::seq_lib::group_to_multiset_ensures;
    broadcast use vstd::multiset::group_multiset_axioms;

    if count == 0 {
        assert(sorted.take(0) =~= Seq::<RestorePoint>::empty());
        assert(thinning(sorted, policy, 0).0 =~= Seq::<RestorePoint>::empty());
    } else {
        lemma_thinning_within(sorted, policy, (count - 1) as nat);
        let before = sorted.take(count as int - 1);
        let point = sorted[count - 1];
        assert(sorted.take(count as int) =~= before.push(point));
        let kept = thinning(sorted, policy, (count - 1) as nat).0;
        let next = thinning(sorted, policy, count).0;
        if next == kept.push(point) {
            assert forall|v: RestorePoint| next.to_multiset().count(v) <= sorted.take(count as int).to_multiset().count(v) by {
                assert(kept.to_multiset().count(v) <= before.to_multiset().count(v));
            }
        } else {
            assert(next == kept);
            assert forall|v: RestorePoint| next.to_multiset().count(v) <= sorted.take(count as int).to_multiset().count(v) by {
                assert(kept.to_multiset().count(v) <= before.to_multiset().count(v));
            }
        }
    }
}

/// Every automatic point thinning has looked at either has its band taken by
/// a kept automatic point or met the bound on automatic points.
proof fn lemma_thinning_leaves_no_band_unused(sorted: Seq<RestorePoint>, policy: RetentionPolicy, count: nat)
    requires
        count <= sorted.len(),
    ensures
        ({
            let (kept, bands, automatic) = thinning(sorted, policy, count);
            &&& automatic <= policy.maximum_automatic
            &&& forall|k: int|
                0 <= k < count && (#[trigger] sorted[k]).kind == PointKind::Automatic ==> bands.contains(
                    age_band(policy, sorted[k].age_seconds),
                ) || automatic == policy.maximum_automatic
        }),
    decreases count,
{
    if count > 0 {
        lemma_thinning_leaves_no_band_unused(sorted, policy, (count - 1) as nat);
        let (kept, bands, automatic) = thinning(sorted, policy, (count - 1) as nat);
        let point = sorted[count - 1];
        let band = age_band(policy, point.age_seconds);
        let (next_kept, next_bands, next_automatic) = thinning(sorted, policy, count);
        if point.kind != PointKind::Deliberate && automatic < policy.maximum_automatic && !bands.contains(band) {
            assert(next_bands == bands.push(band));
            assert forall|k: int|
                0 <= k < count && (#[trigger] sorted[k]).kind == PointKind::Automatic implies next_bands.contains(
                age_band(policy, sorted[k].age_seconds),
            ) || next_automatic == policy.maximum_automatic by {
                if k < count - 1 {
                    if bands.contains(age_band(policy, sorted[k].age_seconds)) {
                        let j = choose|j: int| 0 <= j < bands.len() && bands[j] == age_band(policy, sorted[k].age_seconds);
                        assert(next_bands[j] == bands[j]);
                    }
                } else {
                    assert(next_bands[bands.len() as int] == band);
                }
            }
        }
    }
}

/// What thinning promises: a point somebody named is never discarded; no more
/// automatic points than the maximum are kept, each in a band of its own; the
/// result reads newest first, then by position; it holds only points it was
/// given, none more often than given; an automatic point is left out only
/// when a kept automatic point holds its band or the bound on automatic
/// points is reached; and thinning it again changes nothing.
pub proof fn lemma_thin_promises(points: Seq<RestorePoint>, policy: RetentionPolicy)
    ensures
        forall|i: int| 0 <= i < points.len() && (#[trigger] points[i]).kind == PointKind::Deliberate
            ==> spec_thin(points, policy).contains(points[i]),
        automatic_bands(spec_thin(points, policy), policy).len() <= policy.maximum_automatic,
        automatic_bands(spec_thin(points, policy), policy).no_duplicates(),
        forall|i: int, j: int| 0 <= i < j < spec_thin(points, policy).len() ==> spec_thin(points, policy)[i].age_seconds
            <= spec_thin(points, policy)[j].age_seconds,
        forall|point: RestorePoint| spec_thin(points, policy).contains(point) ==> points.contains(point),
        in_order(spec_thin(points, policy)),
        spec_thin(points, policy).to_multiset().subset_of(points.to_multiset()),
        forall|i: int|
            0 <= i < points.len() && (#[trigger] points[i]).kind == PointKind::Automatic ==> automatic_bands(
                spec_thin(points, policy),
                policy,
            ).contains(age_band(policy, points[i].age_seconds)) || automatic_bands(spec_thin(points, policy), policy).len()
                == policy.maximum_automatic,
        spec_thin(spec_thin(points, policy), policy) == spec_thin(points, policy),
{
    let sorted = stable_sorted(points);
    lemma_stable_sorted(points);
    lemma_thinning(sorted, policy, sorted.len());
    let kept = spec_thin(points, policy);
    assert(sorted.take(sorted.len() as int) =~= sorted);
    assert forall|i: int| 0 <= i < points.len() && (#[trigger] points[i]).kind == PointKind::Deliberate implies kept.contains(points[i]) by {
        assert(points.contains(points[i]));
        assert(sorted.contains(points[i]));
        let k = choose|k: int| 0 <= k < sorted.len() && sorted[k] == points[i];
    }
    assert forall|point: RestorePoint| kept.contains(point) implies points.contains(point) by {
        assert(sorted.contains(point));
    }
    assert forall|i: int, j: int| 0 <= i < j < kept.len() implies kept[i].age_seconds <= kept[j].age_seconds by {
        assert(not_after(kept[i], kept[j]));
    }
    lemma_thinning_leaves_no_band_unused(sorted, policy, sorted.len());
    assert forall|i: int|
        0 <= i < points.len() && (#[trigger] points[i]).kind == PointKind::Automatic implies automatic_bands(
            kept,
            policy,
        ).contains(age_band(policy, points[i].age_seconds)) || automatic_bands(kept, policy).len()
            == policy.maximum_automatic by {
        assert(points.contains(points[i]));
        assert(sorted.contains(points[i]));
        let k = choose|k: int| 0 <= k < sorted.len() && sorted[k] == points[i];
        assert(sorted[k].kind == PointKind::Automatic);
    }
    lemma_stable_sorted_same_points(points);
    lemma_thinning_within(sorted, policy, sorted.len());
    lemma_sorted_is_fixed(kept);
    lemma_thinning_kept(kept, policy, kept.len());
    assert(kept.take(kept.len() as int) =~= kept);
}

} // verus!
