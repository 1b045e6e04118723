//! Percentage-based traffic splitting: the [`Rollout`] range, and the
//! invariants that make a *set* of them safe.
//!
//! A rollout gives one workflow a slice of the traffic on its channel, as a
//! half-open range of buckets over `0..100`. What makes a deployment correct
//! is a property of the whole set: the versions of one logical workflow must
//! partition `0..100` with no overlap and no gap. [`Rollout::partition`]
//! builds such a set from percentages, and [`Rollout::validate_set`] checks
//! one.

use vstd::prelude::*;
use vstd::multiset::Multiset;
use crate::text::{decimal, push_decimal, push_str};

verus! {

/// The bucket space every rollout range divides up: `0..100`.
pub const BUCKETS: u8 = 100;

/// Half-open bucket range `[bucket_start, bucket_end)` over `0..100`.
#[derive(Clone, Copy, Debug, PartialEq, Eq, Structural)]
pub struct Rollout {
    /// Inclusive lower bound.
    pub bucket_start: u8,
    /// Exclusive upper bound. `100` means "up to and including bucket 99".
    pub bucket_end: u8,
}

/// Why a rollout set is not a valid traffic split.
#[derive(Clone, Copy, Debug, PartialEq, Eq, Structural)]
pub enum RolloutError {
    /// Percentages sum to less than 100.
    Under { total: u32 },
    /// Percentages sum to more than 100.
    Over { total: u32 },
    /// No range serves this bucket. Reported at the lowest such bucket.
    Gap { bucket: u8 },
    /// More than one range serves this bucket. Reported at the lowest such
    /// bucket.
    Overlap { bucket: u8 },
    /// A range is inverted or reaches past bucket 100.
    InvalidRange { rollout: Rollout },
}

impl Rollout {
    /// Whether this range serves `bucket`.
    pub open spec fn serves(self, bucket: int) -> bool {
        self.bucket_start <= bucket && bucket < self.bucket_end
    }

    /// Whether this range is unusable: inverted, or reaching past 100. An
    /// empty range is usable (it is a 0% entry).
    pub open spec fn is_invalid(self) -> bool {
        self.bucket_end < self.bucket_start || self.bucket_end > 100
    }

    /// Whether this range serves `bucket` (`0..=99`).
    ///
    /// `[0, 100)` accepts everything. An empty or inverted range accepts
    /// nothing.
    pub fn accepts(&self, bucket: u8) -> (r: bool)
        ensures
            r == self.serves(bucket as int),
    {
        bucket >= self.bucket_start && bucket < self.bucket_end
    }

    /// Turn an ordered percentage split into contiguous half-open ranges
    /// covering exactly `0..100`.
    ///
    /// Entry `i` starts where entry `i - 1` ended, so input order is traffic
    /// order. The percentages must sum to exactly 100: less is
    /// [`RolloutError::Under`], more is [`RolloutError::Over`], each carrying
    /// the true sum. A `0` entry yields an empty range.
    pub fn partition(percentages: &[u8]) -> (r: Result<Vec<Rollout>, RolloutError>)
        requires
            total(percentages@) <= u32::MAX,
        ensures
            total(percentages@) < 100 ==> r == Err::<Vec<Rollout>, RolloutError>(
                RolloutError::Under { total: total(percentages@) as u32 },
            ),
            total(percentages@) > 100 ==> r == Err::<Vec<Rollout>, RolloutError>(
                RolloutError::Over { total: total(percentages@) as u32 },
            ),
            total(percentages@) == 100 ==> r is Ok && r->Ok_0@ == partition_ranges(percentages@),
    {
        let n = percentages.len();
        let mut sum: u32 = 0;
        let mut i: usize = 0;
        while i < n
            invariant
                n == percentages@.len(),
                i <= n,
                sum == total(percentages@.take(i as int)),
                total(percentages@) <= u32::MAX,
            decreases n - i,
        {
            proof {
                lemma_total_take_step(percentages@, i as int);
                lemma_total_take_monotone(percentages@, i + 1, n as int);
                assert(percentages@.take(n as int) =~= percentages@);
            }
            sum = sum + percentages[i] as u32;
            i = i + 1;
        }
        assert(percentages@.take(n as int) =~= percentages@);
        if sum < 100 {
            return Err(RolloutError::Under { total: sum });
        }
        if sum > 100 {
            return Err(RolloutError::Over { total: sum });
        }
        let mut offset: u8 = 0;
        let mut out: Vec<Rollout> = Vec::new();
        let mut k: usize = 0;
        while k < n
            invariant
                n == percentages@.len(),
                total(percentages@) == 100,
                k <= n,
                offset == prefix(percentages@, k as int),
                out@.len() == k,
                forall|j: int| 0 <= j < k ==> #[trigger] out@[j] == partition_ranges(percentages@)[j],
            decreases n - k,
        {
            proof {
                lemma_total_take_step(percentages@, k as int);
                lemma_total_take_monotone(percentages@, k + 1, n as int);
                assert(percentages@.take(n as int) =~= percentages@);
            }
            let end: u8 = offset + percentages[k];
            out.push(Rollout { bucket_start: offset, bucket_end: end });
            offset = end;
            k = k + 1;
        }
        assert(out@ =~= partition_ranges(percentages@));
        Ok(out)
    }

    /// Check that a set of ranges partitions `0..100`: every bucket served,
    /// none served twice.
    ///
    /// Ranges are checked individually first, so an inverted range or one
    /// reaching past 100 is reported as itself (the first such range).
    /// Coverage is then reported at the lowest affected bucket.
    pub fn validate_set(rollouts: &[Rollout]) -> (r: Result<(), RolloutError>)
        ensures
            r == validation(rollouts@),
    {
        let n = rollouts.len();
        let mut i: usize = 0;
        assert(rollouts@.skip(0) =~= rollouts@);
        while i < n
            invariant
                n == rollouts@.len(),
                i <= n,
                first_invalid(rollouts@) == first_invalid(rollouts@.skip(i as int)),
            decreases n - i,
        {
            let r = rollouts[i];
            let ghost rest = rollouts@.skip(i as int);
            assert(rest[0] == r);
            if r.bucket_end < r.bucket_start || r.bucket_end > BUCKETS {
                return Err(RolloutError::InvalidRange { rollout: r });
            }
            assert(rest.drop_first() =~= rollouts@.skip(i + 1));
            i = i + 1;
        }
        assert(rollouts@.skip(n as int).len() == 0);
        let mut bucket: u8 = 0;
        while bucket < BUCKETS
            invariant
                n == rollouts@.len(),
                first_invalid(rollouts@) is None,
                bucket <= 100,
                first_uncovered(rollouts@, 0) == first_uncovered(rollouts@, bucket as nat),
            decreases 100 - bucket,
        {
            let mut count: usize = 0;
            let mut j: usize = 0;
            while j < n
                invariant
                    n == rollouts@.len(),
                    j <= n,
                    count <= j,
                    count == serving_count(rollouts@.take(j as int), bucket as int),
                decreases n - j,
            {
                assert(rollouts@.take(j + 1).drop_last() =~= rollouts@.take(j as int));
                if rollouts[j].accepts(bucket) {
                    count = count + 1;
                }
                j = j + 1;
            }
            assert(rollouts@.take(n as int) =~= rollouts@);
            if count == 0 {
                return Err(RolloutError::Gap { bucket });
            }
            if count > 1 {
                return Err(RolloutError::Overlap { bucket });
            }
            bucket = bucket + 1;
        }
        Ok(())
    }
}

/// What the percentages sum to.
pub open spec fn total(p: Seq<u8>) -> nat
    decreases p.len(),
{
    if p.len() == 0 {
        0
    } else {
        total(p.drop_last()) + p.last() as nat
    }
}

/// Where entry `i` of a partition starts: the sum of the entries before it.
pub open spec fn prefix(p: Seq<u8>, i: int) -> nat {
    total(p.take(i))
}

/// The ranges [`Rollout::partition`] builds: entry `i` covers
/// `[prefix(i), prefix(i + 1))`.
pub open spec fn partition_ranges(p: Seq<u8>) -> Seq<Rollout> {
    Seq::new(
        p.len(),
        |i: int| Rollout { bucket_start: prefix(p, i) as u8, bucket_end: prefix(p, i + 1) as u8 },
    )
}

/// How many ranges of `rs` serve `bucket`.
pub open spec fn serving_count(rs: Seq<Rollout>, bucket: int) -> nat
    decreases rs.len(),
{
    if rs.len() == 0 {
        0
    } else {
        serving_count(rs.drop_last(), bucket) + if rs.last().serves(bucket) {
            1nat
        } else {
            0nat
        }
    }
}

/// The first range of `rs` that is unusable.
pub open spec fn first_invalid(rs: Seq<Rollout>) -> Option<Rollout>
    decreases rs.len(),
{
    if rs.len() == 0 {
        None
    } else if rs[0].is_invalid() {
        Some(rs[0])
    } else {
        first_invalid(rs.drop_first())
    }
}

/// The lowest bucket at or above `from` (below 100) not served exactly once,
/// with how many ranges serve it.
pub open spec fn first_uncovered(rs: Seq<Rollout>, from: nat) -> Option<(nat, nat)>
    decreases 100 - from,
{
    if from >= 100 {
        None
    } else if serving_count(rs, from as int) != 1 {
        Some((from, serving_count(rs, from as int)))
    } else {
        first_uncovered(rs, from + 1)
    }
}

/// What [`Rollout::validate_set`] answers for `rs`.
pub open spec fn validation(rs: Seq<Rollout>) -> Result<(), RolloutError> {
    match first_invalid(rs) {
        Some(r) => Err(RolloutError::InvalidRange { rollout: r }),
        None => match first_uncovered(rs, 0) {
            None => Ok(()),
            Some((bucket, count)) => if count == 0 {
                Err(RolloutError::Gap { bucket: bucket as u8 })
            } else {
                Err(RolloutError::Overlap { bucket: bucket as u8 })
            },
        },
    }
}

pub proof fn lemma_total_take_step(p: Seq<u8>, i: int)
    requires
        0 <= i < p.len(),
    ensures
        total(p.take(i + 1)) == total(p.take(i)) + p[i],
{
    assert(p.take(i + 1).drop_last() =~= p.take(i));
}

pub proof fn lemma_total_take_monotone(p: Seq<u8>, i: int, j: int)
    requires
        0 <= i <= j <= p.len(),
    ensures
        total(p.take(i)) <= total(p.take(j)),
    decreases j - i,
{
    if i < j {
        lemma_total_take_step(p, j - 1);
        lemma_total_take_monotone(p, i, j - 1);
    }
}

proof fn lemma_first_invalid_none(rs: Seq<Rollout>)
    requires
        forall|i: int| 0 <= i < rs.len() ==> !(#[trigger] rs[i]).is_invalid(),
    ensures
        first_invalid(rs) is None,
    decreases rs.len(),
{
    if rs.len() > 0 {
        assert forall|i: int| 0 <= i < rs.drop_first().len() implies !(
        #[trigger] rs.drop_first()[i]).is_invalid() by {
            assert(rs.drop_first()[i] == rs[i + 1]);
        }
        lemma_first_invalid_none(rs.drop_first());
    }
}

proof fn lemma_first_uncovered_none(rs: Seq<Rollout>, from: nat)
    requires
        forall|b: int| from <= b < 100 ==> serving_count(rs, b) == 1,
    ensures
        first_uncovered(rs, from) is None,
    decreases 100 - from,
{
    if from < 100 {
        lemma_first_uncovered_none(rs, from + 1);
    }
}

/// Among the first `k` ranges of a partition, bucket `b` is served by one
/// range when it lies below where the `k`-th range ends, and by none
/// otherwise.
proof fn lemma_partition_count(p: Seq<u8>, k: int, b: int)
    requires
        total(p) == 100,
        0 <= k <= p.len(),
        0 <= b,
    ensures
        serving_count(partition_ranges(p).take(k), b) == if b < prefix(p, k) {
            1nat
        } else {
            0nat
        },
    decreases k,
{
    let rs = partition_ranges(p);
    assert(p.take(p.len() as int) =~= p);
    if k == 0 {
        assert(p.take(0) =~= Seq::<u8>::empty());
    } else {
        lemma_partition_count(p, k - 1, b);
        assert(rs.take(k).drop_last() =~= rs.take(k - 1));
        lemma_total_take_monotone(p, k - 1, k);
        lemma_total_take_monotone(p, k, p.len() as int);
        let last = rs.take(k).last();
        assert(last == rs[k - 1]);
        assert(last.bucket_start == prefix(p, k - 1));
        assert(last.bucket_end == prefix(p, k));
    }
}

/// Input order is traffic order: the first range starts at bucket 0, each
/// range is exactly as wide as its percentage, each starts where the one
/// before it ended, and the last ends at bucket 100.
pub proof fn lemma_partition_widths(p: Seq<u8>)
    requires
        total(p) == 100,
    ensures
        partition_ranges(p).len() == p.len(),
        p.len() > 0 ==> partition_ranges(p)[0].bucket_start == 0,
        p.len() > 0 ==> partition_ranges(p)[p.len() - 1].bucket_end == 100,
        forall|i: int| 0 <= i < p.len() ==> #[trigger] partition_ranges(p)[i].bucket_end
            - partition_ranges(p)[i].bucket_start == p[i] as int,
        forall|i: int| 0 < i < p.len() ==> #[trigger] partition_ranges(p)[i].bucket_start
            == partition_ranges(p)[i - 1].bucket_end,
{
    let rs = partition_ranges(p);
    assert(p.take(p.len() as int) =~= p);
    assert(p.take(0) =~= Seq::<u8>::empty());
    assert forall|i: int| 0 <= i < p.len() implies #[trigger] rs[i].bucket_end
        - rs[i].bucket_start == p[i] as int by {
        lemma_total_take_step(p, i);
        lemma_total_take_monotone(p, i + 1, p.len() as int);
    }
    assert forall|i: int| 0 < i < p.len() implies #[trigger] rs[i].bucket_start
        == rs[i - 1].bucket_end by {
        lemma_total_take_monotone(p, i, p.len() as int);
    }
}

/// The law behind [`Rollout::partition`]: whenever it succeeds, its output
/// passes [`Rollout::validate_set`] — every bucket `0..100` is served by
/// exactly one of the ranges it built.
pub proof fn lemma_partition_output_validates(p: Seq<u8>)
    requires
        total(p) == 100,
    ensures
        validation(partition_ranges(p)) == Ok::<(), RolloutError>(()),
        forall|b: int| 0 <= b < 100 ==> serving_count(partition_ranges(p), b) == 1,
{
    let rs = partition_ranges(p);
    assert(p.take(p.len() as int) =~= p);
    assert(rs.take(p.len() as int) =~= rs);
    assert forall|b: int| 0 <= b < 100 implies serving_count(rs, b) == 1 by {
        lemma_partition_count(p, p.len() as int, b);
    }
    assert forall|i: int| 0 <= i < rs.len() implies !(#[trigger] rs[i]).is_invalid() by {
        lemma_total_take_monotone(p, i, i + 1);
        lemma_total_take_monotone(p, i + 1, p.len() as int);
    }
    lemma_first_invalid_none(rs);
    lemma_first_uncovered_none(rs, 0);
}

proof fn lemma_first_invalid_some(rs: Seq<Rollout>, i: int)
    requires
        0 <= i < rs.len(),
        rs[i].is_invalid(),
    ensures
        first_invalid(rs) is Some,
    decreases rs.len(),
{
    if !rs[0].is_invalid() {
        assert(rs.drop_first()[i - 1] == rs[i]);
        lemma_first_invalid_some(rs.drop_first(), i - 1);
    }
}

/// Counting the ranges that serve a bucket is counting them in the multiset
/// of ranges: the order of the ranges plays no part.
proof fn lemma_serving_count_multiset(rs: Seq<Rollout>, b: int)
    ensures
        serving_count(rs, b) == rs.to_multiset().filter(|r: Rollout| r.serves(b)).len(),
    decreases rs.len(),
{
    broadcast use vstd::seq_lib::group_to_multiset_ensures;
    let f = |r: Rollout| r.serves(b);
    if rs.len() == 0 {
        assert(rs.to_multiset() =~= Multiset::<Rollout>::empty());
        assert(Multiset::<Rollout>::empty().filter(f) =~= Multiset::<Rollout>::empty());
    } else {
        let init = rs.drop_last();
        let x = rs.last();
        lemma_serving_count_multiset(init, b);
        assert(init.push(x) =~= rs);
        let m = init.to_multiset();
        assert(rs.to_multiset() =~= m.insert(x));
        if f(x) {
            assert(m.insert(x).filter(f) =~= m.filter(f).insert(x));
        } else {
            assert(m.insert(x).filter(f) =~= m.filter(f));
        }
    }
}

proof fn lemma_first_uncovered_same(rs1: Seq<Rollout>, rs2: Seq<Rollout>, from: nat)
    requires
        forall|b: int| from <= b < 100 ==> serving_count(rs1, b) == serving_count(rs2, b),
    ensures
        first_uncovered(rs1, from) == first_uncovered(rs2, from),
    decreases 100 - from,
{
    if from < 100 {
        lemma_first_uncovered_same(rs1, rs2, from + 1);
    }
}

/// Validity of a rollout set is a property of the set, not of its order:
/// two sequences holding the same ranges are accepted or refused alike, and
/// when neither holds an unusable range they are refused for the same bucket.
pub proof fn lemma_validation_ignores_order(rs1: Seq<Rollout>, rs2: Seq<Rollout>)
    requires
        rs1.to_multiset() == rs2.to_multiset(),
    ensures
        (validation(rs1) is Ok) == (validation(rs2) is Ok),
        first_invalid(rs1) is None ==> validation(rs1) == validation(rs2),
{
    broadcast use vstd::seq_lib::group_to_multiset_ensures;
    assert forall|b: int| 0 <= b < 100 implies serving_count(rs1, b) == serving_count(rs2, b) by {
        lemma_serving_count_multiset(rs1, b);
        lemma_serving_count_multiset(rs2, b);
    }
    lemma_first_uncovered_same(rs1, rs2, 0);
    if first_invalid(rs1) is None && first_invalid(rs2) is Some {
        lemma_first_invalid_exists(rs2);
        let i = choose|i: int| 0 <= i < rs2.len() && #[trigger] rs2[i].is_invalid();
        assert(rs2.contains(rs2[i]));
        assert(rs2.to_multiset().count(rs2[i]) > 0);
        assert(rs1.to_multiset().count(rs2[i]) > 0);
        assert(rs1.contains(rs2[i]));
        let j = choose|j: int| 0 <= j < rs1.len() && rs1[j] == rs2[i];
        lemma_first_invalid_some(rs1, j);
    }
    if first_invalid(rs2) is None && first_invalid(rs1) is Some {
        lemma_first_invalid_exists(rs1);
        let i = choose|i: int| 0 <= i < rs1.len() && #[trigger] rs1[i].is_invalid();
        assert(rs1.contains(rs1[i]));
        assert(rs1.to_multiset().count(rs1[i]) > 0);
        assert(rs2.to_multiset().count(rs1[i]) > 0);
        assert(rs2.contains(rs1[i]));
        let j = choose|j: int| 0 <= j < rs2.len() && rs2[j] == rs1[i];
        lemma_first_invalid_some(rs2, j);
    }
}

proof fn lemma_first_invalid_exists(rs: Seq<Rollout>)
    requires
        first_invalid(rs) is Some,
    ensures
        exists|i: int| 0 <= i < rs.len() && #[trigger] rs[i].is_invalid(),
    decreases rs.len(),
{
    if !rs[0].is_invalid() {
        lemma_first_invalid_exists(rs.drop_first());
        let i = choose|i: int| 0 <= i < rs.drop_first().len() && #[trigger] rs.drop_first()[i].is_invalid();
        assert(rs[i + 1] == rs.drop_first()[i]);
    }
}

/// No range is unusable when the first unusable one does not exist.
proof fn lemma_first_invalid_none_all(rs: Seq<Rollout>)
    requires
        first_invalid(rs) is None,
    ensures
        forall|i: int| 0 <= i < rs.len() ==> !(#[trigger] rs[i]).is_invalid(),
    decreases rs.len(),
{
    if rs.len() > 0 {
        lemma_first_invalid_none_all(rs.drop_first());
        assert forall|i: int| 0 <= i < rs.len() implies !(#[trigger] rs[i]).is_invalid() by {
            if i > 0 {
                assert(rs[i] == rs.drop_first()[i - 1]);
            }
        }
    }
}

/// What the scan from `from` finds: nothing exactly when every bucket from
/// `from` to 99 is served once; otherwise the lowest bucket that is not,
/// with how many ranges serve it.
proof fn lemma_first_uncovered_scan(rs: Seq<Rollout>, from: nat)
    ensures
        first_uncovered(rs, from) is None ==> forall|b: int| from <= b < 100 ==> serving_count(rs, b) == 1,
        first_uncovered(rs, from) matches Some((b, c)) ==> from <= b < 100 && c == serving_count(rs, b as int)
            && c != 1 && forall|b2: int| from <= b2 < b ==> serving_count(rs, b2) == 1,
    decreases 100 - from,
{
    if from < 100 {
        lemma_first_uncovered_scan(rs, from + 1);
    }
}

/// A set of ranges validates exactly when every range is well formed
/// (start at most end, end at most 100) and every bucket from 0 to 99 is
/// served by exactly one range.
pub proof fn lemma_validation_is_partition(rs: Seq<Rollout>)
    ensures
        validation(rs) is Ok <==> ((forall|i: int|
            0 <= i < rs.len() ==> #[trigger] rs[i].bucket_start <= rs[i].bucket_end && rs[i].bucket_end
                <= 100) && (forall|b: int| 0 <= b < 100 ==> #[trigger] serving_count(rs, b) == 1)),
{
    lemma_first_uncovered_scan(rs, 0);
    if first_invalid(rs) is None {
        lemma_first_invalid_none_all(rs);
        assert forall|i: int| 0 <= i < rs.len() implies #[trigger] rs[i].bucket_start <= rs[i].bucket_end
            && rs[i].bucket_end <= 100 by {
            assert(!rs[i].is_invalid());
        }
    } else {
        lemma_first_invalid_exists(rs);
        let i = choose|i: int| 0 <= i < rs.len() && #[trigger] rs[i].is_invalid();
        assert(!(rs[i].bucket_start <= rs[i].bucket_end && rs[i].bucket_end <= 100));
    }
    if validation(rs) is Ok {
        assert(first_invalid(rs) is None);
        assert(first_uncovered(rs, 0) is None);
    } else if first_invalid(rs) is None {
        let (b, c) = first_uncovered(rs, 0)->0;
        assert(serving_count(rs, b as int) != 1);
    }
}

/// A gap or an overlap is reported at the lowest bucket that is not served
/// exactly once: a gap where no range serves it, an overlap where more than
/// one does, every lower bucket being served once.
pub proof fn lemma_validation_reports_lowest_bucket(rs: Seq<Rollout>, bucket: u8)
    ensures
        validation(rs) == Err::<(), RolloutError>(RolloutError::Gap { bucket }) ==> bucket < 100
            && serving_count(rs, bucket as int) == 0 && forall|b: int|
            0 <= b < bucket ==> #[trigger] serving_count(rs, b) == 1,
        validation(rs) == Err::<(), RolloutError>(RolloutError::Overlap { bucket }) ==> bucket < 100
            && serving_count(rs, bucket as int) > 1 && forall|b: int|
            0 <= b < bucket ==> #[trigger] serving_count(rs, b) == 1,
{
    lemma_first_uncovered_scan(rs, 0);
}

impl RolloutError {
    /// The human-readable description of the error.
    pub open spec fn describe(self) -> Seq<char> {
        match self {
            RolloutError::Under { total } => "rollout percentages sum to "@ + decimal(total as nat)
                + ", not 100 — the remaining "@ + decimal((100 - total) as nat)
                + " buckets match nothing"@,
            RolloutError::Over { total } => "rollout percentages sum to "@ + decimal(total as nat)
                + ", not 100 — the excess "@ + decimal((total - 100) as nat)
                + " pushes later entries past bucket 100, where they never match"@,
            RolloutError::Gap { bucket } => "bucket "@ + decimal(bucket as nat)
                + " is served by no rollout range — traffic mapping to it matches nothing"@,
            RolloutError::Overlap { bucket } => "bucket "@ + decimal(bucket as nat)
                + " is served by more than one rollout range — which workflow answers depends on ordering, not on the rollout"@,
            RolloutError::InvalidRange { rollout } => "rollout range ["@ + decimal(
                rollout.bucket_start as nat,
            ) + ", "@ + decimal(rollout.bucket_end as nat) + ") is not usable: "@
                + if rollout.bucket_end < rollout.bucket_start {
                "the bounds are inverted"@
            } else {
                "bucket_end reaches past 100"@
            },
        }
    }

    /// The human-readable description of the error.
    ///
    /// An [`RolloutError::Under`] names the shortfall and an
    /// [`RolloutError::Over`] the excess, so each must carry a total on its
    /// own side of 100.
    pub fn to_string(&self) -> (s: String)
        requires
            self matches RolloutError::Under { total } ==> total <= 100,
            self matches RolloutError::Over { total } ==> total >= 100,
        ensures
            s@ == self.describe(),
    {
        let mut s = String::new();
        match self {
            RolloutError::Under { total } => {
                push_str(&mut s, "rollout percentages sum to ");
                push_decimal(&mut s, *total as u64);
                push_str(&mut s, ", not 100 — the remaining ");
                push_decimal(&mut s, (100 - *total) as u64);
                push_str(&mut s, " buckets match nothing");
            },
            RolloutError::Over { total } => {
                push_str(&mut s, "rollout percentages sum to ");
                push_decimal(&mut s, *total as u64);
                push_str(&mut s, ", not 100 — the excess ");
                push_decimal(&mut s, (*total - 100) as u64);
                push_str(&mut s, " pushes later entries past bucket 100, where they never match");
            },
            RolloutError::Gap { bucket } => {
                push_str(&mut s, "bucket ");
                push_decimal(&mut s, *bucket as u64);
                push_str(
                    &mut s,
                    " is served by no rollout range — traffic mapping to it matches nothing",
                );
            },
            RolloutError::Overlap { bucket } => {
                push_str(&mut s, "bucket ");
                push_decimal(&mut s, *bucket as u64);
                push_str(
                    &mut s,
                    " is served by more than one rollout range — which workflow answers depends on ordering, not on the rollout",
                );
            },
            RolloutError::InvalidRange { rollout } => {
                push_str(&mut s, "rollout range [");
                push_decimal(&mut s, rollout.bucket_start as u64);
                push_str(&mut s, ", ");
                push_decimal(&mut s, rollout.bucket_end as u64);
                push_str(&mut s, ") is not usable: ");
                if rollout.bucket_end < rollout.bucket_start {
                    push_str(&mut s, "the bounds are inverted");
                } else {
                    push_str(&mut s, "bucket_end reaches past 100");
                }
            },
        }
        assert(s@ =~= self.describe());
        s
    }
}

} // verus!
