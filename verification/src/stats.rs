//! Running latency statistics over exact integer latencies (nanoseconds).
//!
//! Every figure is kept exactly: the mean and the sample variance are
//! fractions of integers, so no rounding happens while samples are added;
//! rounding is left to whoever prints them.

use vstd::prelude::*;

use crate::wide::{add_small, base, difference, lemma_wide_of_value, product, scale, wide_of, zero, Wide};

verus! {

/// Largest latency, in nanoseconds, that a sample can hold.
pub open spec fn max_sample() -> int {
    0xffff_ffff_ffff_ffff
}

/// Sum of the samples.
pub open spec fn sum_of(s: Seq<u64>) -> int
    decreases s.len(),
{
    if s.len() == 0 {
        0
    } else {
        sum_of(s.drop_last()) + s.last()
    }
}

/// Sum of the squares of the samples.
pub open spec fn sum_of_squares(s: Seq<u64>) -> int
    decreases s.len(),
{
    if s.len() == 0 {
        0
    } else {
        sum_of_squares(s.drop_last()) + s.last() * s.last()
    }
}

/// Smallest sample (0 for no samples).
pub open spec fn min_of(s: Seq<u64>) -> int
    decreases s.len(),
{
    if s.len() == 0 {
        0
    } else if s.len() == 1 {
        s[0] as int
    } else {
        let m = min_of(s.drop_last());
        if (s.last() as int) < m {
            s.last() as int
        } else {
            m
        }
    }
}

/// Largest sample (0 for no samples).
pub open spec fn max_of(s: Seq<u64>) -> int
    decreases s.len(),
{
    if s.len() == 0 {
        0
    } else if s.len() == 1 {
        s[0] as int
    } else {
        let m = max_of(s.drop_last());
        if (s.last() as int) > m {
            s.last() as int
        } else {
            m
        }
    }
}

/// `sum over i of (k * s[i] - c)^2`: scaled squared deviations from `c / k`.
pub open spec fn deviation_sum(s: Seq<u64>, k: int, c: int) -> int
    decreases s.len(),
{
    if s.len() == 0 {
        0
    } else {
        let d = k * s.last() - c;
        deviation_sum(s.drop_last(), k, c) + d * d
    }
}

/// Numerator of the sample variance: `n * sum(x^2) - (sum x)^2`.
pub open spec fn variance_numerator(s: Seq<u64>) -> int {
    s.len() * sum_of_squares(s) - sum_of(s) * sum_of(s)
}

/// Denominator of the sample variance: `n * (n - 1)`.
pub open spec fn variance_denominator(s: Seq<u64>) -> int {
    s.len() * (s.len() - 1)
}

/// The summary of the samples `samples` and of `lost` losses, as
/// `StatsCalculator::get_result` gives it.
pub open spec fn stats_summary(samples: Seq<u64>, lost: nat) -> PingStats {
    let n = samples.len();
    PingStats {
        total_packages: (n + lost) as i32,
        received_packages: n as i32,
        avg_latency: if n == 0 {
            Fraction { num: 0, den: 1 }
        } else {
            Fraction { num: sum_of(samples) as u128, den: n as u128 }
        },
        max_latency: max_of(samples) as u64,
        min_latency: min_of(samples) as u64,
        latency_variance: if n < 2 {
            WideFraction { num: Wide { hi: 0, lo: 0 }, den: 1 }
        } else {
            WideFraction {
                num: wide_of(variance_numerator(samples)),
                den: variance_denominator(samples) as u128,
            }
        },
    }
}

/// A fraction of non-negative integers.
#[derive(Clone, Copy, Debug, PartialEq, Eq, Structural)]
pub struct Fraction {
    pub num: u128,
    pub den: u128,
}

/// A fraction whose numerator may need more than 128 bits.
#[derive(Clone, Copy, Debug, PartialEq, Eq, Structural)]
pub struct WideFraction {
    pub num: Wide,
    pub den: u128,
}

/// Summary of a ping run. Latencies are in nanoseconds.
#[derive(Clone, Copy, Debug, PartialEq, Eq, Structural)]
pub struct PingStats {
    /// Probes sent: answered ones plus lost ones.
    pub total_packages: i32,
    /// Probes that were answered.
    pub received_packages: i32,
    /// Mean latency, exactly (`0 / 1` when nothing was received).
    pub avg_latency: Fraction,
    /// Largest latency (0 when nothing was received).
    pub max_latency: u64,
    /// Smallest latency (0 when nothing was received).
    pub min_latency: u64,
    /// Sample variance of the latencies, exactly, in square nanoseconds;
    /// the standard deviation is its square root (`0 / 1` below two samples).
    pub latency_variance: WideFraction,
}

/// Accumulates latencies and losses of a ping run.
pub struct StatsCalculator {
    loss: i32,
    count: usize,
    sum: u128,
    sum_squares: Wide,
    min_latency: u64,
    max_latency: u64,
    samples: Ghost<Seq<u64>>,
}

impl StatsCalculator {
    #[verifier::type_invariant]
    spec fn inv(self) -> bool {
        &&& self.count == self.samples@.len()
        &&& 0 <= self.loss
        &&& self.count + self.loss <= i32::MAX
        &&& self.sum == sum_of(self.samples@)
        &&& self.sum_squares.value() == sum_of_squares(self.samples@)
        &&& self.min_latency == min_of(self.samples@)
        &&& self.max_latency == max_of(self.samples@)
    }

    /// The latencies added so far, in order.
    pub closed spec fn samples(&self) -> Seq<u64> {
        self.samples@
    }

    /// The number of losses added so far.
    pub closed spec fn lost(&self) -> nat {
        self.loss as nat
    }

    /// What `get_result` reports for the samples and losses so far.
    pub open spec fn summary(&self) -> PingStats {
        stats_summary(self.samples(), self.lost())
    }

    /// Probes accounted for: samples plus losses.
    pub open spec fn total(&self) -> nat {
        self.samples().len() + self.lost()
    }

    /// A calculator with no samples and no losses.
    pub fn new() -> (stats: Self)
        ensures
            stats.samples() == Seq::<u64>::empty(),
            stats.lost() == 0,
    {
        StatsCalculator {
            loss: 0,
            count: 0,
            sum: 0,
            sum_squares: zero(),
            min_latency: 0,
            max_latency: 0,
            samples: Ghost(Seq::empty()),
        }
    }

    /// Records a probe answered after `latency` nanoseconds.
    pub fn add(&mut self, latency: u64)
        requires
            old(self).total() < i32::MAX,
        ensures
            final(self).samples() == old(self).samples().push(latency),
            final(self).lost() == old(self).lost(),
    {
        proof {
            use_type_invariant(&*self);
            lemma_sum_bounds(self.samples@);
        }
        let ghost old_samples = self.samples@;
        let ghost new_samples = old_samples.push(latency);
        let n = self.count;
        let wide: u128 = latency as u128;
        proof {
            vstd::arithmetic::mul::lemma_mul_upper_bound(
                latency as int,
                max_sample(),
                latency as int,
                max_sample(),
            );
            assert(new_samples.drop_last() == old_samples);
            vstd::arithmetic::mul::lemma_mul_upper_bound(
                n as int,
                i32::MAX as int,
                max_sample() * max_sample(),
                max_sample() * max_sample(),
            );
            vstd::arithmetic::mul::lemma_mul_upper_bound(
                n as int,
                i32::MAX as int,
                max_sample(),
                max_sample(),
            );
            assert(i32::MAX * (max_sample() * max_sample()) + max_sample() * max_sample() < base()
                * base());
        }
        let new_min = if n == 0 || latency < self.min_latency {
            latency
        } else {
            self.min_latency
        };
        let new_max = if n == 0 || latency > self.max_latency {
            latency
        } else {
            self.max_latency
        };
        *self = StatsCalculator {
            loss: self.loss,
            count: n + 1,
            sum: self.sum + wide,
            sum_squares: add_small(self.sum_squares, wide * wide),
            min_latency: new_min,
            max_latency: new_max,
            samples: Ghost(new_samples),
        };
    }

    /// Records a probe that got no answer.
    pub fn add_loss(&mut self)
        requires
            old(self).total() < i32::MAX,
        ensures
            final(self).samples() == old(self).samples(),
            final(self).lost() == old(self).lost() + 1,
    {
        proof {
            use_type_invariant(&*self);
        }
        *self = StatsCalculator {
            loss: self.loss + 1,
            count: self.count,
            sum: self.sum,
            sum_squares: self.sum_squares,
            min_latency: self.min_latency,
            max_latency: self.max_latency,
            samples: Ghost(self.samples@),
        };
    }

    /// Number of latencies added so far.
    pub fn count(&self) -> (n: usize)
        ensures
            n == self.samples().len(),
    {
        proof {
            use_type_invariant(self);
        }
        self.count
    }

    /// Number of losses added so far.
    pub fn loss(&self) -> (n: i32)
        ensures
            n == self.lost(),
    {
        proof {
            use_type_invariant(self);
        }
        self.loss
    }

    /// Smallest latency added so far, if any.
    pub fn min_latency(&self) -> (m: Option<u64>)
        ensures
            self.samples().len() == 0 ==> m is None,
            self.samples().len() > 0 ==> m == Some(min_of(self.samples()) as u64),
    {
        proof {
            use_type_invariant(self);
        }
        if self.count == 0 {
            None
        } else {
            Some(self.min_latency)
        }
    }

    /// Largest latency added so far, if any.
    pub fn max_latency(&self) -> (m: Option<u64>)
        ensures
            self.samples().len() == 0 ==> m is None,
            self.samples().len() > 0 ==> m == Some(max_of(self.samples()) as u64),
    {
        proof {
            use_type_invariant(self);
        }
        if self.count == 0 {
            None
        } else {
            Some(self.max_latency)
        }
    }

    /// The exact sample variance of the latencies: `0 / 1` below two
    /// samples, else `(n * sum(x^2) - (sum x)^2) / (n * (n - 1))`.
    pub fn variance(&self) -> (v: WideFraction)
        ensures
            v.den > 0,
            self.samples().len() < 2 ==> v == (WideFraction { num: Wide { hi: 0, lo: 0 }, den: 1 }),
            self.samples().len() >= 2 ==> v.num.value() == variance_numerator(self.samples())
                && v.den == variance_denominator(self.samples()),
    {
        proof {
            use_type_invariant(self);
        }
        if self.count < 2 {
            return WideFraction { num: Wide { hi: 0, lo: 0 }, den: 1 };
        }
        let ghost s = self.samples@;
        let n: u128 = self.count as u128;
        proof {
            lemma_sum_bounds(s);
            lemma_variance_parts(s);
        }
        assert(n * (n - 1) > 0) by (nonlinear_arith)
            requires
                n >= 2,
        ;
        let scaled = scale(self.sum_squares, n);
        let squared = product(self.sum, self.sum);
        WideFraction { num: difference(scaled, squared), den: n * (n - 1) }
    }

    /// The summary of everything added so far.
    pub fn get_result(&self) -> (r: PingStats)
        ensures
            r == self.summary(),
            r.total_packages == self.total(),
            r.received_packages == self.samples().len(),
            self.samples().len() == 0 ==> r.avg_latency == (Fraction { num: 0, den: 1 })
                && r.max_latency == 0 && r.min_latency == 0,
            self.samples().len() > 0 ==> r.avg_latency.num == sum_of(self.samples())
                && r.avg_latency.den == self.samples().len() && r.min_latency == min_of(
                self.samples(),
            ) && r.max_latency == max_of(self.samples()),
            self.samples().len() < 2 ==> r.latency_variance.num.value() == 0
                && r.latency_variance.den == 1,
            self.samples().len() >= 2 ==> r.latency_variance.num.value() == variance_numerator(
                self.samples(),
            ) && r.latency_variance.den == variance_denominator(self.samples()),
            0 <= r.received_packages <= r.total_packages,
            r.avg_latency.den > 0,
            r.latency_variance.den > 0,
    {
        proof {
            use_type_invariant(self);
        }
        let variance = self.variance();
        proof {
            lemma_wide_of_value(variance.num);
        }
        if self.count == 0 {
            return PingStats {
                total_packages: self.loss,
                received_packages: 0,
                avg_latency: Fraction { num: 0, den: 1 },
                max_latency: 0,
                min_latency: 0,
                latency_variance: variance,
            };
        }
        PingStats {
            total_packages: self.count as i32 + self.loss,
            received_packages: self.count as i32,
            avg_latency: Fraction { num: self.sum, den: self.count as u128 },
            max_latency: self.max_latency,
            min_latency: self.min_latency,
            latency_variance: variance,
        }
    }
}

/// The variance numerator is non-negative and its parts fit 256 bits on at
/// most `i32::MAX` samples.
proof fn lemma_variance_parts(s: Seq<u64>)
    requires
        1 <= s.len() <= i32::MAX,
    ensures
        s.len() * sum_of_squares(s) < base() * base(),
        sum_of(s) * sum_of(s) <= s.len() * sum_of_squares(s),
        s.len() * (s.len() - 1) < 0x4000_0000_0000_0000,
        sum_of(s) < base(),
{
    lemma_sum_bounds(s);
    law_variance_nonnegative(s);
    let n = s.len() as int;
    let m2 = max_sample() * max_sample();
    vstd::arithmetic::mul::lemma_mul_upper_bound(n, n, sum_of_squares(s), n * m2);
    vstd::arithmetic::mul::lemma_mul_upper_bound(n, i32::MAX as int, n, i32::MAX as int);
    vstd::arithmetic::mul::lemma_mul_upper_bound(n * n, i32::MAX * i32::MAX, m2, m2);
    vstd::arithmetic::mul::lemma_mul_upper_bound(n, i32::MAX as int, max_sample(), max_sample());
    assert(n * (n * m2) == (n * n) * m2) by (nonlinear_arith);
    assert((i32::MAX * i32::MAX) * m2 < base() * base());
    assert(i32::MAX * max_sample() < base());
    assert(n * (n - 1) <= n * n) by (nonlinear_arith)
        requires
            n >= 1,
    ;
}

/// Expands the scaled squared deviations:
/// `sum (k x - c)^2 == k^2 sum x^2 - 2 k c sum x + n c^2`.
proof fn lemma_deviation_sum_expanded(s: Seq<u64>, k: int, c: int)
    ensures
        deviation_sum(s, k, c) == k * k * sum_of_squares(s) - 2 * k * c * sum_of(s) + s.len() * c
            * c,
    decreases s.len(),
{
    if s.len() > 0 {
        let t = s.drop_last();
        lemma_deviation_sum_expanded(t, k, c);
        let x = s.last() as int;
        lemma_deviation_step(
            k,
            c,
            x,
            deviation_sum(t, k, c),
            sum_of_squares(t),
            sum_of(t),
            t.len() as int,
        );
    }
}

proof fn lemma_deviation_step(k: int, c: int, x: int, dt: int, qt: int, st: int, nt: int)
    requires
        dt == k * k * qt - 2 * k * c * st + nt * c * c,
    ensures
        dt + (k * x - c) * (k * x - c) == k * k * (qt + x * x) - 2 * k * c * (st + x) + (nt + 1) * c
            * c,
{
    let d = k * x - c;
    assert(d * d == k * k * (x * x) - 2 * k * c * x + c * c) by (nonlinear_arith)
        requires
            d == k * x - c,
    ;
    assert(k * k * (qt + x * x) == k * k * qt + k * k * (x * x)) by (nonlinear_arith);
    assert(2 * k * c * (st + x) == 2 * k * c * st + 2 * k * c * x) by (nonlinear_arith);
    assert((nt + 1) * c * c == nt * c * c + c * c) by (nonlinear_arith);
}

proof fn lemma_deviation_sum_nonnegative(s: Seq<u64>, k: int, c: int)
    ensures
        deviation_sum(s, k, c) >= 0,
    decreases s.len(),
{
    if s.len() > 0 {
        lemma_deviation_sum_nonnegative(s.drop_last(), k, c);
        let d = k * s.last() - c;
        assert(d * d >= 0) by (nonlinear_arith);
    }
}

/// The variance reported is the batch sample variance: with `n` samples and
/// mean `m = sum / n`, `(n sum(x^2) - (sum x)^2) / (n (n - 1))` equals
/// `sum (x - m)^2 / (n - 1)`, that is
/// `n * (n sum(x^2) - (sum x)^2) == sum (n x - sum)^2`.
pub proof fn law_variance_matches_batch(s: Seq<u64>)
    ensures
        variance_numerator(s) * s.len() == deviation_sum(s, s.len() as int, sum_of(s)),
{
    let n = s.len() as int;
    let q = sum_of_squares(s);
    let t = sum_of(s);
    lemma_deviation_sum_expanded(s, n, t);
    assert((n * q - t * t) * n == n * n * q - 2 * n * t * t + n * t * t) by (nonlinear_arith);
}

/// The variance is the batch sample variance as a fraction: for `n >= 2`
/// samples with sum `S`, `variance_numerator / variance_denominator` equals
/// `sum (n x - S)^2 / (n^2 (n - 1))`, that is `sum (x - S / n)^2 / (n - 1)`.
pub proof fn law_variance_is_sample_variance(s: Seq<u64>)
    requires
        s.len() >= 2,
    ensures
        variance_numerator(s) * (s.len() * s.len() * (s.len() - 1)) == deviation_sum(
            s,
            s.len() as int,
            sum_of(s),
        ) * variance_denominator(s),
        variance_denominator(s) > 0,
{
    law_variance_matches_batch(s);
    let n = s.len() as int;
    let v = variance_numerator(s);
    let d = deviation_sum(s, n, sum_of(s));
    assert(v * (n * n * (n - 1)) == (v * n) * (n * (n - 1))) by (nonlinear_arith);
    assert(n * (n - 1) > 0) by (nonlinear_arith)
        requires
            n >= 2,
    ;
}

/// The sums add up over the samples: a single sample's sum is itself and
/// its square, and the sums of two runs joined are the sums of each.
pub proof fn law_sums_add_up(s1: Seq<u64>, s2: Seq<u64>, x: u64)
    ensures
        sum_of(seq![x]) == x,
        sum_of_squares(seq![x]) == x * x,
        sum_of(s1 + s2) == sum_of(s1) + sum_of(s2),
        sum_of_squares(s1 + s2) == sum_of_squares(s1) + sum_of_squares(s2),
    decreases s2.len(),
{
    assert(seq![x].drop_last() =~= Seq::<u64>::empty());
    assert(sum_of(Seq::<u64>::empty()) == 0);
    assert(sum_of_squares(Seq::<u64>::empty()) == 0);
    assert(seq![x].last() == x);
    if s2.len() > 0 {
        law_sums_add_up(s1, s2.drop_last(), x);
        assert((s1 + s2).drop_last() =~= s1 + s2.drop_last());
        assert((s1 + s2).last() == s2.last());
    } else {
        assert(s1 + s2 =~= s1);
    }
}

/// The sample variance is never negative: `(sum x)^2 <= n sum(x^2)`.
pub proof fn law_variance_nonnegative(s: Seq<u64>)
    ensures
        variance_numerator(s) >= 0,
{
    let n = s.len() as int;
    if n > 0 {
        law_variance_matches_batch(s);
        lemma_deviation_sum_nonnegative(s, n, sum_of(s));
        let v = variance_numerator(s);
        assert(v >= 0) by (nonlinear_arith)
            requires
                v * n >= 0,
                n > 0,
        ;
    }
}

/// Every sample lies between the smallest and the largest, and both of
/// those are samples.
pub proof fn law_extremes_bound_samples(s: Seq<u64>)
    requires
        s.len() > 0,
    ensures
        forall|i: int| 0 <= i < s.len() ==> min_of(s) <= #[trigger] s[i] <= max_of(s),
        exists|i: int| 0 <= i < s.len() && s[i] == min_of(s),
        exists|j: int| 0 <= j < s.len() && s[j] == max_of(s),
    decreases s.len(),
{
    if s.len() > 1 {
        let t = s.drop_last();
        law_extremes_bound_samples(t);
        let i = choose|i: int| 0 <= i < t.len() && t[i] == min_of(t);
        let j = choose|j: int| 0 <= j < t.len() && t[j] == max_of(t);
        assert(s[i] == t[i]);
        assert(s[j] == t[j]);
        assert(s[s.len() - 1] == s.last());
        assert forall|k: int| 0 <= k < s.len() implies min_of(s) <= #[trigger] s[k] <= max_of(s) by {
            if k < t.len() {
                assert(s[k] == t[k]);
            }
        }
    } else {
        assert(s[0] == min_of(s));
    }
}

/// Adding a latency can only lower the smallest and raise the largest, and
/// the new latency lies between them.
pub proof fn law_add_widens_extremes(s: Seq<u64>, x: u64)
    requires
        s.len() > 0,
    ensures
        min_of(s.push(x)) <= min_of(s),
        max_of(s.push(x)) >= max_of(s),
        min_of(s.push(x)) <= x <= max_of(s.push(x)),
{
    assert(s.push(x).drop_last() == s);
}

/// The mean lies between the smallest and the largest sample:
/// `n * min <= sum <= n * max`.
pub proof fn law_mean_between_extremes(s: Seq<u64>)
    requires
        s.len() > 0,
    ensures
        s.len() * min_of(s) <= sum_of(s) <= s.len() * max_of(s),
{
    law_extremes_bound_samples(s);
    lemma_sum_between(s, min_of(s), max_of(s));
}

/// Taking out the sample at `j` takes it out of the sum and of the sum of
/// squares.
proof fn lemma_sums_remove(s: Seq<u64>, j: int)
    requires
        0 <= j < s.len(),
    ensures
        sum_of(s) == sum_of(s.remove(j)) + s[j],
        sum_of_squares(s) == sum_of_squares(s.remove(j)) + s[j] * s[j],
    decreases s.len(),
{
    let t = s.drop_last();
    if j == s.len() - 1 {
        assert(s.remove(j) =~= t);
    } else {
        lemma_sums_remove(t, j);
        assert(s.remove(j).drop_last() =~= t.remove(j));
        assert(s.remove(j).last() == s.last());
        assert(t[j] == s[j]);
    }
}

/// Samples with the same multiset have the same sums.
proof fn lemma_sums_ignore_order(s1: Seq<u64>, s2: Seq<u64>)
    requires
        s1.to_multiset() == s2.to_multiset(),
    ensures
        s1.len() == s2.len(),
        sum_of(s1) == sum_of(s2),
        sum_of_squares(s1) == sum_of_squares(s2),
    decreases s1.len(),
{
    broadcast use vstd::seq_lib::group_to_multiset_ensures;
    broadcast use vstd::multiset::group_multiset_axioms;

    vstd::seq_lib::to_multiset_len(s1);
    vstd::seq_lib::to_multiset_len(s2);
    if s1.len() == 0 {
        assert(s2.len() == 0);
    } else {
        let x = s1.last();
        let t1 = s1.drop_last();
        assert(t1.push(x) =~= s1);
        assert(s1.to_multiset().count(x) > 0);
        assert(s2.contains(x));
        let j = choose|j: int| 0 <= j < s2.len() && s2[j] == x;
        let t2 = s2.remove(j);
        assert(t2.to_multiset() =~= t1.to_multiset());
        lemma_sums_ignore_order(t1, t2);
        lemma_sums_remove(s2, j);
    }
}

/// The summary depends on the latencies added, not on the order they were
/// added in: two runs whose latencies are the same multiset, with as many
/// losses, report the same figures.
pub proof fn law_summary_ignores_order(s1: Seq<u64>, s2: Seq<u64>, lost: nat)
    requires
        s1.to_multiset() == s2.to_multiset(),
    ensures
        stats_summary(s1, lost) == stats_summary(s2, lost),
{
    broadcast use vstd::seq_lib::group_to_multiset_ensures;

    lemma_sums_ignore_order(s1, s2);
    if s1.len() > 0 {
        law_extremes_bound_samples(s1);
        law_extremes_bound_samples(s2);
        assert forall|a: u64| s1.contains(a) <==> s2.contains(a) by {
            vstd::seq_lib::to_multiset_contains(s1, a);
            vstd::seq_lib::to_multiset_contains(s2, a);
        }
        let i1 = choose|i: int| 0 <= i < s1.len() && s1[i] == min_of(s1);
        let i2 = choose|i: int| 0 <= i < s2.len() && s2[i] == min_of(s2);
        let j1 = choose|j: int| 0 <= j < s1.len() && s1[j] == max_of(s1);
        let j2 = choose|j: int| 0 <= j < s2.len() && s2[j] == max_of(s2);
        assert(s1.contains(s1[i1]) && s2.contains(s2[i2]));
        assert(s1.contains(s1[j1]) && s2.contains(s2[j2]));
        let k2 = choose|k: int| 0 <= k < s2.len() && s2[k] == s1[i1];
        let k1 = choose|k: int| 0 <= k < s1.len() && s1[k] == s2[i2];
        let m2 = choose|k: int| 0 <= k < s2.len() && s2[k] == s1[j1];
        let m1 = choose|k: int| 0 <= k < s1.len() && s1[k] == s2[j2];
        assert(min_of(s2) <= s2[k2]);
        assert(min_of(s1) <= s1[k1]);
        assert(max_of(s2) >= s2[m2]);
        assert(max_of(s1) >= s1[m1]);
    }
}

proof fn lemma_sum_between(s: Seq<u64>, lo: int, hi: int)
    requires
        forall|i: int| 0 <= i < s.len() ==> lo <= #[trigger] s[i] <= hi,
    ensures
        s.len() * lo <= sum_of(s) <= s.len() * hi,
    decreases s.len(),
{
    if s.len() > 0 {
        let t = s.drop_last();
        assert forall|i: int| 0 <= i < t.len() implies lo <= #[trigger] t[i] <= hi by {
            assert(t[i] == s[i]);
        }
        lemma_sum_between(t, lo, hi);
        assert(s[s.len() - 1] == s.last());
        assert(s.len() * lo == t.len() * lo + lo && s.len() * hi == t.len() * hi + hi)
            by (nonlinear_arith)
            requires
                s.len() == t.len() + 1,
        ;
    }
}

proof fn lemma_sum_bounds(s: Seq<u64>)
    ensures
        0 <= sum_of(s) <= s.len() * max_sample(),
        0 <= sum_of_squares(s) <= s.len() * (max_sample() * max_sample()),
    decreases s.len(),
{
    if s.len() > 0 {
        let t = s.drop_last();
        lemma_sum_bounds(t);
        let x = s.last() as int;
        vstd::arithmetic::mul::lemma_mul_upper_bound(x, max_sample(), x, max_sample());
        vstd::arithmetic::mul::lemma_mul_nonnegative(x, x);
        assert(s.len() * max_sample() == t.len() * max_sample() + max_sample()) by (nonlinear_arith)
            requires
                s.len() == t.len() + 1,
        ;
        assert(s.len() * (max_sample() * max_sample()) == t.len() * (max_sample() * max_sample())
            + max_sample() * max_sample()) by (nonlinear_arith)
            requires
                s.len() == t.len() + 1,
        ;
    }
}

} // verus!
