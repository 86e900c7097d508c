//! Arithmetic on weight sequences: totals, normalisation, running sums and
//! the choice of an index for a draw.
//!
//! Weights are unsigned fixed-point numbers. A normalised weight counts in
//! steps of `1 / WEIGHT_UNIT`, so a distribution that sums to one sums to
//! `WEIGHT_UNIT` here, up to the rounding that each division leaves behind.

use vstd::prelude::*;

verus! {

/// The fixed-point value that stands for a weight of one.
pub const WEIGHT_UNIT: u64 = 0x1_0000_0000;

/// The sum of all weights of `w`.
pub open spec fn total(w: Seq<u64>) -> nat
    decreases w.len(),
{
    if w.len() == 0 {
        0
    } else {
        total(w.drop_last()) + w.last() as nat
    }
}

/// The share of `weight` in `sum`, in steps of `1 / WEIGHT_UNIT`, rounded down.
pub open spec fn share(weight: u64, sum: nat) -> u64 {
    (weight as nat * WEIGHT_UNIT as nat / sum) as u64
}

/// Every weight of `w` replaced by its share in `sum`.
pub open spec fn shares(w: Seq<u64>, sum: nat) -> Seq<u64> {
    Seq::new(w.len(), |i: int| share(w[i], sum))
}

/// Every weight of `w` replaced by its share in the total of `w`.
pub open spec fn normalized(w: Seq<u64>) -> Seq<u64> {
    shares(w, total(w))
}

/// `n` equal weights that together come as close to one as equal weights can.
pub open spec fn uniform(n: nat) -> Seq<u64> {
    Seq::new(n, |i: int| (WEIGHT_UNIT as nat / n) as u64)
}

/// The running sums of `w`: entry `i` is the total of the first `i + 1` weights.
pub open spec fn cumulative(w: Seq<u64>) -> Seq<u64> {
    Seq::new(w.len(), |i: int| total(w.take(i + 1)) as u64)
}

/// No entry of `c` is smaller than the one before it.
pub open spec fn non_decreasing(c: Seq<u64>) -> bool {
    forall|i: int, j: int| 0 <= i <= j < c.len() ==> c[i] <= c[j]
}

/// How many entries of `c` lie strictly below `draw`.
pub open spec fn count_below(c: Seq<u64>, draw: u64) -> nat
    decreases c.len(),
{
    if c.len() == 0 {
        0
    } else {
        count_below(c.drop_last(), draw) + if c.last() < draw {
            1nat
        } else {
            0nat
        }
    }
}

/// The index that `draw` selects in the running sums `c`: the first entry
/// that reaches `draw`, and the last index where none does.
pub open spec fn selected(c: Seq<u64>, draw: u64) -> int {
    if count_below(c, draw) < c.len() {
        count_below(c, draw) as int
    } else {
        c.len() - 1
    }
}

/// The particles that the draws pick out of `particles` by the running sums `c`.
pub open spec fn resampled<T>(particles: Seq<T>, c: Seq<u64>, draws: Seq<u64>) -> Seq<T> {
    Seq::new(draws.len(), |k: int| particles[selected(c, draws[k])])
}

/// The total of one weight more is the total so far and that weight.
pub proof fn lemma_total_take_step(w: Seq<u64>, i: int)
    requires
        0 <= i < w.len(),
    ensures
        total(w.take(i + 1)) == total(w.take(i)) + w[i] as nat,
{
    assert(w.take(i + 1).drop_last() =~= w.take(i));
}

/// A total is at most as many times the largest weight as there are weights,
/// and no weight exceeds the total.
pub proof fn lemma_total_bounds(w: Seq<u64>)
    ensures
        total(w) <= w.len() * u64::MAX,
        forall|i: int| 0 <= i < w.len() ==> w[i] as nat <= total(w),
    decreases w.len(),
{
    if w.len() > 0 {
        lemma_total_bounds(w.drop_last());
        assert(total(w) <= w.len() * u64::MAX) by (nonlinear_arith)
            requires
                total(w) == total(w.drop_last()) + w.last() as nat,
                total(w.drop_last()) <= (w.len() - 1) * u64::MAX,
                w.last() <= u64::MAX,
                w.len() >= 1,
        ;
        assert forall|i: int| 0 <= i < w.len() implies w[i] as nat <= total(w) by {
            if i < w.len() - 1 {
                assert(w.drop_last()[i] == w[i]);
            }
        }
    }
}

/// The total of a longer prefix is no smaller.
pub proof fn lemma_total_prefix_monotone(w: Seq<u64>, i: int, j: int)
    requires
        0 <= i <= j <= w.len(),
    ensures
        total(w.take(i)) <= total(w.take(j)),
    decreases j - i,
{
    if i < j {
        lemma_total_prefix_monotone(w, i, j - 1);
        lemma_total_take_step(w, j - 1);
    }
}

/// A share never exceeds one, and it misses the exact quotient by less than
/// one step.
pub proof fn lemma_share_bounds(weight: u64, sum: nat)
    requires
        weight as nat <= sum,
        sum > 0,
    ensures
        share(weight, sum) as nat == weight as nat * WEIGHT_UNIT as nat / sum,
        share(weight, sum) <= WEIGHT_UNIT,
        share(weight, sum) as nat * sum <= weight as nat * WEIGHT_UNIT as nat,
        (weight as nat * WEIGHT_UNIT as nat) < (share(weight, sum) as nat + 1) * sum,
{
    let p: int = weight as int * WEIGHT_UNIT as int;
    let d: int = sum as int;
    let q: int = p / d;
    vstd::arithmetic::div_mod::lemma_fundamental_div_mod(p, d);
    vstd::arithmetic::div_mod::lemma_mod_bound(p, d);
    assert(p == d * q + p % d);
    assert(0 <= q <= WEIGHT_UNIT as int) by (nonlinear_arith)
        requires
            p == d * q + p % d,
            0 <= p % d < d,
            0 <= p <= d * WEIGHT_UNIT as int,
            d > 0,
    ;
    assert(p <= d * WEIGHT_UNIT as int) by (nonlinear_arith)
        requires
            p == weight as int * WEIGHT_UNIT as int,
            weight as int <= d,
    ;
    assert(q * d <= p && p < (q + 1) * d) by (nonlinear_arith)
        requires
            p == d * q + p % d,
            0 <= p % d < d,
    ;
}

/// Within a prefix of `len` weights, the shares in `sum` add up to at most the
/// prefix's own share of the whole, and fall short of it by less than `len`
/// steps.
pub proof fn lemma_shares_prefix(w: Seq<u64>, sum: nat, len: int)
    requires
        0 <= len <= w.len(),
        sum > 0,
        forall|i: int| 0 <= i < w.len() ==> w[i] as nat <= sum,
    ensures
        total(shares(w, sum).take(len)) * sum <= total(w.take(len)) * WEIGHT_UNIT as nat,
        (total(w.take(len)) * WEIGHT_UNIT as nat) < (total(shares(w, sum).take(len)) + len) * sum
            || len == 0,
        len == 0 ==> total(shares(w, sum).take(len)) == 0,
    decreases len,
{
    let s = shares(w, sum);
    if len == 0 {
        assert(s.take(0).len() == 0);
        assert(w.take(0).len() == 0);
        assert(total(s.take(0)) == 0 && total(w.take(0)) == 0);
        assert(0 * sum <= 0 * WEIGHT_UNIT as nat) by (nonlinear_arith);
    } else {
        lemma_shares_prefix(w, sum, len - 1);
        lemma_total_take_step(s, len - 1);
        lemma_total_take_step(w, len - 1);
        lemma_share_bounds(w[len - 1], sum);
        let a = total(s.take(len - 1)) as int;
        let b = total(w.take(len - 1)) as int;
        let q = s[len - 1] as int;
        let x = w[len - 1] as int;
        let u = WEIGHT_UNIT as int;
        let d = sum as int;
        assert(s[len - 1] == share(w[len - 1], sum));
        assert((a + q) * d <= (b + x) * u) by (nonlinear_arith)
            requires
                a * d <= b * u,
                q * d <= x * u,
        ;
        assert((b + x) * u < (a + q + len) * d) by (nonlinear_arith)
            requires
                b * u < (a + (len - 1)) * d || len - 1 == 0,
                len - 1 == 0 ==> a == 0 && b == 0,
                a * d <= b * u,
                x * u < (q + 1) * d,
                len >= 1,
        ;
        assert(total(s.take(len)) == a + q);
        assert(total(w.take(len)) == b + x);
    }
}

/// Normalised weights add up to one, up to the rounding of each share: the
/// total is at most `WEIGHT_UNIT` and misses it by less than one step for each
/// weight.
pub proof fn lemma_normalized_total(w: Seq<u64>)
    requires
        total(w) > 0,
    ensures
        normalized(w).len() == w.len(),
        total(normalized(w)) <= WEIGHT_UNIT,
        total(normalized(w)) + w.len() > WEIGHT_UNIT,
{
    let sum = total(w);
    lemma_total_bounds(w);
    lemma_shares_prefix(w, sum, w.len() as int);
    let s = shares(w, sum);
    assert(s.take(w.len() as int) =~= s);
    assert(w.take(w.len() as int) =~= w);
    assert(w.len() > 0);
    let t = total(s) as int;
    let d = sum as int;
    let u = WEIGHT_UNIT as int;
    let n = w.len() as int;
    assert(t <= u && u < t + n) by (nonlinear_arith)
        requires
            t * d <= d * u,
            d * u < (t + n) * d,
            d > 0,
    ;
}

/// Equal weights add up to one as far as equal weights can: the total is at
/// most `WEIGHT_UNIT` and misses it by less than one step for each weight.
pub proof fn lemma_uniform_total(n: nat)
    requires
        n > 0,
    ensures
        uniform(n).len() == n,
        total(uniform(n)) == n * (WEIGHT_UNIT as nat / n),
        total(uniform(n)) <= WEIGHT_UNIT,
        total(uniform(n)) + n > WEIGHT_UNIT,
{
    let q = WEIGHT_UNIT as nat / n;
    lemma_constant_prefix(uniform(n), q as u64, n as int);
    assert(uniform(n).take(n as int) =~= uniform(n));
    vstd::arithmetic::div_mod::lemma_fundamental_div_mod(WEIGHT_UNIT as int, n as int);
    vstd::arithmetic::div_mod::lemma_mod_bound(WEIGHT_UNIT as int, n as int);
    assert(n * q <= WEIGHT_UNIT && n * q + n > WEIGHT_UNIT) by (nonlinear_arith)
        requires
            WEIGHT_UNIT as int == n as int * (WEIGHT_UNIT as int / n as int) + WEIGHT_UNIT as int
                % n as int,
            0 <= (WEIGHT_UNIT as int % n as int) < (n as int),
            q == WEIGHT_UNIT as nat / n,
    ;
}

/// Equal weights add up to their number times the weight.
pub proof fn lemma_constant_prefix(w: Seq<u64>, value: u64, len: int)
    requires
        0 <= len <= w.len(),
        forall|i: int| 0 <= i < w.len() ==> w[i] == value,
    ensures
        total(w.take(len)) == len * value,
    decreases len,
{
    if len == 0 {
        assert(w.take(0).len() == 0);
    } else {
        lemma_constant_prefix(w, value, len - 1);
        lemma_total_take_step(w, len - 1);
        assert(len * value == (len - 1) * value + value) by (nonlinear_arith);
    }
}

/// Running sums never fall, and their last entry is the total.
pub proof fn lemma_cumulative_shape(w: Seq<u64>)
    requires
        total(w) <= u64::MAX,
    ensures
        cumulative(w).len() == w.len(),
        non_decreasing(cumulative(w)),
        w.len() > 0 ==> cumulative(w).last() == total(w),
        forall|i: int| 0 <= i < w.len() ==> cumulative(w)[i] == total(w.take(i + 1)),
{
    let c = cumulative(w);
    assert forall|i: int| 0 <= i < w.len() implies c[i] == total(w.take(i + 1)) by {
        lemma_total_prefix_monotone(w, i + 1, w.len() as int);
        assert(w.take(w.len() as int) =~= w);
    }
    assert forall|i: int, j: int| 0 <= i <= j < c.len() implies c[i] <= c[j] by {
        lemma_total_prefix_monotone(w, i + 1, j + 1);
    }
    if w.len() > 0 {
        assert(w.take(w.len() as int) =~= w);
    }
}

/// In running sums, the entries below a draw are exactly those before the
/// first entry that reaches it.
pub proof fn lemma_count_below_split(c: Seq<u64>, draw: u64, k: int)
    requires
        0 <= k <= c.len(),
        forall|j: int| 0 <= j < k ==> c[j] < draw,
        forall|j: int| k <= j < c.len() ==> c[j] >= draw,
    ensures
        count_below(c, draw) == k,
    decreases c.len(),
{
    if c.len() > 0 {
        let rest = c.drop_last();
        if k == c.len() {
            lemma_count_below_split(rest, draw, k - 1);
        } else {
            lemma_count_below_split(rest, draw, k);
        }
    }
}

/// What the selected index is, said without counting: every entry before it
/// lies below the draw, and it reaches the draw unless it is the last index.
pub proof fn lemma_selected_is_first_reaching(c: Seq<u64>, draw: u64)
    requires
        c.len() > 0,
        non_decreasing(c),
    ensures
        0 <= selected(c, draw) < c.len(),
        forall|j: int| 0 <= j < selected(c, draw) ==> c[j] < draw,
        selected(c, draw) < c.len() - 1 ==> c[selected(c, draw)] >= draw,
        c.last() >= draw ==> c[selected(c, draw)] >= draw,
{
    let k = first_reaching(c, draw, c.len() as int);
    lemma_first_reaching(c, draw, c.len() as int);
    lemma_count_below_split(c, draw, k);
}

/// The first index below `len` whose entry reaches `draw`, or `len`.
pub open spec fn first_reaching(c: Seq<u64>, draw: u64, len: int) -> int
    decreases len,
{
    if len <= 0 {
        0
    } else if c[len - 1] < draw {
        len
    } else {
        first_reaching(c, draw, len - 1)
    }
}

/// Below the first entry that reaches the draw every entry lies below it,
/// and from there on every entry reaches it.
pub proof fn lemma_first_reaching(c: Seq<u64>, draw: u64, len: int)
    requires
        0 <= len <= c.len(),
        non_decreasing(c),
    ensures
        0 <= first_reaching(c, draw, len) <= len,
        forall|j: int| 0 <= j < first_reaching(c, draw, len) ==> c[j] < draw,
        forall|j: int| first_reaching(c, draw, len) <= j < len ==> c[j] >= draw,
    decreases len,
{
    if len > 0 {
        if c[len - 1] < draw {
        } else {
            lemma_first_reaching(c, draw, len - 1);
        }
    }
}

/// Resampling makes no particle: there are as many particles after it as
/// draws, and each of them stood in the set before.
pub proof fn lemma_resampled_are_old<T>(particles: Seq<T>, c: Seq<u64>, draws: Seq<u64>)
    requires
        c.len() == particles.len(),
        c.len() > 0,
        non_decreasing(c),
    ensures
        resampled(particles, c, draws).len() == draws.len(),
        forall|k: int|
            0 <= k < draws.len() ==> particles.contains(
                #[trigger] resampled(particles, c, draws)[k],
            ),
{
    assert forall|k: int| 0 <= k < draws.len() implies particles.contains(
        #[trigger] resampled(particles, c, draws)[k],
    ) by {
        lemma_selected_is_first_reaching(c, draws[k]);
        assert(resampled(particles, c, draws)[k] == particles[selected(c, draws[k])]);
    }
}

/// A draw of zero selects the first index.
pub proof fn lemma_zero_selects_first(c: Seq<u64>)
    requires
        c.len() > 0,
        non_decreasing(c),
    ensures
        selected(c, 0) == 0,
{
    lemma_count_below_split(c, 0, 0);
}

/// A draw beyond the last running sum selects the last index, and so does a
/// draw equal to it where the last weight is not zero.
pub proof fn lemma_high_draw_selects_last(c: Seq<u64>, draw: u64)
    requires
        c.len() > 0,
        non_decreasing(c),
        draw >= c.last(),
        draw > c.last() || c.len() == 1 || c[c.len() - 2] < c.last(),
    ensures
        selected(c, draw) == c.len() - 1,
{
    if draw > c.last() {
        lemma_count_below_split(c, draw, c.len() as int);
    } else {
        lemma_count_below_split(c, draw, c.len() - 1);
    }
}

/// The sum of the weights in `w`.
pub fn sum(w: &[u64]) -> (s: u128)
    ensures
        s == total(w@),
{
    let mut acc: u128 = 0;
    let mut i: usize = 0;
    while i < w.len()
        invariant
            0 <= i <= w@.len(),
            acc == total(w@.take(i as int)),
        decreases w.len() - i,
    {
        proof {
            lemma_total_take_step(w@, i as int);
            lemma_total_bounds(w@.take(i + 1));
            assert((i + 1) * u64::MAX <= usize::MAX * u64::MAX) by (nonlinear_arith)
                requires
                    i + 1 <= usize::MAX,
            ;
            assert(usize::MAX * u64::MAX <= u64::MAX * u64::MAX) by (nonlinear_arith)
                requires
                    usize::MAX <= u64::MAX,
            ;
        }
        acc = acc + w[i] as u128;
        i += 1;
    }
    proof {
        assert(w@.take(w@.len() as int) =~= w@);
    }
    acc
}

/// Replaces every weight by its share in the total. Where the total is zero
/// there is nothing to share out: the weights stay and `false` comes back.
pub fn normalize(w: &mut Vec<u64>) -> (done: bool)
    ensures
        done == (total(old(w)@) > 0),
        done ==> final(w)@ == normalized(old(w)@),
        !done ==> final(w)@ == old(w)@,
{
    let s: u128 = sum(w.as_slice());
    if s == 0 {
        return false;
    }
    let n: usize = w.len();
    let mut i: usize = 0;
    proof {
        lemma_total_bounds(w@);
    }
    while i < n
        invariant
            0 <= i <= n,
            n == w@.len(),
            w@.len() == old(w)@.len(),
            s == total(old(w)@),
            s > 0,
            forall|j: int| 0 <= j < n ==> old(w)@[j] as nat <= s,
            forall|j: int| 0 <= j < i ==> w@[j] == share(old(w)@[j], s as nat),
            forall|j: int| i <= j < n ==> w@[j] == old(w)@[j],
        decreases n - i,
    {
        let x: u64 = w[i];
        proof {
            lemma_share_bounds(x, s as nat);
            assert(x as nat * WEIGHT_UNIT as nat <= u64::MAX * WEIGHT_UNIT) by (nonlinear_arith)
                requires
                    x <= u64::MAX,
            ;
        }
        let q: u128 = x as u128 * WEIGHT_UNIT as u128 / s;
        w[i] = q as u64;
        i += 1;
    }
    proof {
        assert(w@ =~= normalized(old(w)@));
    }
    true
}

/// Replaces every weight by the equal weight `WEIGHT_UNIT / n`, where `n` is
/// the number of weights.
pub fn equalize(w: &mut Vec<u64>)
    ensures
        final(w)@ == uniform(old(w)@.len()),
{
    let n: usize = w.len();
    let mut i: usize = 0;
    while i < n
        invariant
            0 <= i <= n,
            n == w@.len(),
            w@.len() == old(w)@.len(),
            forall|j: int| 0 <= j < i ==> w@[j] == (WEIGHT_UNIT as nat / (n as nat)) as u64,
        decreases n - i,
    {
        w[i] = WEIGHT_UNIT / (n as u64);
        i += 1;
    }
    proof {
        assert(w@ =~= uniform(old(w)@.len()));
    }
}

/// Turns weights into their running sums, in place.
pub fn accumulate(w: &mut Vec<u64>)
    requires
        total(old(w)@) <= u64::MAX,
    ensures
        final(w)@ == cumulative(old(w)@),
{
    let n: usize = w.len();
    let mut acc: u64 = 0;
    let mut i: usize = 0;
    while i < n
        invariant
            0 <= i <= n,
            n == w@.len(),
            w@.len() == old(w)@.len(),
            total(old(w)@) <= u64::MAX,
            acc == total(old(w)@.take(i as int)),
            forall|j: int| 0 <= j < i ==> w@[j] == total(old(w)@.take(j + 1)) as u64,
            forall|j: int| i <= j < n ==> w@[j] == old(w)@[j],
        decreases n - i,
    {
        proof {
            lemma_total_take_step(old(w)@, i as int);
            lemma_total_prefix_monotone(old(w)@, i + 1, n as int);
            assert(old(w)@.take(n as int) =~= old(w)@);
        }
        acc = acc + w[i];
        w[i] = acc;
        i += 1;
    }
    proof {
        assert(w@ =~= cumulative(old(w)@));
    }
}

/// The index that `draw` selects in the running sums `c`, found by bisection.
pub fn select_index(c: &[u64], draw: u64) -> (index: usize)
    requires
        c@.len() > 0,
        non_decreasing(c@),
    ensures
        index == selected(c@, draw),
        index < c@.len(),
        forall|j: int| 0 <= j < index ==> c@[j] < draw,
        index < c@.len() - 1 ==> c@[index as int] >= draw,
{
    let mut lo: usize = 0;
    let mut hi: usize = c.len();
    while lo < hi
        invariant
            0 <= lo <= hi <= c@.len(),
            non_decreasing(c@),
            forall|j: int| 0 <= j < lo ==> c@[j] < draw,
            forall|j: int| hi <= j < c@.len() ==> c@[j] >= draw,
        decreases hi - lo,
    {
        let mid: usize = lo + (hi - lo) / 2;
        if c[mid] < draw {
            lo = mid + 1;
        } else {
            hi = mid;
        }
    }
    proof {
        lemma_count_below_split(c@, draw, lo as int);
    }
    if lo < c.len() {
        lo
    } else {
        c.len() - 1
    }
}

} // verus!
