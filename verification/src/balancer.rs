//! Smooth weighted round-robin across the candidates a balanced model routes
//! to.
//!
//! Each candidate holds a current weight, starting at 0. On each selection
//! every current weight grows by its candidate's weight, the candidate with
//! the highest current weight is picked (the first such, on a tie), and the
//! pick's current weight drops by the total weight. Over every cycle of
//! `total` selections each candidate is picked exactly `weight` times, and
//! the current weights return to 0.

use vstd::prelude::*;

use crate::registry::{ModelSpec, ProviderSpec};

verus! {

// -------------------------------------------------------------- the model

/// The sum of a sequence of integers.
pub open spec fn sum(s: Seq<int>) -> int
    decreases s.len(),
{
    if s.len() == 0 {
        0
    } else {
        sum(s.drop_last()) + s.last()
    }
}

/// Every current weight grown by its candidate's weight.
pub open spec fn bump(c: Seq<int>, w: Seq<int>) -> Seq<int> {
    Seq::new(c.len(), |i: int| c[i] + w[i])
}

/// The index of the first maximum among `s[..n]`.
pub open spec fn first_max(s: Seq<int>, n: int) -> int
    decreases n,
{
    if n <= 1 {
        0
    } else {
        let k = first_max(s, n - 1);
        if s[n - 1] > s[k] {
            n - 1
        } else {
            k
        }
    }
}

/// The candidate one selection picks from current weights `c`.
pub open spec fn pick(w: Seq<int>, c: Seq<int>) -> int {
    first_max(bump(c, w), c.len() as int)
}

/// The current weights one selection leaves behind.
pub open spec fn next(w: Seq<int>, c: Seq<int>) -> Seq<int> {
    let b = bump(c, w);
    let k = pick(w, c);
    b.update(k, b[k] - sum(w))
}

/// The current weights after `k` selections from `c`.
pub open spec fn after(w: Seq<int>, c: Seq<int>, k: nat) -> Seq<int>
    decreases k,
{
    if k == 0 {
        c
    } else {
        next(w, after(w, c, (k - 1) as nat))
    }
}

/// How often candidate `i` is picked in the first `k` selections from `c`.
pub open spec fn picked(w: Seq<int>, c: Seq<int>, k: nat, i: int) -> int
    decreases k,
{
    if k == 0 {
        0
    } else {
        picked(w, c, (k - 1) as nat, i) + if pick(w, after(w, c, (k - 1) as nat)) == i {
            1int
        } else {
            0int
        }
    }
}

/// All-zero current weights for `n` candidates: the state a balancer starts in.
pub open spec fn zeros(n: nat) -> Seq<int> {
    Seq::new(n, |i: int| 0int)
}

// -------------------------------------------------------------- the lemmas

proof fn lemma_sum_bump(c: Seq<int>, w: Seq<int>)
    requires
        c.len() == w.len(),
    ensures
        sum(bump(c, w)) == sum(c) + sum(w),
    decreases c.len(),
{
    if c.len() > 0 {
        assert(bump(c, w).drop_last() =~= bump(c.drop_last(), w.drop_last()));
        lemma_sum_bump(c.drop_last(), w.drop_last());
    }
}

proof fn lemma_sum_update(s: Seq<int>, k: int, v: int)
    requires
        0 <= k < s.len(),
    ensures
        sum(s.update(k, v)) == sum(s) - s[k] + v,
    decreases s.len(),
{
    if k < s.len() - 1 {
        assert(s.update(k, v).drop_last() =~= s.drop_last().update(k, v));
        lemma_sum_update(s.drop_last(), k, v);
    } else {
        assert(s.update(k, v).drop_last() =~= s.drop_last());
    }
}

proof fn lemma_first_max(s: Seq<int>, n: int)
    requires
        1 <= n <= s.len(),
    ensures
        0 <= first_max(s, n) < n,
        forall|j: int| 0 <= j < n ==> #[trigger] s[j] <= s[first_max(s, n)],
        forall|j: int| 0 <= j < first_max(s, n) ==> #[trigger] s[j] < s[first_max(s, n)],
    decreases n,
{
    if n > 1 {
        lemma_first_max(s, n - 1);
    }
}

proof fn lemma_sum_at_most(s: Seq<int>, hi: int)
    requires
        forall|j: int| 0 <= j < s.len() ==> s[j] <= hi,
    ensures
        sum(s) <= s.len() * hi,
    decreases s.len(),
{
    if s.len() > 0 {
        lemma_sum_at_most(s.drop_last(), hi);
        let n = s.len() as int;
        assert((n - 1) * hi + hi == n * hi) by (nonlinear_arith);
    }
}

proof fn lemma_sum_at_least(s: Seq<int>, lo: int)
    requires
        forall|j: int| 0 <= j < s.len() ==> s[j] >= lo,
    ensures
        sum(s) >= s.len() * lo,
    decreases s.len(),
{
    if s.len() > 0 {
        lemma_sum_at_least(s.drop_last(), lo);
        let n = s.len() as int;
        assert((n - 1) * lo + lo == n * lo) by (nonlinear_arith);
    }
}

/// With every entry at least `lo`, one entry is at most the sum less
/// `len - 1` times `lo`.
proof fn lemma_one_at_most(s: Seq<int>, lo: int, i: int)
    requires
        0 <= i < s.len(),
        forall|j: int| 0 <= j < s.len() ==> s[j] >= lo,
    ensures
        s[i] <= sum(s) - (s.len() - 1) * lo,
    decreases s.len(),
{
    let n = s.len() as int;
    if i == n - 1 {
        lemma_sum_at_least(s.drop_last(), lo);
    } else {
        lemma_one_at_most(s.drop_last(), lo, i);
        assert((n - 2) * lo + lo == (n - 1) * lo) by (nonlinear_arith);
    }
}

/// The picked candidate's grown weight is at least zero, and above zero when
/// the weights sum above zero.
proof fn lemma_pick_positive(w: Seq<int>, c: Seq<int>)
    requires
        c.len() == w.len(),
        c.len() >= 1,
        forall|i: int| 0 <= i < w.len() ==> w[i] >= 0,
        sum(c) == 0,
    ensures
        0 <= pick(w, c) < c.len(),
        bump(c, w)[pick(w, c)] >= 0,
        sum(w) > 0 ==> bump(c, w)[pick(w, c)] > 0,
{
    let b = bump(c, w);
    lemma_sum_bump(c, w);
    lemma_sum_at_least(w, 0);
    assert(w.len() * 0 == 0);
    lemma_first_max(b, b.len() as int);
    let m = b[pick(w, c)];
    lemma_sum_at_most(b, m);
    if m < 0 {
        assert(b.len() * m < 0) by (nonlinear_arith)
            requires
                b.len() >= 1,
                m < 0,
        ;
    }
    if sum(w) > 0 && m <= 0 {
        assert(b.len() * m <= 0) by (nonlinear_arith)
            requires
                b.len() >= 1,
                m <= 0,
        ;
    }
}

/// The balancer's standing invariant over current weights `c`: they sum to
/// zero and none falls below `-total`.
pub open spec fn balanced(w: Seq<int>, c: Seq<int>) -> bool {
    &&& c.len() == w.len()
    &&& c.len() >= 1
    &&& forall|i: int| 0 <= i < w.len() ==> w[i] >= 0
    &&& sum(c) == 0
    &&& forall|i: int| 0 <= i < c.len() ==> c[i] >= -sum(w)
}

/// One selection keeps the invariant.
proof fn lemma_next_balanced(w: Seq<int>, c: Seq<int>)
    requires
        balanced(w, c),
    ensures
        balanced(w, next(w, c)),
{
    let b = bump(c, w);
    let k = pick(w, c);
    lemma_pick_positive(w, c);
    lemma_sum_bump(c, w);
    lemma_sum_update(b, k, b[k] - sum(w));
    let n = next(w, c);
    assert forall|i: int| 0 <= i < n.len() implies n[i] >= -sum(w) by {
        if i != k {
            assert(n[i] == c[i] + w[i]);
        }
    }
}

/// The sum of a sequence of non-negative integers is zero only when every
/// one of them is.
proof fn lemma_sum_zero(s: Seq<int>)
    requires
        forall|j: int| 0 <= j < s.len() ==> s[j] >= 0,
        sum(s) == 0,
    ensures
        forall|j: int| 0 <= j < s.len() ==> s[j] == 0,
    decreases s.len(),
{
    if s.len() > 0 {
        lemma_sum_at_least(s.drop_last(), 0);
        lemma_sum_zero(s.drop_last());
        assert forall|j: int| 0 <= j < s.len() implies s[j] == 0 by {
            if j < s.len() - 1 {
                assert(s[j] == s.drop_last()[j]);
            }
        }
    }
}

/// After `k` selections from zero, each current weight is `k` times its
/// candidate's weight less `total` times its picks, the invariant holds, and
/// within the first cycle no candidate is picked more often than its weight.
proof fn lemma_cycle_prefix(w: Seq<int>, k: nat)
    requires
        w.len() >= 1,
        forall|i: int| 0 <= i < w.len() ==> w[i] >= 0,
        k <= sum(w),
    ensures
        balanced(w, after(w, zeros(w.len()), k)),
        after(w, zeros(w.len()), k).len() == w.len(),
        forall|i: int|
            0 <= i < w.len() ==> #[trigger] after(w, zeros(w.len()), k)[i] == k * w[i] - sum(w)
                * picked(w, zeros(w.len()), k, i),
        forall|i: int| 0 <= i < w.len() ==> 0 <= #[trigger] picked(w, zeros(w.len()), k, i) <= w[i],
    decreases k,
{
    let z = zeros(w.len());
    let t = sum(w);
    if k == 0 {
        assert(sum(z) == 0) by {
            lemma_sum_zero_seq(w.len());
        }
        lemma_sum_at_least(w, 0);
        assert(w.len() * 0 == 0);
    } else {
        let k1 = (k - 1) as nat;
        lemma_cycle_prefix(w, k1);
        let c = after(w, z, k1);
        lemma_next_balanced(w, c);
        lemma_pick_positive(w, c);
        let p = pick(w, c);
        let b = bump(c, w);
        assert forall|i: int| 0 <= i < w.len() implies #[trigger] after(w, z, k)[i] == k * w[i]
            - t * picked(w, z, k, i) by {
            assert(c[i] == k1 * w[i] - t * picked(w, z, k1, i));
            assert(k * w[i] == k1 * w[i] + w[i]) by (nonlinear_arith)
                requires
                    k == k1 + 1,
            ;
            if i == p {
                assert(t * (picked(w, z, k1, i) + 1) == t * picked(w, z, k1, i) + t) by (nonlinear_arith);
            }
        }
        assert forall|i: int| 0 <= i < w.len() implies 0 <= #[trigger] picked(w, z, k, i) <= w[i] by {
            assert(0 <= picked(w, z, k1, i) <= w[i]);
            assert(picked(w, z, k, i) == picked(w, z, k1, i) + if p == i {
                1int
            } else {
                0int
            });
            assert(t >= 1);
            if i == p && picked(w, z, k1, i) == w[i] {
                // The pick would be a candidate already picked `w[i]` times, whose
                // grown weight is then `(k - t) * w[i] <= 0`, while the pick's is
                // above zero.
                assert(c[i] == k1 * w[i] - t * picked(w, z, k1, i));
                assert(k * w[i] == k1 * w[i] + w[i]) by (nonlinear_arith)
                    requires
                        k == k1 + 1,
                ;
                assert(b[i] == k * w[i] - t * w[i]);
                assert(k * w[i] - t * w[i] <= 0) by (nonlinear_arith)
                    requires
                        k <= t,
                        w[i] >= 0,
                ;
                if t == 0 {
                    assert(k <= 0);
                }
            }
        }
    }
}

proof fn lemma_sum_zero_seq(n: nat)
    ensures
        sum(zeros(n)) == 0,
    decreases n,
{
    if n > 0 {
        assert(zeros(n).drop_last() =~= zeros((n - 1) as nat));
        lemma_sum_zero_seq((n - 1) as nat);
    }
}

/// Over one cycle of `total` selections from the starting state, every
/// candidate is picked exactly as often as its weight, and the current
/// weights are back where they started, so the next cycle repeats it.
pub proof fn law_cycle_is_exact(w: Seq<int>)
    requires
        w.len() >= 1,
        forall|i: int| 0 <= i < w.len() ==> w[i] >= 0,
    ensures
        forall|i: int| 0 <= i < w.len() ==> #[trigger] picked(w, zeros(w.len()), sum(w) as nat, i) == w[i],
        after(w, zeros(w.len()), sum(w) as nat) == zeros(w.len()),
{
    lemma_sum_at_least(w, 0);
    assert(w.len() * 0 == 0);
    let t = sum(w);
    let z = zeros(w.len());
    lemma_cycle_prefix(w, t as nat);
    let c = after(w, z, t as nat);
    assert forall|i: int| 0 <= i < c.len() implies c[i] >= 0 by {
        assert(c[i] == t * w[i] - t * picked(w, z, t as nat, i));
        assert(t * w[i] - t * picked(w, z, t as nat, i) >= 0) by (nonlinear_arith)
            requires
                t >= 0,
                picked(w, z, t as nat, i) <= w[i],
        ;
    }
    lemma_sum_zero(c);
    assert forall|i: int| 0 <= i < w.len() implies #[trigger] picked(w, z, t as nat, i) == w[i] by {
        assert(c[i] == 0);
        assert(c[i] == t * w[i] - t * picked(w, z, t as nat, i));
        if t > 0 {
            assert(t * (w[i] - picked(w, z, t as nat, i)) == 0) by (nonlinear_arith)
                requires
                    t * w[i] - t * picked(w, z, t as nat, i) == 0,
            ;
            assert(w[i] - picked(w, z, t as nat, i) == 0) by (nonlinear_arith)
                requires
                    t > 0,
                    t * (w[i] - picked(w, z, t as nat, i)) == 0,
            ;
        } else {
            lemma_sum_zero(w);
        }
    }
    assert(c =~= z);
}

// ------------------------------------------------ two candidates, smoothness

/// Two candidates' current weights, `x` and `-x`.
pub open spec fn pair(x: int) -> Seq<int> {
    seq![x, -x]
}

proof fn lemma_pair_step(w: Seq<int>, x: int)
    requires
        w.len() == 2,
    ensures
        sum(w) == w[0] + w[1],
        sum(pair(x)) == 0,
        pick(w, pair(x)) == if 2 * x >= w[1] - w[0] {
            0int
        } else {
            1int
        },
        next(w, pair(x)) == if 2 * x >= w[1] - w[0] {
            pair(x - w[1])
        } else {
            pair(x + w[0])
        },
{
    assert(w.drop_last() =~= seq![w[0]]);
    assert(seq![w[0]].drop_last() =~= Seq::<int>::empty());
    assert(pair(x).drop_last() =~= seq![x]);
    assert(seq![x].drop_last() =~= Seq::<int>::empty());
    reveal_with_fuel(sum, 3);
    assert(seq![w[0]].last() == w[0]);
    assert(sum(seq![w[0]]) == w[0]);
    assert(sum(w) == w[0] + w[1]);
    assert(sum(seq![x]) == x);
    assert(sum(pair(x)) == 0);
    let b = bump(pair(x), w);
    assert(b =~= seq![x + w[0], -x + w[1]]);
    assert(first_max(b, 1) == 0);
    assert(pick(w, pair(x)) == first_max(b, 2));
    if 2 * x >= w[1] - w[0] {
        assert(next(w, pair(x)) =~= pair(x - w[1]));
    } else {
        assert(next(w, pair(x)) =~= pair(x + w[0]));
    }
}

/// After the first candidate is picked at `c`, it is picked again once its
/// current weight has climbed back; `y` is that weight `j` selections on.
proof fn lemma_first_returns(w: Seq<int>, c: Seq<int>, x: int, y: int, j: nat)
    requires
        w.len() == 2,
        w[0] >= 1,
        w[1] >= 0,
        2 * x >= w[1] - w[0],
        j >= 1,
        after(w, c, j) == pair(y),
        (j - 1) * w[0] == y - (x - w[1]),
        j == 1 || 2 * (y - w[0]) < w[1] - w[0],
    ensures
        exists|k: nat| 1 <= k && (k - 1) * w[0] < sum(w) && pick(w, after(w, c, k)) == 0,
    decreases w[1] + w[0] - 2 * y,
{
    lemma_pair_step(w, y);
    if 2 * y >= w[1] - w[0] {
        if j == 1 {
            assert((j - 1) * w[0] == 0) by (nonlinear_arith)
                requires
                    j == 1,
            ;
        }
        assert((j - 1) * w[0] < sum(w));
        assert(pick(w, after(w, c, j)) == 0);
    } else {
        assert((j + 1 - 1) * w[0] == (j - 1) * w[0] + w[0]) by (nonlinear_arith);
        assert(after(w, c, j + 1) == next(w, after(w, c, j)));
        lemma_first_returns(w, c, x, y + w[0], j + 1);
    }
}

/// After the second candidate is picked at `c`, it is picked again once the
/// first's current weight has fallen back; `y` is the first's weight `j`
/// selections on.
proof fn lemma_second_returns(w: Seq<int>, c: Seq<int>, x: int, y: int, j: nat)
    requires
        w.len() == 2,
        w[0] >= 0,
        w[1] >= 1,
        2 * x < w[1] - w[0],
        j >= 1,
        after(w, c, j) == pair(y),
        (j - 1) * w[1] == (x + w[0]) - y,
        j == 1 || 2 * (y + w[1]) >= w[1] - w[0],
    ensures
        exists|k: nat| 1 <= k && (k - 1) * w[1] < sum(w) && pick(w, after(w, c, k)) == 1,
    decreases 2 * y + w[0] + w[1],
{
    lemma_pair_step(w, y);
    if 2 * y < w[1] - w[0] {
        if j == 1 {
            assert((j - 1) * w[1] == 0) by (nonlinear_arith)
                requires
                    j == 1,
            ;
        }
        assert((j - 1) * w[1] < sum(w));
        assert(pick(w, after(w, c, j)) == 1);
    } else {
        assert((j + 1 - 1) * w[1] == (j - 1) * w[1] + w[1]) by (nonlinear_arith);
        assert(after(w, c, j + 1) == next(w, after(w, c, j)));
        lemma_second_returns(w, c, x, y - w[1], j + 1);
    }
}

proof fn lemma_after_add(w: Seq<int>, c: Seq<int>, a: nat, b: nat)
    ensures
        after(w, c, a + b) == after(w, after(w, c, a), b),
    decreases b,
{
    if b > 0 {
        lemma_after_add(w, c, a, (b - 1) as nat);
        assert((a + b - 1) as nat == a + (b - 1) as nat);
    }
}

proof fn lemma_picked_add(w: Seq<int>, c: Seq<int>, a: nat, b: nat, i: int)
    ensures
        picked(w, c, a + b, i) == picked(w, c, a, i) + picked(w, after(w, c, a), b, i),
    decreases b,
{
    if b > 0 {
        lemma_picked_add(w, c, a, (b - 1) as nat, i);
        lemma_after_add(w, c, a, (b - 1) as nat);
        assert((a + b - 1) as nat == a + (b - 1) as nat);
    }
}

/// Over any whole number `k` of cycles from the starting state, every
/// candidate is picked exactly `k` times its weight, and the current weights
/// are back at the start: the shares hold exactly at every cycle boundary,
/// however long the balancer runs.
pub proof fn law_whole_cycles_are_exact(w: Seq<int>, k: nat)
    requires
        w.len() >= 1,
        forall|i: int| 0 <= i < w.len() ==> w[i] >= 0,
    ensures
        after(w, zeros(w.len()), k * (sum(w) as nat)) == zeros(w.len()),
        forall|i: int| 0 <= i < w.len() ==> #[trigger] picked(w, zeros(w.len()), k * (sum(w) as nat), i) == k * w[i],
    decreases k,
{
    lemma_sum_at_least(w, 0);
    assert(w.len() * 0 == 0);
    let t = sum(w) as nat;
    let z = zeros(w.len());
    if k == 0 {
        assert(k * t == 0);
        assert forall|i: int| 0 <= i < w.len() implies #[trigger] picked(w, z, k * t, i) == k * w[i] by {
            assert(k * w[i] == 0);
        }
    } else {
        law_whole_cycles_are_exact(w, (k - 1) as nat);
        law_cycle_is_exact(w);
        let a = ((k - 1) as nat) * t;
        assert(a + t == k * t) by (nonlinear_arith)
            requires
                a == ((k - 1) as nat) * t,
                k >= 1,
        ;
        lemma_after_add(w, z, a, t);
        assert forall|i: int| 0 <= i < w.len() implies #[trigger] picked(w, z, k * t, i) == k * w[i] by {
            lemma_picked_add(w, z, a, t, i);
            assert(picked(w, z, a, i) == (k - 1) * w[i]);
            assert(picked(w, z, t, i) == w[i]);
            assert((k - 1) * w[i] + w[i] == k * w[i]) by (nonlinear_arith);
        }
    }
}

/// With two candidates, one that is picked is picked again within
/// `ceil(total / weight)` selections: no two of its picks are further apart
/// than that. (With three or more candidates this bound does not hold in
/// general.)
pub proof fn law_two_candidates_return_within_their_share(w: Seq<int>, c: Seq<int>, i: int)
    requires
        w.len() == 2,
        balanced(w, c),
        0 <= i < 2,
        w[i] >= 1,
        pick(w, c) == i,
    ensures
        exists|j: nat| 1 <= j && (j - 1) * w[i] < sum(w) && pick(w, after(w, c, j)) == i,
{
    let x = c[0];
    assert(c.drop_last() =~= seq![c[0]]);
    assert(seq![c[0]].drop_last() =~= Seq::<int>::empty());
    reveal_with_fuel(sum, 3);
    assert(seq![c[0]].last() == c[0]);
    assert(sum(seq![c[0]]) == c[0]);
    assert(sum(c) == c[0] + c[1]);
    assert(c =~= pair(x));
    lemma_pair_step(w, x);
    assert(after(w, c, 1) == next(w, after(w, c, 0)));
    if i == 0 {
        lemma_first_returns(w, c, x, x - w[1], 1);
    } else {
        lemma_second_returns(w, c, x, x + w[0], 1);
    }
}

// -------------------------------------------------------------- the balancer

/// One candidate in a balanced model's rotation: the `model_str` a request is
/// rewritten to, the provider and model it resolved to, and its weight.
#[derive(Debug)]
pub struct Candidate {
    pub model_str: String,
    pub provider: ProviderSpec,
    pub model: ModelSpec,
    pub weight: u32,
}

/// Smooth weighted round-robin over a fixed, non-empty candidate set.
#[derive(Debug)]
pub struct Balancer {
    candidates: Vec<Candidate>,
    /// Per-candidate current weight; goes negative within a cycle.
    current: Vec<i128>,
    /// Total weight across all candidates.
    total: i128,
}

/// The weights of a candidate list.
pub open spec fn weights_of(cs: Seq<Candidate>) -> Seq<int> {
    cs.map_values(|c: Candidate| c.weight as int)
}

impl Balancer {
    /// The candidates, in the order given.
    pub closed spec fn candidate_list(&self) -> Seq<Candidate> {
        self.candidates@
    }

    /// Each candidate's weight.
    pub open spec fn weights(&self) -> Seq<int> {
        weights_of(self.candidate_list())
    }

    /// Each candidate's current weight.
    pub closed spec fn current(&self) -> Seq<int> {
        self.current@.map_values(|x: i128| x as int)
    }

    /// A balancer's invariant: one current weight per candidate, summing to
    /// zero and none below `-total`, with the total within `i32`.
    pub closed spec fn wf(&self) -> bool {
        &&& self.current@.len() == self.candidates@.len()
        &&& balanced(self.weights(), self.current())
        &&& self.total == sum(self.weights())
        &&& sum(self.weights()) <= i32::MAX
    }

    /// A balancer over `candidates`, every current weight at 0.
    pub fn new(candidates: Vec<Candidate>) -> (r: Self)
        requires
            candidates.len() >= 1,
            sum(weights_of(candidates@)) <= i32::MAX,
        ensures
            r.wf(),
            r.candidate_list() == candidates@,
            r.current() == zeros(candidates@.len()),
    {
        let ghost ws = weights_of(candidates@);
        let mut total: i128 = 0;
        let mut current: Vec<i128> = Vec::new();
        let mut i: usize = 0;
        while i < candidates.len()
            invariant
                i <= candidates.len(),
                ws == weights_of(candidates@),
                total == sum(ws.take(i as int)),
                current@.len() == i,
                forall|j: int| 0 <= j < i ==> current@[j] == 0,
                sum(ws.take(i as int)) <= i * 0xffff_ffff,
            decreases candidates.len() - i,
        {
            proof {
                assert(ws.take(i as int + 1).drop_last() =~= ws.take(i as int));
                assert(i * 0xffff_ffff + 0xffff_ffff == (i + 1) * 0xffff_ffff) by (nonlinear_arith);
                assert((i + 1) * 0xffff_ffff <= 0x1_0000_0000_0000_0000 * 0xffff_ffff) by (nonlinear_arith)
                    requires
                        i + 1 <= 0x1_0000_0000_0000_0000,
                ;
            }
            total = total + candidates[i].weight as i128;
            current.push(0);
            i = i + 1;
        }
        assert(ws.take(i as int) =~= ws);
        assert(current@.map_values(|x: i128| x as int) =~= zeros(i as nat));
        proof {
            lemma_sum_zero_seq(candidates@.len());
            lemma_sum_at_least(ws, 0);
            assert(ws.len() * 0 == 0);
        }
        Balancer { candidates, current, total }
    }

    /// How many candidates there are.
    pub fn len(&self) -> (r: usize)
        ensures
            r == self.candidate_list().len(),
    {
        self.candidates.len()
    }

    /// Candidate `i`.
    pub fn candidate(&self, i: usize) -> (r: &Candidate)
        requires
            i < self.candidate_list().len(),
        ensures
            *r == self.candidate_list()[i as int],
    {
        &self.candidates[i]
    }

    /// Selects the next candidate: every current weight grows by its weight,
    /// the first highest is picked, and the pick drops by the total.
    pub fn select(&mut self) -> (r: &Candidate)
        requires
            old(self).wf(),
        ensures
            final(self).wf(),
            final(self).candidate_list() == old(self).candidate_list(),
            *r == old(self).candidate_list()[pick(old(self).weights(), old(self).current())],
            final(self).current() == next(old(self).weights(), old(self).current()),
    {
        let i = self.select_index();
        &self.candidates[i]
    }

    /// Selects the next candidate, as [`Balancer::select`] does, returning its
    /// index.
    fn select_index(&mut self) -> (r: usize)
        requires
            old(self).wf(),
        ensures
            final(self).wf(),
            final(self).candidate_list() == old(self).candidate_list(),
            r == pick(old(self).weights(), old(self).current()),
            r < old(self).candidate_list().len(),
            final(self).current() == next(old(self).weights(), old(self).current()),
    {
        let ghost w = self.weights();
        let ghost c = self.current();
        let ghost t = sum(w);
        let ghost b = bump(c, w);
        let n = self.candidates.len();
        proof {
            assert forall|j: int| 0 <= j < n implies #[trigger] c[j] <= (n - 1) * t by {
                lemma_one_at_most(c, -t, j);
                assert((n - 1) * -t == -((n - 1) * t)) by (nonlinear_arith);
            }
            assert((n - 1) * t + t == n * t) by (nonlinear_arith);
            assert(n * t <= 0x1_0000_0000_0000_0000 * 0x8000_0000) by (nonlinear_arith)
                requires
                    n <= 0x1_0000_0000_0000_0000,
                    t <= 0x8000_0000,
            ;
            lemma_sum_at_least(w, 0);
            assert(w.len() * 0 == 0);
            assert forall|j: int| 0 <= j < n implies w[j] <= t by {
                lemma_sum_at_least_one(w, j);
            }
        }
        let mut i: usize = 0;
        while i < n
            invariant
                n == self.candidates.len() == self.current@.len() == c.len() == w.len(),
                i <= n,
                w == self.weights(),
                t == self.total,
                0 <= t <= i32::MAX,
                b == bump(c, w),
                n * t <= 0x1_0000_0000_0000_0000 * 0x8000_0000,
                (n - 1) * t + t == n * t,
                forall|j: int| 0 <= j < n ==> #[trigger] c[j] <= (n - 1) * t,
                forall|j: int| 0 <= j < n ==> c[j] >= -t,
                forall|j: int| 0 <= j < n ==> w[j] <= t,
                forall|j: int| 0 <= j < i ==> self.current@[j] as int == #[trigger] b[j],
                forall|j: int| i <= j < n ==> self.current@[j] as int == #[trigger] c[j],
                self.candidate_list() == old(self).candidate_list(),
            decreases n - i,
        {
            proof {
                assert(w[i as int] == self.candidates@[i as int].weight as int);
                assert(self.current@[i as int] as int == c[i as int]);
                lemma_sum_at_least_one(w, i as int);
            }
            let v = self.current[i] + self.candidates[i].weight as i128;
            self.current.set(i, v);
            i = i + 1;
        }
        let mut best: i128 = self.current[0];
        let mut k: usize = 0;
        let mut j: usize = 1;
        while j < n
            invariant
                n == self.current@.len() == c.len(),
                1 <= j <= n,
                forall|m: int| 0 <= m < n ==> self.current@[m] as int == #[trigger] b[m],
                k == first_max(b, j as int),
                best == self.current@[k as int],
                k < j,
            decreases n - j,
        {
            if self.current[j] > best {
                best = self.current[j];
                k = j;
            }
            j = j + 1;
        }
        proof {
            lemma_pick_positive(w, c);
        }
        let v = self.current[k] - self.total;
        self.current.set(k, v);
        proof {
            assert(self.current() =~= next(w, c));
            lemma_next_balanced(w, c);
        }
        k
    }
}

proof fn lemma_sum_at_least_one(s: Seq<int>, i: int)
    requires
        0 <= i < s.len(),
        forall|j: int| 0 <= j < s.len() ==> s[j] >= 0,
    ensures
        s[i] <= sum(s),
{
    lemma_one_at_most(s, 0, i);
    assert((s.len() - 1) * 0 == 0);
}

} // verus!
