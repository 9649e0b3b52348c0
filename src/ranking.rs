use vstd::prelude::*;

use crate::errors::RebalancerErrorCode;
use crate::pubkey::Pubkey;
use crate::strategy::{Strategy, StrategyStatus};

verus! {

/// Smallest balance worth extracting from a strategy (0.05 of the currency unit).
pub const MIN_REBALANCE_BALANCE: u64 = 50_000_000;

/// Percentile given to a strategy that is ranked alone.
pub const SOLE_STRATEGY_PERCENTILE: u8 = 50;

/// Cohorts of at most this many strategies flag only their worst member.
pub const SMALL_COHORT: usize = 4;

/// The metrics of one strategy that ranking reads and writes.
#[derive(Clone, Copy, Debug)]
pub struct StrategyData {
    pub strategy_id: Pubkey,
    pub performance_score: u64,
    pub current_balance: u64,
    pub volatility_score: u32,
    pub percentile_rank: u8,
    /// Share of the cohort, in percent, that counts as the bottom group.
    pub rebalance_threshold: u8,
}

/// `a` sorts strictly before `b`: higher performance score first, then the larger
/// balance, then the lower volatility.
pub open spec fn outranks(a: StrategyData, b: StrategyData) -> bool {
    ||| a.performance_score > b.performance_score
    ||| (a.performance_score == b.performance_score && a.current_balance > b.current_balance)
    ||| (a.performance_score == b.performance_score && a.current_balance == b.current_balance
        && a.volatility_score < b.volatility_score)
}

/// `a` and `b` agree on all three sort keys.
pub open spec fn same_sort_key(a: StrategyData, b: StrategyData) -> bool {
    &&& a.performance_score == b.performance_score
    &&& a.current_balance == b.current_balance
    &&& a.volatility_score == b.volatility_score
}

/// `a` and `b` are the same record, except perhaps for the percentile rank.
pub open spec fn same_record(a: StrategyData, b: StrategyData) -> bool {
    &&& a.strategy_id == b.strategy_id
    &&& same_sort_key(a, b)
    &&& a.rebalance_threshold == b.rebalance_threshold
}

/// No strategy is outranked by one that comes after it.
pub open spec fn in_rank_order(s: Seq<StrategyData>) -> bool {
    forall|i: int, j: int| 0 <= i < j < s.len() ==> !outranks(#[trigger] s[j], #[trigger] s[i])
}

/// `new` holds the records of `old` rearranged by `perm` (`new[i]` is `old[perm[i]]`),
/// and records with equal sort keys keep their relative order.
pub open spec fn stable_rearrangement(
    old: Seq<StrategyData>,
    new: Seq<StrategyData>,
    perm: Seq<int>,
) -> bool {
    &&& new.len() == old.len()
    &&& perm.len() == old.len()
    &&& forall|i: int| 0 <= i < perm.len() ==> 0 <= #[trigger] perm[i] < old.len()
    &&& forall|i: int, j: int| 0 <= i < j < perm.len() ==> #[trigger] perm[i] != #[trigger] perm[j]
    &&& forall|i: int| 0 <= i < new.len() ==> same_record(#[trigger] new[i], old[perm[i]])
    &&& forall|i: int, j: int|
        0 <= i < j < new.len() && same_sort_key(#[trigger] new[i], #[trigger] new[j]) ==> perm[i]
            < perm[j]
}

/// Percentile of the strategy at sorted position `i` (0 = best) among `n`.
pub open spec fn percentile_at(n: int, i: int) -> int {
    if n == 1 {
        SOLE_STRATEGY_PERCENTILE as int
    } else {
        (n - 1 - i) * 100 / (n - 1)
    }
}

/// Size of the bottom group of a cohort of `n` at `threshold` percent: at least one.
pub open spec fn bottom_count(n: int, threshold: int) -> int {
    if n * threshold / 100 < 1 {
        1
    } else {
        n * threshold / 100
    }
}

/// Whether the strategy at sorted position `i` of `s` is an underperformer: the worst
/// one in a cohort of two to four, else one of the bottom group that its own
/// threshold sets.
pub open spec fn is_flagged(s: Seq<StrategyData>, i: int) -> bool {
    let n = s.len() as int;
    if n <= 1 {
        false
    } else if n <= SMALL_COHORT {
        i == n - 1
    } else {
        i >= n - bottom_count(n, s[i].rebalance_threshold as int)
    }
}

/// Identifiers of the flagged strategies among the first `k` of `s`, in order.
pub open spec fn flagged_ids(s: Seq<StrategyData>, k: int) -> Seq<Pubkey>
    decreases k,
{
    if k <= 0 {
        seq![]
    } else if is_flagged(s, k - 1) {
        flagged_ids(s, k - 1).push(s[k - 1].strategy_id)
    } else {
        flagged_ids(s, k - 1)
    }
}

proof fn lemma_outranks_chain(a: StrategyData, b: StrategyData, c: StrategyData)
    requires
        !outranks(b, a),
        outranks(c, a),
    ensures
        !outranks(b, c),
        !same_sort_key(b, c),
{
}

pub proof fn lemma_percentile_bounds(n: int, i: int)
    requires
        0 <= i < n,
    ensures
        0 <= percentile_at(n, i) <= 100,
        i == 0 ==> percentile_at(n, i) == 100 || n == 1,
        n > 1 && i == n - 1 ==> percentile_at(n, i) == 0,
{
    if n > 1 {
        let d = n - 1;
        let x = n - 1 - i;
        assert(0 <= x * 100 / d <= 100) by (nonlinear_arith)
            requires
                0 <= x <= d,
                d > 0,
        {
            assert(x * 100 <= d * 100);
            assert(x * 100 / d <= (d * 100) / d) by {
                vstd::arithmetic::div_mod::lemma_div_is_ordered(x * 100, d * 100, d);
            }
            assert((d * 100) / d == 100) by {
                vstd::arithmetic::div_mod::lemma_div_multiples_vanish(100, d);
            }
        }
        if i == 0 {
            assert((d * 100) / d == 100) by {
                vstd::arithmetic::div_mod::lemma_div_multiples_vanish(100, d);
            }
        }
    }
}

fn outranks_exec(a: &StrategyData, b: &StrategyData) -> (r: bool)
    ensures
        r == outranks(*a, *b),
{
    if a.performance_score != b.performance_score {
        a.performance_score > b.performance_score
    } else if a.current_balance != b.current_balance {
        a.current_balance > b.current_balance
    } else {
        a.volatility_score < b.volatility_score
    }
}

/// Stable insertion sort into rank order.
fn sort_by_rank(input: &Vec<StrategyData>) -> (r: (Vec<StrategyData>, Ghost<Seq<int>>))
    ensures
        in_rank_order(r.0@),
        stable_rearrangement(input@, r.0@, r.1@),
        forall|i: int| 0 <= i < r.0@.len() ==> r.0@[i] == input@[r.1@[i]],
{
    let mut out: Vec<StrategyData> = Vec::new();
    let ghost mut perm: Seq<int> = seq![];
    let n = input.len();
    let mut k: usize = 0;
    while k < n
        invariant
            n == input@.len(),
            k <= n,
            out@.len() == k,
            perm.len() == k,
            in_rank_order(out@),
            forall|i: int| 0 <= i < k ==> 0 <= #[trigger] perm[i] < k,
            forall|i: int, j: int| 0 <= i < j < k ==> #[trigger] perm[i] != #[trigger] perm[j],
            forall|i: int| 0 <= i < k ==> #[trigger] out@[i] == input@[perm[i]],
            forall|i: int, j: int|
                0 <= i < j < k && same_sort_key(#[trigger] out@[i], #[trigger] out@[j]) ==> perm[i]
                    < perm[j],
        decreases n - k,
    {
        let x = input[k];
        let mut p: usize = 0;
        while p < out.len() && !outranks_exec(&x, &out[p])
            invariant
                p <= out@.len(),
                forall|i: int| 0 <= i < p ==> !outranks(x, #[trigger] out@[i]),
            decreases out@.len() - p,
        {
            p = p + 1;
        }
        let ghost old_out = out@;
        let ghost old_perm = perm;
        out.insert(p, x);
        proof {
            old_out.insert_ensures(p as int, x);
            old_perm.insert_ensures(p as int, k as int);
            perm = old_perm.insert(p as int, k as int);
            assert forall|i: int, j: int| 0 <= i < j < out@.len() implies !outranks(
                #[trigger] out@[j],
                #[trigger] out@[i],
            ) by {
                // An element that moved right of `x` was already behind the
                // element `x` displaced, which `x` outranks.
                if j > p && i <= p {
                    lemma_outranks_chain(old_out[p as int], old_out[j - 1], x);
                    if i < p {
                        assert(!outranks(old_out[j - 1], old_out[i]));
                    }
                }
            }
            assert forall|i: int, j: int|
                0 <= i < j < out@.len() && same_sort_key(
                    #[trigger] out@[i],
                    #[trigger] out@[j],
                ) implies perm[i] < perm[j] by {
                if i == p && j > p {
                    lemma_outranks_chain(old_out[p as int], old_out[j - 1], x);
                }
            }
            assert forall|i: int, j: int| 0 <= i < j < k + 1 implies #[trigger] perm[i]
                != #[trigger] perm[j] by {}
        }
        k = k + 1;
    }
    proof {
        assert forall|i: int| 0 <= i < out@.len() implies same_record(
            #[trigger] out@[i],
            input@[perm[i]],
        ) by {}
    }
    (out, Ghost(perm))
}

/// Sorts `strategies` into rank order, writes each one's percentile rank, and returns
/// the identifiers of the underperformers in sorted order.
pub fn calculate_percentile_rankings(strategies: &mut Vec<StrategyData>) -> (r: Result<
    Vec<Pubkey>,
    RebalancerErrorCode,
>)
    ensures
        old(strategies)@.len() == 0 <==> r is Err,
        r is Err ==> r == Err::<Vec<Pubkey>, _>(RebalancerErrorCode::InsufficientStrategies)
            && final(strategies)@ == old(strategies)@,
        r is Ok ==> {
            let s = final(strategies)@;
            &&& in_rank_order(s)
            &&& exists|perm: Seq<int>| stable_rearrangement(old(strategies)@, s, perm)
            &&& forall|i: int|
                0 <= i < s.len() ==> #[trigger] s[i].percentile_rank == percentile_at(
                    s.len() as int,
                    i,
                )
            &&& r->Ok_0@ == flagged_ids(s, s.len() as int)
        },
{
    if strategies.len() == 0 {
        return Err(RebalancerErrorCode::InsufficientStrategies);
    }
    let (mut sorted, Ghost(perm)) = sort_by_rank(strategies);
    let n = sorted.len();
    let ghost base = sorted@;
    let mut underperformers: Vec<Pubkey> = Vec::new();
    let mut i: usize = 0;
    while i < n
        invariant
            n == sorted@.len(),
            n == base.len(),
            n >= 1,
            i <= n,
            in_rank_order(base),
            forall|j: int|
                0 <= j < n ==> same_record(#[trigger] sorted@[j], base[j]),
            forall|j: int|
                0 <= j < i ==> #[trigger] sorted@[j].percentile_rank == percentile_at(
                    n as int,
                    j,
                ),
            underperformers@ == flagged_ids(sorted@, i as int),
        decreases n - i,
    {
        let rank: u8 = if n == 1 {
            SOLE_STRATEGY_PERCENTILE
        } else {
            proof {
                lemma_percentile_bounds(n as int, i as int);
            }
            (((n - 1 - i) as u128 * 100) / ((n - 1) as u128)) as u8
        };
        let flagged: bool = if n == 1 {
            false
        } else if n <= SMALL_COHORT {
            i == n - 1
        } else {
            let threshold: u8 = sorted[i].rebalance_threshold;
            assert(n as u128 * threshold as u128 <= 0x1_0000_0000_0000_0000 * 256) by (nonlinear_arith)
                requires
                    n as u128 <= 0x1_0000_0000_0000_0000u128,
                    threshold <= 255,
            ;
            let share: u128 = (n as u128 * threshold as u128) / 100;
            let k: u128 = if share < 1 {
                1
            } else {
                share
            };
            i as u128 + k >= n as u128
        };
        let ghost before = sorted@;
        let mut entry = sorted[i];
        entry.percentile_rank = rank;
        sorted.set(i, entry);
        proof {
            assert(flagged == is_flagged(sorted@, i as int));
            assert forall|k: int| 0 <= k <= i implies flagged_ids(sorted@, k) == flagged_ids(
                before,
                k,
            ) by {
                lemma_flagged_ids_agree(before, sorted@, k);
            }
        }
        if flagged {
            underperformers.push(entry.strategy_id);
        }
        i = i + 1;
    }
    proof {
        assert forall|a: int, b: int| 0 <= a < b < sorted@.len() implies !outranks(
            #[trigger] sorted@[b],
            #[trigger] sorted@[a],
        ) by {
            assert(!outranks(base[b], base[a]));
        }
        assert(stable_rearrangement(strategies@, sorted@, perm)) by {
            assert forall|a: int, b: int|
                0 <= a < b < sorted@.len() && same_sort_key(
                    #[trigger] sorted@[a],
                    #[trigger] sorted@[b],
                ) implies perm[a] < perm[b] by {
                assert(same_sort_key(base[a], base[b]));
            }
            assert forall|a: int| 0 <= a < sorted@.len() implies same_record(
                #[trigger] sorted@[a],
                strategies@[perm[a]],
            ) by {
                assert(same_record(base[a], strategies@[perm[a]]));
            }
        }
    }
    *strategies = sorted;
    Ok(underperformers)
}

/// Flagging reads only the sort position and each record's threshold, which a
/// change of percentile ranks leaves alone.
proof fn lemma_flagged_ids_agree(a: Seq<StrategyData>, b: Seq<StrategyData>, k: int)
    requires
        a.len() == b.len(),
        k <= a.len(),
        forall|j: int| 0 <= j < a.len() ==> same_record(#[trigger] a[j], b[j]),
    ensures
        flagged_ids(a, k) == flagged_ids(b, k),
    decreases k,
{
    if k > 0 {
        lemma_flagged_ids_agree(a, b, k - 1);
        assert(same_record(a[k - 1], b[k - 1]));
    }
}

/// Percentile ranks fall, never rise, along the sort order: an earlier strategy's rank
/// is at least a later one's, and the best-sorted strategy's rank is the highest.
pub proof fn lemma_percentiles_non_increasing(s: Seq<StrategyData>)
    requires
        s.len() > 0,
        forall|i: int|
            0 <= i < s.len() ==> #[trigger] s[i].percentile_rank == percentile_at(s.len() as int, i),
    ensures
        forall|i: int, j: int|
            0 <= i <= j < s.len() ==> #[trigger] s[i].percentile_rank >= #[trigger] s[j].percentile_rank,
        forall|j: int| 0 <= j < s.len() ==> s[0].percentile_rank >= #[trigger] s[j].percentile_rank,
{
    let n = s.len() as int;
    assert forall|i: int, j: int| 0 <= i <= j < n implies #[trigger] s[i].percentile_rank
        >= #[trigger] s[j].percentile_rank by {
        lemma_percentile_ordered(n, i, j);
    }
    assert forall|j: int| 0 <= j < n implies s[0].percentile_rank >= #[trigger] s[j].percentile_rank by {
        lemma_percentile_ordered(n, 0, j);
    }
}

/// `percentile_at` is non-increasing in the position, and strictly decreasing while
/// the cohort has at most 101 members.
pub proof fn lemma_percentile_ordered(n: int, i: int, j: int)
    requires
        0 <= i <= j < n,
    ensures
        percentile_at(n, i) >= percentile_at(n, j),
        1 < n <= 101 && i < j ==> percentile_at(n, i) > percentile_at(n, j),
{
    if n > 1 {
        let d = n - 1;
        let a = (n - 1 - i) * 100;
        let b = (n - 1 - j) * 100;
        assert(b <= a) by (nonlinear_arith)
            requires
                i <= j,
                a == (n - 1 - i) * 100,
                b == (n - 1 - j) * 100,
        ;
        vstd::arithmetic::div_mod::lemma_div_is_ordered(b, a, d);
        if n <= 101 && i < j {
            assert(b + d <= a) by (nonlinear_arith)
                requires
                    i < j,
                    d == n - 1,
                    d <= 100,
                    a == (n - 1 - i) * 100,
                    b == (n - 1 - j) * 100,
            ;
            vstd::arithmetic::div_mod::lemma_div_is_ordered(b + d, a, d);
            vstd::arithmetic::div_mod::lemma_hoist_over_denominator(b, 1, d as nat);
        }
    }
}

/// A strategy ranked alone gets the median percentile and is never an underperformer.
pub proof fn lemma_single_strategy(s: Seq<StrategyData>)
    requires
        s.len() == 1,
        forall|i: int|
            0 <= i < s.len() ==> #[trigger] s[i].percentile_rank == percentile_at(s.len() as int, i),
    ensures
        s[0].percentile_rank == SOLE_STRATEGY_PERCENTILE,
        flagged_ids(s, s.len() as int) == Seq::<Pubkey>::empty(),
{
    assert(s[0].percentile_rank == percentile_at(1, 0));
    assert(flagged_ids(s, 0) == Seq::<Pubkey>::empty());
}

/// Of two ranked strategies with equal performance scores, the one with the larger
/// balance sorts first and gets at least as high a percentile (strictly higher in a
/// cohort of at most 101); with equal balances too, the calmer one sorts first.
pub proof fn lemma_tie_break(s: Seq<StrategyData>, i: int, j: int)
    requires
        in_rank_order(s),
        forall|k: int|
            0 <= k < s.len() ==> #[trigger] s[k].percentile_rank == percentile_at(s.len() as int, k),
        0 <= i < s.len(),
        0 <= j < s.len(),
        s[i].performance_score == s[j].performance_score,
        s[i].current_balance > s[j].current_balance || (s[i].current_balance
            == s[j].current_balance && s[i].volatility_score < s[j].volatility_score),
    ensures
        i < j,
        s[i].percentile_rank >= s[j].percentile_rank,
        s.len() <= 101 ==> s[i].percentile_rank > s[j].percentile_rank,
{
    if j <= i {
        if j < i {
            assert(!outranks(s[i], s[j]));
        }
    }
    lemma_percentile_ordered(s.len() as int, i, j);
}

impl StrategyData {
    pub fn from_strategy(strategy: &Strategy, rebalance_threshold: u8) -> (r: StrategyData)
        ensures
            r.strategy_id == strategy.strategy_id,
            r.performance_score == strategy.performance_score,
            r.current_balance == strategy.current_balance,
            r.volatility_score == strategy.volatility_score,
            r.percentile_rank == strategy.percentile_rank,
            r.rebalance_threshold == rebalance_threshold,
    {
        StrategyData {
            strategy_id: strategy.strategy_id,
            performance_score: strategy.performance_score,
            current_balance: strategy.current_balance,
            volatility_score: strategy.volatility_score,
            percentile_rank: strategy.percentile_rank,
            rebalance_threshold,
        }
    }
}

/// A strategy is due for rebalancing when it is active, holds enough capital to be
/// worth moving, and ranks below the portfolio's threshold.
pub fn should_rebalance_strategy(strategy: &Strategy, portfolio_threshold: u8) -> (r: bool)
    ensures
        r == (strategy.status == StrategyStatus::Active && strategy.current_balance
            >= MIN_REBALANCE_BALANCE && strategy.percentile_rank < portfolio_threshold),
{
    if strategy.status != StrategyStatus::Active {
        return false;
    }
    if strategy.current_balance < MIN_REBALANCE_BALANCE {
        return false;
    }
    strategy.percentile_rank < portfolio_threshold
}

} // verus!
