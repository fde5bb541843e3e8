//! The reward engine: a deterministic fixed-point split of a block's
//! coinbase reward across its coinbase solutions.
//!
//! Each prover's share is `floor(coinbase * target / (2 * cumulative))`,
//! computed in widened 128-bit arithmetic; the flooring division is the
//! auditable rounding rule, so the distributed total never exceeds half the
//! coinbase reward and the remainder is retained, never re-distributed.

use crate::block::{Block, BlockModel, PreviousBlockState, SolutionModel};
use crate::message::{BlockReward, EventModel, Message, Solution, SyncHeight};
use vstd::arithmetic::div_mod::{
    lemma_div_denominator, lemma_div_is_ordered, lemma_div_multiples_vanish,
    lemma_fundamental_div_mod, lemma_mod_bound,
};
use vstd::arithmetic::mul::{
    lemma_mul_inequality, lemma_mul_is_distributive_add, lemma_mul_nonnegative,
};
use vstd::prelude::*;

verus! {

/// Why a block could not be processed. Every variant is a data-invariant
/// violation: the source served inconsistent data, and the pipeline must
/// stop rather than coerce it.
#[derive(Debug, Clone, Copy, PartialEq, Eq, Structural)]
pub enum RewardError {
    /// The block's height is not exactly one above its predecessor's.
    HeightDiscontinuity,
    /// The block's round is not exactly one above its predecessor's.
    RoundDiscontinuity,
    /// The block carries solutions whose proof targets sum to zero.
    ZeroCumulativeTarget,
    /// The cumulative proof target exceeds what 128-bit arithmetic can
    /// split without wrapping.
    TargetOverflow,
}

/// What processing one block produced: the distributed total, the solution
/// count, and the messages to dispatch, in emission order.
#[derive(Debug)]
pub struct BlockOutcome {
    pub total_reward: u64,
    pub solutions_num: usize,
    pub events: Vec<Message>,
}

/// The cumulative proof target of a solution list.
pub open spec fn sum_targets(s: Seq<SolutionModel>) -> int
    decreases s.len(),
{
    if s.len() == 0 {
        0
    } else {
        sum_targets(s.drop_last()) + s.last().proof_target
    }
}

/// A prover's share: `floor(coinbase * target / (2 * cumulative))`.
pub open spec fn prover_reward(coinbase: u64, target: u64, cumulative: int) -> int
    recommends
        cumulative > 0,
{
    (coinbase * target) / (2 * cumulative)
}

/// The sum of all provers' shares of a solution list.
pub open spec fn sum_rewards(coinbase: u64, s: Seq<SolutionModel>, cumulative: int) -> int
    decreases s.len(),
{
    if s.len() == 0 {
        0
    } else {
        sum_rewards(coinbase, s.drop_last(), cumulative) + prover_reward(
            coinbase,
            s.last().proof_target,
            cumulative,
        )
    }
}

/// The configured allow-list, as character sequences.
pub open spec fn allow_view(address: Seq<String>) -> Seq<Seq<char>> {
    address.map_values(|a: String| a@)
}

/// Whether an address passes the allow-list; an empty list allows all.
pub open spec fn address_allowed(allow: Seq<Seq<char>>, addr: Seq<char>) -> bool {
    allow.len() == 0 || exists|i: int| 0 <= i < allow.len() && allow[i] == addr
}

/// Whether at least one solution of the list passes the allow-list.
pub open spec fn any_allowed(allow: Seq<Seq<char>>, s: Seq<SolutionModel>) -> bool
    decreases s.len(),
{
    if s.len() == 0 {
        false
    } else {
        any_allowed(allow, s.drop_last()) || address_allowed(allow, s.last().address)
    }
}

/// The models of a message list, element for element.
pub open spec fn events_view(v: Seq<Message>) -> Seq<EventModel> {
    v.map_values(|m: Message| m@)
}

/// The solution-reward messages a block emits: one per allowed solution, in
/// solution order.
pub open spec fn solution_events(
    s: Seq<SolutionModel>,
    allow: Seq<Seq<char>>,
    coinbase: u64,
    cumulative: int,
    height: u32,
    timestamp: i64,
) -> Seq<EventModel>
    decreases s.len(),
{
    if s.len() == 0 {
        Seq::empty()
    } else {
        let prefix = solution_events(s.drop_last(), allow, coinbase, cumulative, height, timestamp);
        let sol = s.last();
        if address_allowed(allow, sol.address) {
            prefix.push(
                EventModel::Solution {
                    block_height: height,
                    address: sol.address,
                    nonce: sol.nonce,
                    commitment: sol.commitment,
                    solution_reward: prover_reward(coinbase, sol.proof_target, cumulative) as u64,
                    timestamp,
                },
            )
        } else {
            prefix
        }
    }
}

/// Everything a successfully processed block emits: its solution rewards,
/// block-level detail when enabled and at least one solution matched, and
/// always exactly one height-advanced message, last.
pub open spec fn block_events(
    b: BlockModel,
    coinbase: u64,
    allow: Seq<Seq<char>>,
    store_block: bool,
) -> Seq<EventModel> {
    let cumulative = sum_targets(b.solutions);
    let sols = solution_events(b.solutions, allow, coinbase, cumulative, b.height, b.timestamp);
    let with_block = if store_block && any_allowed(allow, b.solutions) {
        sols.push(
            EventModel::BlockReward {
                block: b,
                solutions_num: b.solutions.len() as int,
                block_reward: sum_rewards(coinbase, b.solutions, cumulative) as u64,
            },
        )
    } else {
        sols
    };
    with_block.push(EventModel::SyncHeight { height: b.height })
}

/// The engine's precondition on chain data: heights and rounds advance by
/// exactly one.
pub open spec fn continuity_ok(b: BlockModel, p: PreviousBlockState) -> bool {
    b.height == p.height + 1 && b.round == p.round + 1
}

/// Whether the cumulative target is too large for the widened 128-bit
/// split.
pub open spec fn targets_overflow(s: Seq<SolutionModel>) -> bool {
    sum_targets(s) >= 0x8000_0000_0000_0000_0000_0000_0000_0000int
}

pub proof fn lemma_sum_targets_nonneg(s: Seq<SolutionModel>)
    ensures
        sum_targets(s) >= 0,
    decreases s.len(),
{
    if s.len() > 0 {
        lemma_sum_targets_nonneg(s.drop_last());
    }
}

/// The cumulative target of a prefix never exceeds that of the whole list.
pub proof fn lemma_sum_targets_prefix(s: Seq<SolutionModel>, i: int)
    requires
        0 <= i <= s.len(),
    ensures
        sum_targets(s.take(i)) <= sum_targets(s),
    decreases s.len() - i,
{
    if i == s.len() {
        assert(s.take(i) =~= s);
    } else {
        assert(s.take(i + 1).drop_last() =~= s.take(i));
        assert(s.take(i + 1).last() == s[i]);
        lemma_sum_targets_prefix(s, i + 1);
    }
}

/// Each solution's target is at most the cumulative target.
pub proof fn lemma_target_le_sum(s: Seq<SolutionModel>, i: int)
    requires
        0 <= i < s.len(),
    ensures
        s[i].proof_target <= sum_targets(s),
{
    assert(s.take(i + 1).drop_last() =~= s.take(i));
    assert(s.take(i + 1).last() == s[i]);
    lemma_sum_targets_nonneg(s.take(i));
    lemma_sum_targets_prefix(s, i + 1);
}

/// Flooring division loses against a shared denominator: the sum of two
/// floors is at most the floor of the sum.
proof fn lemma_div_sum_le(a: int, b: int, d: int)
    requires
        a >= 0,
        b >= 0,
        d > 0,
    ensures
        a / d + b / d <= (a + b) / d,
{
    lemma_fundamental_div_mod(a, d);
    lemma_fundamental_div_mod(b, d);
    lemma_mod_bound(a, d);
    lemma_mod_bound(b, d);
    let q = a / d + b / d;
    assert(d * q == d * (a / d) + d * (b / d)) by {
        lemma_mul_is_distributive_add(d, a / d, b / d);
    }
    assert(d * q <= a + b);
    lemma_div_multiples_vanish(q, d);
    lemma_div_is_ordered(d * q, a + b, d);
}

/// The distributed total is at most the scaled cumulative fraction.
proof fn lemma_sum_rewards_le_scaled(coinbase: u64, s: Seq<SolutionModel>, c: int)
    requires
        c > 0,
    ensures
        sum_rewards(coinbase, s, c) <= (coinbase * sum_targets(s)) / (2 * c),
    decreases s.len(),
{
    if s.len() == 0 {
        assert((coinbase * 0) / (2 * c) == 0) by {
            vstd::arithmetic::div_mod::lemma_div_of0(2 * c);
        }
    } else {
        let s0 = s.drop_last();
        let t = s.last().proof_target;
        lemma_sum_rewards_le_scaled(coinbase, s0, c);
        lemma_sum_targets_nonneg(s0);
        lemma_mul_nonnegative(coinbase as int, sum_targets(s0));
        lemma_mul_nonnegative(coinbase as int, t as int);
        lemma_div_sum_le(coinbase * sum_targets(s0), coinbase * t, 2 * c);
        assert(coinbase * sum_targets(s0) + coinbase * t == coinbase * sum_targets(s)) by {
            lemma_mul_is_distributive_add(coinbase as int, sum_targets(s0), t as int);
        }
        lemma_div_is_ordered(
            coinbase * sum_targets(s0) + coinbase * t,
            coinbase * sum_targets(s),
            2 * c,
        );
    }
}

/// With the full cumulative target in the numerator, the scaled fraction is
/// exactly half the coinbase reward.
proof fn lemma_full_fraction_is_half(coinbase: u64, c: int)
    requires
        c > 0,
    ensures
        (coinbase * c) / (2 * c) == coinbase as int / 2,
{
    lemma_mul_nonnegative(coinbase as int, c);
    lemma_div_denominator(coinbase * c, c, 2);
    assert((coinbase * c) / c == coinbase) by {
        lemma_div_multiples_vanish(coinbase as int, c);
        assert(c * (coinbase as int) == (coinbase as int) * c) by (nonlinear_arith);
    }
    assert(c * 2 == 2 * c);
}

/// A scaled fraction of at most the full cumulative target stays at or
/// below half the coinbase reward.
proof fn lemma_scaled_le_half(coinbase: u64, part: int, c: int)
    requires
        0 <= part <= c,
        c > 0,
    ensures
        (coinbase * part) / (2 * c) <= coinbase as int / 2,
{
    lemma_mul_inequality(part, c, coinbase as int);
    assert(part * (coinbase as int) == (coinbase as int) * part) by (nonlinear_arith);
    assert(c * (coinbase as int) == (coinbase as int) * c) by (nonlinear_arith);
    lemma_div_is_ordered(coinbase * part, coinbase * c, 2 * c);
    lemma_full_fraction_is_half(coinbase, c);
}

/// Reward conservation: for any coinbase reward and any solution list with
/// a positive cumulative target, the sum of the provers' shares is at most
/// `floor(coinbase / 2)`, and a single solution, which necessarily holds
/// the whole cumulative target, receives exactly `floor(coinbase / 2)`.
pub proof fn lemma_reward_conservation(coinbase: u64, s: Seq<SolutionModel>)
    requires
        sum_targets(s) > 0,
    ensures
        sum_rewards(coinbase, s, sum_targets(s)) <= coinbase as int / 2,
        s.len() == 1 ==> sum_rewards(coinbase, s, sum_targets(s)) == coinbase as int / 2,
{
    let c = sum_targets(s);
    lemma_sum_rewards_le_scaled(coinbase, s, c);
    lemma_scaled_le_half(coinbase, c, c);
    if s.len() == 1 {
        assert(s.drop_last().len() == 0);
        assert(sum_targets(s.drop_last()) == 0);
        assert(sum_rewards(coinbase, s.drop_last(), c) == 0);
        assert(sum_targets(s) == s.last().proof_target);
        assert(sum_rewards(coinbase, s, c) == prover_reward(coinbase, s.last().proof_target, c));
        lemma_full_fraction_is_half(coinbase, c);
    }
}

/// Every single share stays at or below half the coinbase reward, so it
/// always fits in 64 bits.
pub proof fn lemma_prover_reward_bounds(coinbase: u64, s: Seq<SolutionModel>, i: int)
    requires
        0 <= i < s.len(),
        sum_targets(s) > 0,
    ensures
        0 <= prover_reward(coinbase, s[i].proof_target, sum_targets(s)) <= coinbase as int / 2,
{
    let c = sum_targets(s);
    let t = s[i].proof_target;
    lemma_target_le_sum(s, i);
    lemma_scaled_le_half(coinbase, t as int, c);
    lemma_mul_nonnegative(coinbase as int, t as int);
    assert(prover_reward(coinbase, t, c) >= 0) by {
        lemma_div_is_ordered(0, coinbase * t, 2 * c);
        vstd::arithmetic::div_mod::lemma_div_of0(2 * c);
    }
}

/// The running total over a prefix stays at or below half the coinbase
/// reward.
pub proof fn lemma_sum_rewards_prefix_bound(coinbase: u64, s: Seq<SolutionModel>, i: int)
    requires
        0 <= i <= s.len(),
        sum_targets(s) > 0,
    ensures
        0 <= sum_rewards(coinbase, s.take(i), sum_targets(s)) <= coinbase as int / 2,
{
    let c = sum_targets(s);
    lemma_sum_rewards_nonneg(coinbase, s.take(i), c);
    lemma_sum_rewards_le_scaled(coinbase, s.take(i), c);
    lemma_sum_targets_nonneg(s.take(i));
    lemma_sum_targets_prefix(s, i);
    lemma_scaled_le_half(coinbase, sum_targets(s.take(i)), c);
}

proof fn lemma_sum_rewards_nonneg(coinbase: u64, s: Seq<SolutionModel>, c: int)
    requires
        c > 0,
    ensures
        sum_rewards(coinbase, s, c) >= 0,
    decreases s.len(),
{
    if s.len() > 0 {
        lemma_sum_rewards_nonneg(coinbase, s.drop_last(), c);
        lemma_mul_nonnegative(coinbase as int, s.last().proof_target as int);
        lemma_div_is_ordered(0, coinbase * s.last().proof_target, 2 * c);
        vstd::arithmetic::div_mod::lemma_div_of0(2 * c);
    }
}

proof fn lemma_events_view_push(v: Seq<Message>, m: Message)
    ensures
        events_view(v.push(m)) == events_view(v).push(m@),
{
    assert(events_view(v.push(m)) =~= events_view(v).push(m@));
}

/// Checks one address against the allow-list; an empty list allows all.
pub fn addr_allowed(allow: &Vec<String>, addr: &String) -> (r: bool)
    ensures
        r == address_allowed(allow_view(allow@), addr@),
{
    if allow.len() == 0 {
        return true;
    }
    let mut i: usize = 0;
    while i < allow.len()
        invariant
            i <= allow.len(),
            forall|k: int| 0 <= k < i ==> allow@[k]@ != addr@,
        decreases allow.len() - i,
    {
        if allow[i] == *addr {
            proof {
                assert(allow_view(allow@)[i as int] == addr@);
            }
            return true;
        }
        i = i + 1;
    }
    proof {
        assert forall|k: int| 0 <= k < allow@.len() implies allow_view(allow@)[k] != addr@ by {
            assert(allow_view(allow@)[k] == allow@[k]@);
        }
    }
    false
}

/// Processes one block against its predecessor's carry.
///
/// The coinbase reward for the block is computed by the surrounding chain
/// protocol and handed in; this engine splits it deterministically across
/// the block's solutions. On success the emitted messages are, in order:
/// one solution reward per allow-listed solution, block-level detail when
/// enabled and at least one solution matched, and exactly one
/// height-advanced message. Any discontinuity against the predecessor is a
/// fatal error, never coerced.
#[verifier::loop_isolation(false)]
pub fn parse_block(
    current: &Block,
    previous: &PreviousBlockState,
    coinbase_reward: u64,
    address: &Vec<String>,
    store_block: bool,
) -> (r: Result<BlockOutcome, RewardError>)
    ensures
        (r matches Err(RewardError::HeightDiscontinuity)) <==> current@.height != previous.height
            + 1,
        (r matches Err(RewardError::RoundDiscontinuity)) <==> (current@.height == previous.height
            + 1 && current@.round != previous.round + 1),
        (r matches Err(RewardError::TargetOverflow)) <==> (continuity_ok(current@, *previous)
            && targets_overflow(current@.solutions)),
        (r matches Err(RewardError::ZeroCumulativeTarget)) <==> (continuity_ok(current@, *previous)
            && !targets_overflow(current@.solutions) && current@.solutions.len() > 0
            && sum_targets(current@.solutions) == 0),
        (r is Ok) <==> (continuity_ok(current@, *previous) && !targets_overflow(current@.solutions)
            && (current@.solutions.len() > 0 ==> sum_targets(current@.solutions) > 0)),
        r matches Ok(out) ==> out.total_reward == sum_rewards(
            coinbase_reward,
            current@.solutions,
            sum_targets(current@.solutions),
        ) && out.total_reward <= coinbase_reward / 2 && out.solutions_num
            == current@.solutions.len() && events_view(out.events@) == block_events(
            current@,
            coinbase_reward,
            allow_view(address@),
            store_block,
        ),
{
    let ghost sols = current@.solutions;
    let ghost allow = allow_view(address@);

    if (previous.height as u64) + 1 != (current.height as u64) {
        return Err(RewardError::HeightDiscontinuity);
    }
    if (previous.round as u64) + 1 != (current.round as u64) {
        return Err(RewardError::RoundDiscontinuity);
    }

    let n = current.solutions.len();
    let mut events: Vec<Message> = Vec::new();
    let mut total_reward: u64 = 0;
    let mut matched = false;

    if n > 0 {
        // Cumulative proof target, in checked 128-bit arithmetic.
        let mut cumulative: u128 = 0;
        let mut i: usize = 0;
        while i < n
            invariant
                i <= n,
                n == current.solutions.len(),
                sols == current@.solutions,
                cumulative as int == sum_targets(sols.take(i as int)),
            decreases n - i,
        {
            let t = current.solutions[i].proof_target;
            proof {
                assert(sols.take(i + 1).drop_last() =~= sols.take(i as int));
                assert(sols.take(i + 1).last() == sols[i as int]);
                assert(sols[i as int].proof_target == current.solutions@[i as int]@.proof_target);
            }
            cumulative = match cumulative.checked_add(t as u128) {
                Some(c) => c,
                None => {
                    proof {
                        lemma_sum_targets_prefix(sols, i + 1);
                    }
                    return Err(RewardError::TargetOverflow);
                },
            };
            i = i + 1;
        }
        proof {
            assert(sols.take(n as int) =~= sols);
        }

        if cumulative == 0 {
            return Err(RewardError::ZeroCumulativeTarget);
        }
        let denominator = match cumulative.checked_mul(2) {
            Some(d) => d,
            None => {
                return Err(RewardError::TargetOverflow);
            },
        };

        let mut j: usize = 0;
        while j < n
            invariant
                j <= n,
                n == current.solutions.len(),
                sols == current@.solutions,
                allow == allow_view(address@),
                0 < sum_targets(sols) < 0x8000_0000_0000_0000_0000_0000_0000_0000int,
                cumulative as int == sum_targets(sols),
                denominator as int == 2 * sum_targets(sols),
                total_reward as int == sum_rewards(
                    coinbase_reward,
                    sols.take(j as int),
                    sum_targets(sols),
                ),
                total_reward <= coinbase_reward / 2,
                matched == any_allowed(allow, sols.take(j as int)),
                events_view(events@) == solution_events(
                    sols.take(j as int),
                    allow,
                    coinbase_reward,
                    sum_targets(sols),
                    current.height,
                    current.timestamp,
                ),
            decreases n - j,
        {
            let sol = &current.solutions[j];
            proof {
                assert(sols.take(j + 1).drop_last() =~= sols.take(j as int));
                assert(sols.take(j + 1).last() == sols[j as int]);
                assert(sols[j as int] == current.solutions@[j as int]@);
                vstd::arithmetic::mul::lemma_mul_upper_bound(
                    coinbase_reward as int,
                    0xffff_ffff_ffff_ffffint,
                    sol.proof_target as int,
                    0xffff_ffff_ffff_ffffint,
                );
            }
            let numerator = (coinbase_reward as u128) * (sol.proof_target as u128);
            proof {
                lemma_prover_reward_bounds(coinbase_reward, sols, j as int);
            }
            let reward = (numerator / denominator) as u64;
            if addr_allowed(address, &sol.address) {
                matched = true;
                let message = Message::Solution(
                    Solution {
                        block_height: current.height,
                        address: sol.address.clone(),
                        nonce: sol.nonce,
                        commitment: sol.commitment.clone(),
                        solution_reward: reward,
                        timestamp: current.timestamp,
                    },
                );
                proof {
                    lemma_events_view_push(events@, message);
                }
                events.push(message);
            }
            proof {
                lemma_sum_rewards_prefix_bound(coinbase_reward, sols, j + 1);
            }
            total_reward = total_reward.saturating_add(reward);
            j = j + 1;
        }
        proof {
            assert(sols.take(n as int) =~= sols);
        }
        if store_block && matched {
            let message = Message::BlockReward(
                BlockReward {
                    block: current.duplicate(),
                    solutions_num: n,
                    block_reward: total_reward,
                },
            );
            proof {
                lemma_events_view_push(events@, message);
            }
            events.push(message);
        }
    }

    let message = Message::SyncHeight(SyncHeight { height: current.height });
    proof {
        lemma_events_view_push(events@, message);
        if sols.len() == 0 {
            assert(events_view(events@) =~= solution_events(
                sols,
                allow,
                coinbase_reward,
                sum_targets(sols),
                current.height,
                current.timestamp,
            ));
        }
    }
    events.push(message);

    Ok(BlockOutcome { total_reward, solutions_num: n, events })
}

} // verus!
