use vstd::prelude::*;

use crate::percentile::{
    count_at_most, count_below, lemma_percentile_fee_extremes, lemma_percentile_fee_is_sample,
    lemma_percentile_fee_monotone, lemma_percentile_fee_order_independent,
    lemma_percentile_fee_order_statistic, percentile_fee, selected_rank,
};

verus! {

/// A priority-fee price, in micro-lamports per compute unit.
#[derive(Debug, Clone, Copy)]
pub struct FeeEstimate {
    pub micro_lamports_per_cu: u64,
}

/// Configuration for fee estimation.
#[derive(Debug, Clone, Copy)]
pub struct FeeServiceConfig {
    pub cache_duration_secs: u64,
    pub default_micro_lamports_per_cu: u64,
    pub fallback_micro_lamports_per_cu: u64,
    pub percentile: u8,
}

/// The fee samples an RPC answer carries: `None` when the request failed,
/// `Some(fees)` with the prioritization fee of each reported slot otherwise.
pub open spec fn samples_of(rpc_fees: Option<Vec<u64>>) -> Option<Seq<u64>> {
    match rpc_fees {
        Some(fees) => Some(fees@),
        None => None,
    }
}

/// The percentile computation over these samples stays within `usize`.
pub open spec fn samples_fit(config: FeeServiceConfig, samples: Option<Seq<u64>>) -> bool {
    match samples {
        Some(fees) => fees.len() * config.percentile <= usize::MAX,
        None => true,
    }
}

/// The fee estimated for transactions that touch given accounts:
/// the fallback fee when the RPC request failed, the default fee when it reported no
/// fees, and otherwise the configured percentile of the reported fees, where a
/// percentile of zero (common on a local validator) is replaced by the default fee.
pub open spec fn account_fee_rule(config: FeeServiceConfig, samples: Option<Seq<u64>>) -> u64 {
    match samples {
        None => config.fallback_micro_lamports_per_cu,
        Some(fees) => if fees.len() == 0 {
            config.default_micro_lamports_per_cu
        } else if percentile_fee(fees, config.percentile) == 0 {
            config.default_micro_lamports_per_cu
        } else {
            percentile_fee(fees, config.percentile)
        },
    }
}

/// The general fee estimate, when no accounts are known: the fallback fee when the RPC
/// request failed, the default fee when it reported no fees, and otherwise the
/// configured percentile of the reported fees, zero included.
pub open spec fn general_fee_rule(config: FeeServiceConfig, samples: Option<Seq<u64>>) -> u64 {
    match samples {
        None => config.fallback_micro_lamports_per_cu,
        Some(fees) => if fees.len() == 0 {
            config.default_micro_lamports_per_cu
        } else {
            percentile_fee(fees, config.percentile)
        },
    }
}

/// The cost in lamports of `compute_units` at `micro_lamports_per_cu`
/// (one lamport is one million micro-lamports), rounded down.
pub open spec fn transaction_cost(compute_units: u64, micro_lamports_per_cu: u64) -> int {
    (micro_lamports_per_cu * compute_units) / 1_000_000
}

/// A tip is worth claiming when it exceeds the claim and proving costs together.
pub open spec fn profitable(tip_lamports: u64, claim_cost: u64, proving_cost: u64) -> bool {
    tip_lamports > claim_cost + proving_cost
}

/// When the RPC request fails, both estimates are the configured fallback fee.
pub proof fn lemma_failed_request_gives_fallback(config: FeeServiceConfig)
    ensures
        account_fee_rule(config, None) == config.fallback_micro_lamports_per_cu,
        general_fee_rule(config, None) == config.fallback_micro_lamports_per_cu,
{
}

/// When the RPC reports no fees, both estimates are the configured default fee.
pub proof fn lemma_no_samples_gives_default(config: FeeServiceConfig)
    ensures
        account_fee_rule(config, Some(Seq::empty())) == config.default_micro_lamports_per_cu,
        general_fee_rule(config, Some(Seq::empty())) == config.default_micro_lamports_per_cu,
{
}

/// The account estimate is never zero unless the configured default or fallback fee is.
pub proof fn lemma_account_fee_nonzero(config: FeeServiceConfig, samples: Option<Seq<u64>>)
    requires
        config.default_micro_lamports_per_cu > 0,
        config.fallback_micro_lamports_per_cu > 0,
    ensures
        account_fee_rule(config, samples) > 0,
{
}

/// Both estimates agree whenever the general one is not zero; when it is zero
/// (and the RPC did answer), the account estimate is the default fee.
pub proof fn lemma_account_fee_refines_general(config: FeeServiceConfig, samples: Option<Seq<u64>>)
    ensures
        general_fee_rule(config, samples) != 0 ==> account_fee_rule(config, samples)
            == general_fee_rule(config, samples),
        general_fee_rule(config, samples) == 0 && samples is Some ==> account_fee_rule(
            config,
            samples,
        ) == config.default_micro_lamports_per_cu,
{
}

/// Both estimates depend only on the fee values reported, counted with repetition: not on
/// their order.
pub proof fn lemma_fee_rules_order_independent(config: FeeServiceConfig, a: Seq<u64>, b: Seq<u64>)
    requires
        a.to_multiset() == b.to_multiset(),
    ensures
        account_fee_rule(config, Some(a)) == account_fee_rule(config, Some(b)),
        general_fee_rule(config, Some(a)) == general_fee_rule(config, Some(b)),
{
    lemma_percentile_fee_order_independent(a, b, config.percentile);
}

/// Of two configurations that differ only in the percentile, the one with the higher
/// percentile never gives a lower general estimate from the same non-empty answer.
pub proof fn lemma_general_fee_monotone_in_percentile(
    lower: FeeServiceConfig,
    higher: FeeServiceConfig,
    fees: Seq<u64>,
)
    requires
        fees.len() > 0,
        lower.percentile <= higher.percentile,
        lower.default_micro_lamports_per_cu == higher.default_micro_lamports_per_cu,
        lower.fallback_micro_lamports_per_cu == higher.fallback_micro_lamports_per_cu,
    ensures
        general_fee_rule(lower, Some(fees)) <= general_fee_rule(higher, Some(fees)),
{
    lemma_percentile_fee_monotone(fees, lower.percentile, higher.percentile);
}

/// From a non-empty answer, the general estimate is the reported fee at the configured
/// percentile: one of the reported fees, with fewer reported fees below it than its rank
/// `selected_rank(len, percentile)` and at least that many at most it; at percentile 0 it
/// is at most every reported fee, at percentile 100 or above at least every one.
pub proof fn lemma_general_fee_is_reported_percentile(config: FeeServiceConfig, fees: Seq<u64>)
    requires
        fees.len() > 0,
    ensures
        general_fee_rule(config, Some(fees)) == percentile_fee(fees, config.percentile),
        fees.contains(general_fee_rule(config, Some(fees))),
        count_below(fees, general_fee_rule(config, Some(fees))) < selected_rank(
            fees.len() as int,
            config.percentile,
        ) <= count_at_most(fees, general_fee_rule(config, Some(fees))),
        config.percentile == 0 ==> forall|i: int|
            0 <= i < fees.len() ==> general_fee_rule(config, Some(fees)) <= #[trigger] fees[i],
        config.percentile >= 100 ==> forall|i: int|
            0 <= i < fees.len() ==> #[trigger] fees[i] <= general_fee_rule(config, Some(fees)),
{
    lemma_percentile_fee_is_sample(fees, config.percentile);
    lemma_percentile_fee_order_statistic(fees, config.percentile);
    lemma_percentile_fee_extremes(fees, config.percentile);
}

/// From a non-empty answer, the account estimate is the reported fee at the configured
/// percentile whenever that fee is not zero, whatever the fallback fee is, and the default
/// fee when it is zero. It is never capped: at percentile 100 or above it is at least every
/// reported fee, and whenever it differs from the default fee it is a reported fee of rank
/// `selected_rank(len, percentile)`.
pub proof fn lemma_account_fee_is_reported_percentile(config: FeeServiceConfig, fees: Seq<u64>)
    requires
        fees.len() > 0,
    ensures
        percentile_fee(fees, config.percentile) != 0 ==> account_fee_rule(config, Some(fees))
            == percentile_fee(fees, config.percentile),
        percentile_fee(fees, config.percentile) == 0 ==> account_fee_rule(config, Some(fees))
            == config.default_micro_lamports_per_cu,
        account_fee_rule(config, Some(fees)) != config.default_micro_lamports_per_cu ==> {
            &&& fees.contains(account_fee_rule(config, Some(fees)))
            &&& count_below(fees, account_fee_rule(config, Some(fees))) < selected_rank(
                fees.len() as int,
                config.percentile,
            ) <= count_at_most(fees, account_fee_rule(config, Some(fees)))
        },
        config.percentile >= 100 ==> forall|i: int|
            0 <= i < fees.len() ==> #[trigger] fees[i] <= account_fee_rule(config, Some(fees)),
{
    lemma_percentile_fee_is_sample(fees, config.percentile);
    lemma_percentile_fee_order_statistic(fees, config.percentile);
    lemma_percentile_fee_extremes(fees, config.percentile);
}

/// The cost is the number of whole lamports in fee times compute units micro-lamports:
/// `cost * 1_000_000 <= fee * compute_units < (cost + 1) * 1_000_000`.
pub proof fn lemma_transaction_cost_is_whole_lamports(compute_units: u64, fee: u64)
    ensures
        transaction_cost(compute_units, fee) >= 0,
        transaction_cost(compute_units, fee) * 1_000_000 <= fee * compute_units,
        fee * compute_units < (transaction_cost(compute_units, fee) + 1) * 1_000_000,
{
    assert(fee * compute_units >= 0) by (nonlinear_arith);
}

/// More compute units, or a higher fee, never cost less.
pub proof fn lemma_transaction_cost_monotone(
    compute_units: u64,
    more_compute_units: u64,
    fee: u64,
    higher_fee: u64,
)
    requires
        compute_units <= more_compute_units,
        fee <= higher_fee,
    ensures
        transaction_cost(compute_units, fee) <= transaction_cost(more_compute_units, higher_fee),
{
    assert(fee * compute_units <= higher_fee * more_compute_units) by (nonlinear_arith)
        requires
            compute_units <= more_compute_units,
            fee <= higher_fee,
    ;
    vstd::arithmetic::div_mod::lemma_div_is_ordered(
        fee * compute_units,
        higher_fee * more_compute_units,
        1_000_000,
    );
}

/// A transaction costs nothing exactly when fee times compute units stays below one lamport.
pub proof fn lemma_transaction_cost_zero(compute_units: u64, fee: u64)
    ensures
        transaction_cost(compute_units, fee) == 0 <==> fee * compute_units < 1_000_000,
{
    assert(fee * compute_units >= 0) by (nonlinear_arith);
}

/// A tip that is profitable stays profitable when it grows or when the costs shrink;
/// and it is profitable exactly when the profit left after both costs is positive.
pub proof fn lemma_profitable_monotone(
    tip: u64,
    higher_tip: u64,
    claim_cost: u64,
    lower_claim_cost: u64,
    proving_cost: u64,
    lower_proving_cost: u64,
)
    requires
        tip <= higher_tip,
        lower_claim_cost <= claim_cost,
        lower_proving_cost <= proving_cost,
    ensures
        profitable(tip, claim_cost, proving_cost) ==> profitable(
            higher_tip,
            lower_claim_cost,
            lower_proving_cost,
        ),
        profitable(tip, claim_cost, proving_cost) <==> tip - (claim_cost + proving_cost) > 0,
{
}

impl Default for FeeServiceConfig {
    fn default() -> (config: Self)
        ensures
            config.cache_duration_secs == 5,
            config.default_micro_lamports_per_cu == 1_000,
            config.fallback_micro_lamports_per_cu == 5_000,
            config.percentile == 75,
    {
        FeeServiceConfig {
            cache_duration_secs: 5,
            default_micro_lamports_per_cu: 1_000,
            fallback_micro_lamports_per_cu: 5_000,
            percentile: 75,
        }
    }
}

} // verus!
