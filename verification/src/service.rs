//! The fee service: its configuration, the RPC client it asks, and the cached general
//! estimate, with the decisions it takes around each RPC request.
use std::sync::Arc;

use solana_rpc_client::nonblocking::rpc_client::RpcClient;
use vstd::prelude::*;

use crate::estimate::{
    account_fee_rule, general_fee_rule, profitable, samples_fit, samples_of, transaction_cost,
    FeeEstimate, FeeServiceConfig,
};
use crate::percentile::{percentile_fee, percentile_fee_of};

verus! {

/// The asynchronous Solana RPC client; the service only holds it for the caller that
/// performs the requests.
#[verifier::external_type_specification]
#[verifier::external_body]
pub struct ExRpcClient(RpcClient);

/// What serving a general fee estimate takes next.
#[derive(Debug, Clone, Copy)]
pub enum GeneralFeeStep {
    /// The cached estimate is still fresh: answer with it.
    Cached(FeeEstimate),
    /// Ask the RPC for recent prioritization fees and hand the answer to
    /// `FeeService::finish_general_fee_estimate`.
    FetchRecentFees,
}

/// The step that a general estimate starts with, `elapsed_secs` after the cache was last
/// filled: the cached estimate while it is younger than the cache duration, a fetch
/// otherwise or when nothing is cached.
pub open spec fn general_fee_step(
    config: FeeServiceConfig,
    cached: Option<FeeEstimate>,
    elapsed_secs: u64,
) -> GeneralFeeStep {
    if elapsed_secs < config.cache_duration_secs {
        match cached {
            Some(fee) => GeneralFeeStep::Cached(fee),
            None => GeneralFeeStep::FetchRecentFees,
        }
    } else {
        GeneralFeeStep::FetchRecentFees
    }
}

/// Whole seconds from `earlier_nanos` to `now_nanos` on a monotonic clock counted in
/// nanoseconds; zero if the clock reads earlier than `earlier_nanos`.
pub open spec fn elapsed_secs_between(earlier_nanos: u64, now_nanos: u64) -> u64 {
    if now_nanos >= earlier_nanos {
        ((now_nanos - earlier_nanos) / 1_000_000_000) as u64
    } else {
        0
    }
}

/// The cache window counts from the last fetch: once a fetch at clock reading `fetched_at`
/// has stored `estimate`, a general estimate at a later reading `now` is served that
/// estimate exactly while fewer than `cache_duration_secs` whole seconds separate `now`
/// from `fetched_at`, and fetches anew from then on.
pub proof fn lemma_cache_window_counts_from_fetch(
    config: FeeServiceConfig,
    estimate: FeeEstimate,
    fetched_at: u64,
    now: u64,
)
    requires
        fetched_at <= now,
    ensures
        (now - fetched_at) / 1_000_000_000 < config.cache_duration_secs ==> general_fee_step(
            config,
            Some(estimate),
            elapsed_secs_between(fetched_at, now),
        ) == GeneralFeeStep::Cached(estimate),
        (now - fetched_at) / 1_000_000_000 >= config.cache_duration_secs ==> general_fee_step(
            config,
            Some(estimate),
            elapsed_secs_between(fetched_at, now),
        ) == GeneralFeeStep::FetchRecentFees,
{
}

/// A service with nothing cached fetches, however little time has passed.
pub proof fn lemma_empty_cache_fetches(config: FeeServiceConfig, elapsed_secs: u64)
    ensures
        general_fee_step(config, None, elapsed_secs) == GeneralFeeStep::FetchRecentFees,
{
}

/// The estimate a fetch stored is served back, unchanged, exactly while it is younger
/// than the cache duration; with a cache duration of zero every estimate fetches.
pub proof fn lemma_cache_serves_stored_estimate(
    config: FeeServiceConfig,
    stored: FeeEstimate,
    elapsed_secs: u64,
)
    ensures
        elapsed_secs < config.cache_duration_secs ==> general_fee_step(
            config,
            Some(stored),
            elapsed_secs,
        ) == GeneralFeeStep::Cached(stored),
        elapsed_secs >= config.cache_duration_secs ==> general_fee_step(
            config,
            Some(stored),
            elapsed_secs,
        ) == GeneralFeeStep::FetchRecentFees,
        config.cache_duration_secs == 0 ==> general_fee_step(config, Some(stored), elapsed_secs)
            == GeneralFeeStep::FetchRecentFees,
{
}

/// Estimates priority fees for claim and proving transactions.
pub struct FeeService {
    rpc_client: Arc<RpcClient>,
    config: FeeServiceConfig,
    cached_general_fee: Option<FeeEstimate>,
    last_general_fee_update_nanos: u64,
}

impl FeeService {
    /// The RPC client the service was built with.
    pub closed spec fn client(&self) -> Arc<RpcClient> {
        self.rpc_client
    }

    /// The configuration the service was built with.
    pub closed spec fn settings(&self) -> FeeServiceConfig {
        self.config
    }

    /// The general estimate last computed, if any.
    pub closed spec fn cached_general(&self) -> Option<FeeEstimate> {
        self.cached_general_fee
    }

    /// When the general estimate was last fetched, in nanoseconds on the caller's
    /// monotonic clock, whose origin is the creation of the service.
    pub closed spec fn last_general_fetch(&self) -> u64 {
        self.last_general_fee_update_nanos
    }

    /// A service with the given client and configuration and nothing cached yet.
    pub fn new(rpc_client: Arc<RpcClient>, config: FeeServiceConfig) -> (service: Self)
        ensures
            service.client() == rpc_client,
            service.settings() == config,
            service.cached_general() is None,
            service.last_general_fetch() == 0,
    {
        FeeService { rpc_client, config, cached_general_fee: None, last_general_fee_update_nanos: 0 }
    }

    /// The RPC client to send the fee requests to.
    pub fn rpc_client(&self) -> (client: &Arc<RpcClient>)
        ensures
            *client == self.client(),
    {
        &self.rpc_client
    }

    /// The configuration the service was built with.
    pub fn config(&self) -> (config: &FeeServiceConfig)
        ensures
            *config == self.settings(),
    {
        &self.config
    }

    /// The cost in lamports of `compute_units` at the given fee.
    pub fn calculate_transaction_cost(&self, compute_units: u64, fee_estimate: &FeeEstimate) -> (cost: u64)
        requires
            fee_estimate.micro_lamports_per_cu * compute_units <= u64::MAX,
        ensures
            cost == transaction_cost(compute_units, fee_estimate.micro_lamports_per_cu),
            cost * 1_000_000 <= fee_estimate.micro_lamports_per_cu * compute_units,
            fee_estimate.micro_lamports_per_cu * compute_units < (cost + 1) * 1_000_000,
    {
        (fee_estimate.micro_lamports_per_cu * compute_units) / 1_000_000
    }

    /// Checks if a transaction is profitable given costs and tip.
    pub fn is_profitable(&self, tip_lamports: u64, claim_cost: u64, proving_cost: u64) -> (worth: bool)
        requires
            claim_cost + proving_cost <= u64::MAX,
        ensures
            worth == profitable(tip_lamports, claim_cost, proving_cost),
            worth == (tip_lamports > claim_cost + proving_cost),
    {
        let total_cost = claim_cost + proving_cost;
        tip_lamports > total_cost
    }

    /// The fee estimate for specific accounts, from the RPC answer to a request for their
    /// recent prioritization fees (`None` when the request failed).
    pub fn fee_for_accounts(&self, rpc_fees: Option<Vec<u64>>) -> (estimate: FeeEstimate)
        requires
            samples_fit(self.settings(), samples_of(rpc_fees)),
        ensures
            estimate.micro_lamports_per_cu == account_fee_rule(self.settings(), samples_of(rpc_fees)),
            match rpc_fees {
                None => estimate.micro_lamports_per_cu
                    == self.settings().fallback_micro_lamports_per_cu,
                Some(fees) => if fees.len() == 0 || percentile_fee(
                    fees@,
                    self.settings().percentile,
                ) == 0 {
                    estimate.micro_lamports_per_cu == self.settings().default_micro_lamports_per_cu
                } else {
                    estimate.micro_lamports_per_cu == percentile_fee(
                        fees@,
                        self.settings().percentile,
                    )
                },
            },
    {
        match rpc_fees {
            Some(fee_values) => {
                if fee_values.len() == 0 {
                    return FeeEstimate { micro_lamports_per_cu: self.config.default_micro_lamports_per_cu };
                }
                let percentile_fee = match percentile_fee_of(fee_values, self.config.percentile) {
                    Some(fee) => fee,
                    None => self.config.default_micro_lamports_per_cu,
                };
                let final_fee = if percentile_fee == 0 {
                    self.config.default_micro_lamports_per_cu
                } else {
                    percentile_fee
                };
                FeeEstimate { micro_lamports_per_cu: final_fee }
            },
            None => FeeEstimate { micro_lamports_per_cu: self.config.fallback_micro_lamports_per_cu },
        }
    }

    /// The general fee estimate, from the RPC answer to a request for recent
    /// prioritization fees with no accounts (`None` when the request failed).
    pub fn general_fee_from_recent(&self, rpc_fees: Option<Vec<u64>>) -> (estimate: FeeEstimate)
        requires
            samples_fit(self.settings(), samples_of(rpc_fees)),
        ensures
            estimate.micro_lamports_per_cu == general_fee_rule(self.settings(), samples_of(rpc_fees)),
            match rpc_fees {
                None => estimate.micro_lamports_per_cu
                    == self.settings().fallback_micro_lamports_per_cu,
                Some(fees) => if fees.len() == 0 {
                    estimate.micro_lamports_per_cu == self.settings().default_micro_lamports_per_cu
                } else {
                    estimate.micro_lamports_per_cu == percentile_fee(
                        fees@,
                        self.settings().percentile,
                    )
                },
            },
    {
        match rpc_fees {
            Some(fee_values) => {
                if fee_values.len() == 0 {
                    return FeeEstimate { micro_lamports_per_cu: self.config.default_micro_lamports_per_cu };
                }
                let percentile_fee = match percentile_fee_of(fee_values, self.config.percentile) {
                    Some(fee) => fee,
                    None => self.config.default_micro_lamports_per_cu,
                };
                FeeEstimate { micro_lamports_per_cu: percentile_fee }
            },
            None => FeeEstimate { micro_lamports_per_cu: self.config.fallback_micro_lamports_per_cu },
        }
    }

    /// The first step of a general estimate, `elapsed_secs` after the cache was last
    /// filled.
    pub fn begin_general_fee_estimate(&self, elapsed_secs: u64) -> (step: GeneralFeeStep)
        ensures
            step == general_fee_step(self.settings(), self.cached_general(), elapsed_secs),
            match step {
                GeneralFeeStep::Cached(fee) => elapsed_secs < self.settings().cache_duration_secs
                    && self.cached_general() == Some(fee),
                GeneralFeeStep::FetchRecentFees => elapsed_secs
                    >= self.settings().cache_duration_secs || self.cached_general() is None,
            },
    {
        if elapsed_secs < self.config.cache_duration_secs {
            match self.cached_general_fee {
                Some(cached_fee) => GeneralFeeStep::Cached(cached_fee),
                None => GeneralFeeStep::FetchRecentFees,
            }
        } else {
            GeneralFeeStep::FetchRecentFees
        }
    }

    /// The first step of a general estimate when the clock reads `now_nanos`: the
    /// elapsed time counts from the last fetch. A cache hit changes nothing in the service.
    pub fn general_fee_step_at(&self, now_nanos: u64) -> (step: GeneralFeeStep)
        ensures
            step == general_fee_step(
                self.settings(),
                self.cached_general(),
                elapsed_secs_between(self.last_general_fetch(), now_nanos),
            ),
    {
        let elapsed_secs = if now_nanos >= self.last_general_fee_update_nanos {
            (now_nanos - self.last_general_fee_update_nanos) / 1_000_000_000
        } else {
            0
        };
        self.begin_general_fee_estimate(elapsed_secs)
    }

    /// The last step of a general estimate that had to fetch, when the clock reads
    /// `now_nanos`: computes the estimate from the RPC answer (`None` when the request
    /// failed), caches it and records the fetch time.
    pub fn finish_general_fee_estimate(&mut self, rpc_fees: Option<Vec<u64>>, now_nanos: u64) -> (estimate: FeeEstimate)
        requires
            samples_fit(old(self).settings(), samples_of(rpc_fees)),
        ensures
            estimate.micro_lamports_per_cu == general_fee_rule(old(self).settings(), samples_of(rpc_fees)),
            match rpc_fees {
                None => estimate.micro_lamports_per_cu
                    == old(self).settings().fallback_micro_lamports_per_cu,
                Some(fees) => if fees.len() == 0 {
                    estimate.micro_lamports_per_cu
                        == old(self).settings().default_micro_lamports_per_cu
                } else {
                    estimate.micro_lamports_per_cu == percentile_fee(
                        fees@,
                        old(self).settings().percentile,
                    )
                },
            },
            final(self).cached_general() == Some(estimate),
            final(self).last_general_fetch() == now_nanos,
            final(self).settings() == old(self).settings(),
            final(self).client() == old(self).client(),
    {
        let fee_estimate = self.general_fee_from_recent(rpc_fees);
        self.cached_general_fee = Some(fee_estimate);
        self.last_general_fee_update_nanos = now_nanos;
        fee_estimate
    }
}

} // verus!
