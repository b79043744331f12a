use std::sync::Arc;

use bonsol_node::estimate::{FeeEstimate, FeeServiceConfig};
use bonsol_node::percentile::percentile_fee_of;
use bonsol_node::service::{FeeService, GeneralFeeStep};
use solana_rpc_client::nonblocking::rpc_client::RpcClient;

fn local_service(config: FeeServiceConfig) -> FeeService {
    FeeService::new(
        Arc::new(RpcClient::new("http://localhost:8899".to_string())),
        config,
    )
}

fn calculate_percentile(values: &[u64], percentile: u8) -> u64 {
    percentile_fee_of(values.to_vec(), percentile).unwrap_or(0)
}

#[test]
fn test_calculate_transaction_cost() {
    let fee_service = FeeService::new(
        Arc::new(RpcClient::new("http://localhost:8899".to_string())),
        FeeServiceConfig::default(),
    );

    let fee_estimate = FeeEstimate {
        micro_lamports_per_cu: 1_500,
    };

    // (1_500 * 200_000) / 1_000_000 = 300 lamports
    let cost: u64 = fee_service.calculate_transaction_cost(200_000, &fee_estimate);
    assert_eq!(cost, 300);
}

#[test]
fn test_is_profitable() {
    let fee_service = FeeService::new(
        Arc::new(RpcClient::new("http://localhost:8899".to_string())),
        FeeServiceConfig::default(),
    );

    assert!(fee_service.is_profitable(1000, 300, 200));
    assert!(!fee_service.is_profitable(400, 300, 200));
    assert!(!fee_service.is_profitable(500, 300, 200));
}

#[test]
fn test_percentile_calculation() {
    let fees = vec![100, 200, 300, 400, 500, 600, 700, 800, 900, 1000];

    assert_eq!(calculate_percentile(&fees, 50), 500);
    assert_eq!(calculate_percentile(&fees, 75), 700);
    assert_eq!(calculate_percentile(&fees, 90), 900);
    assert_eq!(calculate_percentile(&fees, 95), 900);

    let single_fee = vec![1000];
    assert_eq!(calculate_percentile(&single_fee, 75), 1000);

    let two_fees = vec![100, 200];
    assert_eq!(calculate_percentile(&two_fees, 75), 100);

    let empty_fees: Vec<u64> = vec![];
    assert_eq!(calculate_percentile(&empty_fees, 75), 0);
}

#[test]
fn test_fee_service_config_default() {
    let config = FeeServiceConfig::default();

    assert_eq!(config.cache_duration_secs, 5);
    assert_eq!(config.default_micro_lamports_per_cu, 1_000);
    assert_eq!(config.fallback_micro_lamports_per_cu, 5_000);
    assert_eq!(config.percentile, 75);
}

#[test]
fn test_fee_service_config_custom_percentile() {
    let config = FeeServiceConfig {
        cache_duration_secs: 10,
        default_micro_lamports_per_cu: 2_000,
        fallback_micro_lamports_per_cu: 10_000,
        percentile: 90,
    };

    let fee_service = FeeService::new(
        Arc::new(RpcClient::new("http://localhost:8899".to_string())),
        config.clone(),
    );

    assert_eq!(fee_service.config().percentile, 90);
    assert_eq!(fee_service.config().cache_duration_secs, 10);
    assert_eq!(fee_service.config().default_micro_lamports_per_cu, 2_000);
    assert_eq!(fee_service.config().fallback_micro_lamports_per_cu, 10_000);
}

#[test]
fn test_edge_cases_percentile_bounds() {
    let config_0 = FeeServiceConfig {
        percentile: 0,
        ..Default::default()
    };

    let config_100 = FeeServiceConfig {
        percentile: 100,
        ..Default::default()
    };

    let fee_service_0 = FeeService::new(
        Arc::new(RpcClient::new("http://localhost:8899".to_string())),
        config_0,
    );

    let fee_service_100 = FeeService::new(
        Arc::new(RpcClient::new("http://localhost:8899".to_string())),
        config_100,
    );

    assert_eq!(fee_service_0.config().percentile, 0);
    assert_eq!(fee_service_100.config().percentile, 100);
}

#[test]
fn failed_account_request_gives_fallback_fee() {
    let service = local_service(FeeServiceConfig::default());
    assert_eq!(service.fee_for_accounts(None).micro_lamports_per_cu, 5_000);
}

#[test]
fn failed_general_request_gives_fallback_fee() {
    let service = local_service(FeeServiceConfig::default());
    assert_eq!(service.general_fee_from_recent(None).micro_lamports_per_cu, 5_000);
}

#[test]
fn empty_answers_give_default_fee() {
    let service = local_service(FeeServiceConfig::default());
    assert_eq!(service.fee_for_accounts(Some(vec![])).micro_lamports_per_cu, 1_000);
    assert_eq!(service.general_fee_from_recent(Some(vec![])).micro_lamports_per_cu, 1_000);
}

#[test]
fn zero_percentile_fee_differs_between_paths() {
    let service = local_service(FeeServiceConfig::default());
    let zeros = vec![0, 0, 0, 0];
    // accounts: a zero fee is replaced by the default
    assert_eq!(service.fee_for_accounts(Some(zeros.clone())).micro_lamports_per_cu, 1_000);
    // general: a zero fee is kept
    assert_eq!(service.general_fee_from_recent(Some(zeros)).micro_lamports_per_cu, 0);
}

#[test]
fn account_fee_takes_configured_percentile_of_unsorted_fees() {
    let service = local_service(FeeServiceConfig::default());
    let fees = vec![1000, 300, 100, 900, 500, 200, 800, 400, 700, 600];
    assert_eq!(service.fee_for_accounts(Some(fees.clone())).micro_lamports_per_cu, 700);
    assert_eq!(service.general_fee_from_recent(Some(fees)).micro_lamports_per_cu, 700);
}

#[test]
fn percentile_sorts_before_selecting() {
    assert_eq!(calculate_percentile(&[900, 100, 500], 0), 100);
    assert_eq!(calculate_percentile(&[900, 100, 500], 50), 100);
    assert_eq!(calculate_percentile(&[900, 100, 500], 67), 500);
    assert_eq!(calculate_percentile(&[900, 100, 500], 100), 900);
}

#[test]
fn percentile_extremes_are_minimum_and_maximum() {
    let fees = [42, 7, 99, 7, 13];
    assert_eq!(calculate_percentile(&fees, 0), 7);
    assert_eq!(calculate_percentile(&fees, 100), 99);
    assert_eq!(calculate_percentile(&fees, 255), 99);
}

#[test]
fn percentile_is_monotone_and_order_independent() {
    let fees = [5, 3, 8, 1, 9, 2, 7];
    let mut previous: u64 = 0;
    for p in 0..=255u8 {
        let fee: u64 = calculate_percentile(&fees, p);
        assert!(fee >= previous);
        assert!(fees.contains(&fee));
        let mut reversed = fees.to_vec();
        reversed.reverse();
        assert_eq!(calculate_percentile(&reversed, p), fee);
        previous = fee;
    }
}

#[test]
fn percentile_rank_holds_on_example() {
    let fees = [10, 20, 30, 40];
    // 75% of 4 = 3 -> rank 2 -> 30
    let fee: u64 = calculate_percentile(&fees, 75);
    assert_eq!(fee, 30);
    let at_most: usize = fees.iter().filter(|f| **f <= fee).count();
    let at_least: usize = fees.iter().filter(|f| **f >= fee).count();
    assert!(at_most >= fees.len() * 75 / 100);
    assert!(at_least * 100 >= fees.len() * 25);
}

#[test]
fn transaction_costs_from_readme() {
    let service = local_service(FeeServiceConfig::default());
    let fee = FeeEstimate { micro_lamports_per_cu: 2_500 };
    assert_eq!(service.calculate_transaction_cost(200_000, &fee), 500);
    assert_eq!(service.calculate_transaction_cost(400_000, &fee), 1_000);
    assert_eq!(service.calculate_transaction_cost(800_000, &fee), 2_000);
    let proving = FeeEstimate { micro_lamports_per_cu: 3_200 };
    assert_eq!(service.calculate_transaction_cost(400_000, &proving), 1_280);
}

#[test]
fn tiny_transaction_costs_nothing() {
    let service = local_service(FeeServiceConfig::default());
    let fee = FeeEstimate { micro_lamports_per_cu: 1 };
    assert_eq!(service.calculate_transaction_cost(999_999, &fee), 0);
    assert_eq!(service.calculate_transaction_cost(1_000_000, &fee), 1);
}

#[test]
fn profitability_scenarios_from_readme() {
    let service = local_service(FeeServiceConfig::default());
    assert!(service.is_profitable(10_000, 500, 1_000));
    assert!(service.is_profitable(50_000, 500, 1_000));
    assert!(service.is_profitable(100_000, 500, 1_000));
    assert!(!service.is_profitable(1_500, 500, 1_000));
    assert!(service.is_profitable(1_501, 500, 1_000));
}

#[test]
fn new_service_fetches_general_fee() {
    let service = local_service(FeeServiceConfig::default());
    assert!(matches!(service.begin_general_fee_estimate(0), GeneralFeeStep::FetchRecentFees));
}

#[test]
fn general_fee_is_served_from_cache_while_fresh() {
    let mut service = local_service(FeeServiceConfig::default());
    let fees = vec![100, 200, 300, 400];
    let fee = service.finish_general_fee_estimate(Some(fees), 0);
    // 75% of 4 = 3 -> rank 2 -> 300
    assert_eq!(fee.micro_lamports_per_cu, 300);
    match service.begin_general_fee_estimate(4) {
        GeneralFeeStep::Cached(cached) => assert_eq!(cached.micro_lamports_per_cu, 300),
        GeneralFeeStep::FetchRecentFees => panic!("expected a cached estimate"),
    }
    assert!(matches!(service.begin_general_fee_estimate(5), GeneralFeeStep::FetchRecentFees));
    assert!(matches!(service.begin_general_fee_estimate(3600), GeneralFeeStep::FetchRecentFees));
}

#[test]
fn zero_cache_duration_always_fetches() {
    let config = FeeServiceConfig { cache_duration_secs: 0, ..Default::default() };
    let mut service = local_service(config);
    service.finish_general_fee_estimate(None, 0);
    assert!(matches!(service.begin_general_fee_estimate(0), GeneralFeeStep::FetchRecentFees));
}

#[test]
fn refetch_replaces_cached_general_fee() {
    let mut service = local_service(FeeServiceConfig::default());
    service.finish_general_fee_estimate(None, 0);
    match service.begin_general_fee_estimate(0) {
        GeneralFeeStep::Cached(cached) => assert_eq!(cached.micro_lamports_per_cu, 5_000),
        GeneralFeeStep::FetchRecentFees => panic!("expected a cached estimate"),
    }
    service.finish_general_fee_estimate(Some(vec![]), 0);
    match service.begin_general_fee_estimate(1) {
        GeneralFeeStep::Cached(cached) => assert_eq!(cached.micro_lamports_per_cu, 1_000),
        GeneralFeeStep::FetchRecentFees => panic!("expected a cached estimate"),
    }
}

#[test]
fn cache_window_counts_from_last_fetch() {
    let mut service = local_service(FeeServiceConfig::default());
    let second: u64 = 1_000_000_000;
    assert!(matches!(service.general_fee_step_at(0), GeneralFeeStep::FetchRecentFees));
    service.finish_general_fee_estimate(Some(vec![100, 200, 300, 400]), 10 * second);
    // a hit four seconds and a bit later does not move the window
    match service.general_fee_step_at(14 * second + 999_999_999) {
        GeneralFeeStep::Cached(cached) => assert_eq!(cached.micro_lamports_per_cu, 300),
        GeneralFeeStep::FetchRecentFees => panic!("expected a cached estimate"),
    }
    // five seconds after the fetch the window has closed
    assert!(matches!(service.general_fee_step_at(15 * second), GeneralFeeStep::FetchRecentFees));
    // a new fetch at 15 s opens a new window with the new value
    let fee = service.finish_general_fee_estimate(None, 15 * second);
    assert_eq!(fee.micro_lamports_per_cu, 5_000);
    match service.general_fee_step_at(19 * second) {
        GeneralFeeStep::Cached(cached) => assert_eq!(cached.micro_lamports_per_cu, 5_000),
        GeneralFeeStep::FetchRecentFees => panic!("expected a cached estimate"),
    }
    assert!(matches!(service.general_fee_step_at(20 * second), GeneralFeeStep::FetchRecentFees));
}

#[test]
fn permuted_answers_give_same_estimates() {
    let service = local_service(FeeServiceConfig::default());
    let a = vec![5, 0, 9, 3, 3, 7];
    let b = vec![3, 7, 3, 9, 0, 5];
    assert_eq!(
        service.fee_for_accounts(Some(a.clone())).micro_lamports_per_cu,
        service.fee_for_accounts(Some(b.clone())).micro_lamports_per_cu
    );
    assert_eq!(
        service.general_fee_from_recent(Some(a)).micro_lamports_per_cu,
        service.general_fee_from_recent(Some(b)).micro_lamports_per_cu
    );
}

#[test]
fn higher_percentile_never_lowers_general_fee() {
    let fees = vec![40, 10, 30, 20, 50];
    let mut previous: u64 = 0;
    for p in [0u8, 25, 50, 75, 90, 100] {
        let config = FeeServiceConfig { percentile: p, ..Default::default() };
        let fee: u64 = local_service(config)
            .general_fee_from_recent(Some(fees.clone()))
            .micro_lamports_per_cu;
        assert!(fee >= previous);
        previous = fee;
    }
}
