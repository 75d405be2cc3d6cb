//! The program escrow end to end: ledger, nonce and circuit breaker together.

use program_escrow::{
    Address, BreachMetric, ContractEvent, EscrowError, EscrowLedger, NonceRegistry, PayoutRecord,
    ProgramData, ProgramEscrowContract, ThresholdBreach, ThresholdConfig, ThresholdMonitor,
    WindowMetrics,
};

const NOW: u64 = 1_700_000_000;

fn address(n: u128) -> Address {
    Address::account(0, n)
}

fn setup() -> (ProgramEscrowContract, Address) {
    let mut contract = ProgramEscrowContract::new();
    let admin = address(1);
    contract.init_program(String::from("hackathon-2024-q1"), admin).unwrap();
    (contract, admin)
}

fn small_config() -> ThresholdConfig {
    ThresholdConfig {
        failure_rate_threshold: 3,
        outflow_volume_threshold: 1_000,
        max_single_payout: 400,
        time_window_secs: 200,
        cooldown_period_secs: 300,
        cooldown_multiplier: 2,
    }
}

#[test]
fn payout_scenario_with_replay() {
    let (mut contract, signer_a) = setup();
    let r = address(2);
    contract.lock_program_funds(100_000_000_000).unwrap();

    let data = contract.single_payout(r, 10_000_000_000, 0, NOW).unwrap();

    assert_eq!(data.remaining_balance, 90_000_000_000);
    assert_eq!(data.total_funds, 100_000_000_000);
    assert_eq!(contract.get_remaining_balance(), Ok(90_000_000_000));
    assert_eq!(contract.get_nonce(signer_a), 1);
    assert_eq!(
        contract.single_payout(r, 10_000_000_000, 0, NOW),
        Err(EscrowError::InvalidNonce { expected: 1, got: 0 })
    );
    assert_eq!(contract.get_remaining_balance(), Ok(90_000_000_000));
}

#[test]
fn init_creates_a_zero_balance_ledger_once() {
    let mut contract = ProgramEscrowContract::new();
    assert_eq!(contract.get_program_info(), Err(EscrowError::NotInitialized));
    assert_eq!(contract.get_remaining_balance(), Err(EscrowError::NotInitialized));

    let created = contract.init_program(String::from("p-1"), address(1));

    let expected = ProgramData {
        program_id: String::from("p-1"),
        total_funds: 0,
        remaining_balance: 0,
        authorized_payout_key: address(1),
        payout_history: vec![],
    };
    assert_eq!(created, Ok(expected.clone()));
    assert_eq!(contract.get_program_info(), Ok(expected.clone()));
    assert_eq!(
        contract.init_program(String::from("p-2"), address(5)),
        Err(EscrowError::AlreadyInitialized)
    );
    assert_eq!(contract.get_program_info(), Ok(expected));
}

#[test]
fn calls_before_init_fail_and_change_nothing() {
    let mut contract = ProgramEscrowContract::new();

    assert_eq!(contract.lock_program_funds(10), Err(EscrowError::NotInitialized));
    assert_eq!(contract.single_payout(address(2), 10, 0, NOW), Err(EscrowError::NotInitialized));
    assert_eq!(
        contract.batch_payout(vec![address(2)], vec![10], 0, NOW),
        Err(EscrowError::NotInitialized)
    );
    // The amount is looked at before anything else.
    assert_eq!(contract.lock_program_funds(0), Err(EscrowError::InvalidAmount));

    assert_eq!(contract.get_nonce(address(1)), 0);
    assert_eq!(contract.get_window_metrics(), WindowMetrics::new(0));
    assert!(contract.take_events().is_empty());
}

#[test]
fn locking_touches_no_nonce() {
    let (mut contract, admin) = setup();

    let data = contract.lock_program_funds(100).unwrap();
    assert_eq!((data.total_funds, data.remaining_balance), (100, 100));
    let data = contract.lock_program_funds(50).unwrap();
    assert_eq!((data.total_funds, data.remaining_balance), (150, 150));
    assert_eq!(contract.lock_program_funds(0), Err(EscrowError::InvalidAmount));
    assert_eq!(contract.lock_program_funds(-50), Err(EscrowError::InvalidAmount));
    assert_eq!(contract.lock_program_funds(i128::MAX), Err(EscrowError::InvalidAmount));

    assert_eq!(contract.get_remaining_balance(), Ok(150));
    assert_eq!(contract.get_nonce(admin), 0);
    assert_eq!(contract.get_window_metrics(), WindowMetrics::new(0));
}

#[test]
fn balance_stays_between_zero_and_total() {
    let (mut contract, _admin) = setup();
    let r = address(2);
    let mut nonce = 0u64;
    let steps: [(bool, i128); 10] = [
        (true, 100),
        (false, 30),
        (false, 80),
        (false, 70),
        (true, 5),
        (false, 6),
        (false, 5),
        (false, 0),
        (true, 1_000),
        (false, 1_000),
    ];
    for (lock, amount) in steps {
        if lock {
            let _ = contract.lock_program_funds(amount);
        } else {
            let _ = contract.single_payout(r, amount, nonce, NOW);
            nonce += 1;
        }
        let info = contract.get_program_info().unwrap();
        assert!(0 <= info.remaining_balance);
        assert!(info.remaining_balance <= info.total_funds);
        let paid: i128 = info.payout_history.iter().map(|p| p.amount).sum();
        assert_eq!(info.total_funds - info.remaining_balance, paid);
    }
    let info = contract.get_program_info().unwrap();
    assert_eq!(info.total_funds, 1_105);
    assert_eq!(info.remaining_balance, 0);
    assert_eq!(info.payout_history.len(), 4);
}

#[test]
fn batch_applies_every_line_item_or_none() {
    let (mut contract, admin) = setup();
    contract.lock_program_funds(100).unwrap();
    let recipients = vec![address(2), address(3), address(4)];

    // The sum is one too many: nothing is booked, the nonce is used up once.
    assert_eq!(
        contract.batch_payout(recipients.clone(), vec![50, 30, 21], 0, NOW),
        Err(EscrowError::InsufficientBalance)
    );
    let info = contract.get_program_info().unwrap();
    assert_eq!(info.remaining_balance, 100);
    assert!(info.payout_history.is_empty());
    assert_eq!(contract.get_nonce(admin), 1);
    assert_eq!(contract.get_window_metrics().failure_count, 1);
    assert_eq!(contract.get_window_metrics().success_count, 0);

    // The sum fits: everything is booked, the nonce moves once.
    let data = contract.batch_payout(recipients, vec![50, 30, 20], 1, NOW).unwrap();
    assert_eq!(data.remaining_balance, 0);
    assert_eq!(
        data.payout_history,
        vec![
            PayoutRecord { recipient: address(2), amount: 50, timestamp: NOW },
            PayoutRecord { recipient: address(3), amount: 30, timestamp: NOW },
            PayoutRecord { recipient: address(4), amount: 20, timestamp: NOW },
        ]
    );
    assert_eq!(contract.get_nonce(admin), 2);
    let metrics = contract.get_window_metrics();
    assert_eq!(metrics.success_count, 3);
    assert_eq!(metrics.total_outflow, 100);
    assert_eq!(metrics.max_single_outflow, 50);
}

#[test]
fn batch_with_bad_shape_is_refused() {
    let (mut contract, admin) = setup();
    contract.lock_program_funds(100).unwrap();

    assert_eq!(
        contract.batch_payout(vec![address(2), address(3)], vec![10], 0, NOW),
        Err(EscrowError::InvalidAmount)
    );
    assert_eq!(
        contract.batch_payout(vec![address(2), address(3)], vec![10, 0], 1, NOW),
        Err(EscrowError::InvalidAmount)
    );
    assert_eq!(
        contract.batch_payout(vec![address(2), address(3)], vec![10, -4], 2, NOW),
        Err(EscrowError::InvalidAmount)
    );

    assert_eq!(contract.get_remaining_balance(), Ok(100));
    assert_eq!(contract.get_nonce(admin), 3);
    assert_eq!(contract.get_window_metrics().failure_count, 3);
}

#[test]
fn payout_above_the_cap_is_rejected_and_recorded() {
    let (mut contract, admin) = setup();
    contract.configure_thresholds(ThresholdConfig {
        max_single_payout: 500_000_0000000,
        ..ThresholdConfig::default()
    })
    .unwrap();
    contract.lock_program_funds(10_000_000_0000000).unwrap();
    contract.take_events();

    let refused = contract.single_payout(address(2), 600_000_0000000, 0, NOW);

    assert_eq!(
        refused,
        Err(EscrowError::ThresholdBreached {
            metric: BreachMetric::SinglePayout,
            threshold: 500_000_0000000,
            actual: 600_000_0000000,
        })
    );
    // The payout never executed ...
    let info = contract.get_program_info().unwrap();
    assert_eq!(info.remaining_balance, 10_000_000_0000000);
    assert!(info.payout_history.is_empty());
    // ... but the breach is on record and the breaker is open.
    let state = contract.get_monitor_state();
    assert_eq!(state.current.breach_count, 1);
    assert_eq!(state.current.success_count, 0);
    assert_eq!(state.current.failure_count, 0);
    assert_eq!(state.last_cooldown_end, NOW + 300);
    assert_eq!(
        contract.take_events(),
        vec![ContractEvent::Breach(ThresholdBreach {
            metric_type: BreachMetric::SinglePayout,
            threshold_value: 500_000_0000000,
            actual_value: 600_000_0000000,
            timestamp: NOW,
            breach_count: 1,
        })]
    );
    assert_eq!(contract.get_nonce(admin), 1);
    assert_eq!(
        contract.single_payout(address(2), 1, 1, NOW + 1),
        Err(EscrowError::CooldownActive { until: NOW + 300 })
    );
}

#[test]
fn four_failures_open_the_breaker_until_the_cooldown_has_passed() {
    let (mut contract, admin) = setup();
    contract.configure_thresholds(small_config()).unwrap();
    contract.lock_program_funds(100).unwrap();
    let r = address(2);

    for nonce in 0..3 {
        assert_eq!(
            contract.single_payout(r, 101, nonce, NOW),
            Err(EscrowError::InsufficientBalance)
        );
        assert_eq!(contract.get_monitor_state().last_cooldown_end, 0);
    }
    assert_eq!(contract.single_payout(r, 101, 3, NOW), Err(EscrowError::InsufficientBalance));

    let state = contract.get_monitor_state();
    assert_eq!(state.current.failure_count, 4);
    assert_eq!(state.current.breach_count, 1);
    assert_eq!(state.last_cooldown_end, NOW + 300);

    // A fifth call before that time is refused, though it could be paid.
    assert_eq!(
        contract.single_payout(r, 10, 4, NOW + 299),
        Err(EscrowError::CooldownActive { until: NOW + 300 })
    );
    assert_eq!(contract.get_remaining_balance(), Ok(100));

    // After expiry it is admitted like any other call.
    let data = contract.single_payout(r, 10, 5, NOW + 300).unwrap();
    assert_eq!(data.remaining_balance, 90);
    assert_eq!(contract.get_nonce(admin), 6);
    // The refused call had already rolled the window, which was over.
    let state = contract.get_monitor_state();
    assert_eq!(state.current.window_start, NOW + 299);
    assert_eq!(state.current.success_count, 1);
    assert_eq!(state.current.failure_count, 0);
    assert_eq!(state.current.breach_count, 0);
    assert_eq!(state.previous.failure_count, 4);
    assert_eq!(state.last_cooldown_end, NOW + 300);
}

#[test]
fn window_that_stays_over_its_bound_trips_again() {
    let (mut contract, _admin) = setup();
    contract
        .configure_thresholds(ThresholdConfig { time_window_secs: 3_600, ..small_config() })
        .unwrap();
    contract.lock_program_funds(100).unwrap();
    let r = address(2);
    for nonce in 0..4 {
        let _ = contract.single_payout(r, 101, nonce, NOW);
    }
    assert_eq!(contract.get_monitor_state().last_cooldown_end, NOW + 300);

    // Still the same window, still four failures in it: the call is
    // admitted and paid, and the evaluation after it trips the breaker
    // for twice as long.
    let data = contract.single_payout(r, 10, 4, NOW + 300).unwrap();

    assert_eq!(data.remaining_balance, 90);
    let state = contract.get_monitor_state();
    assert_eq!(state.current.breach_count, 2);
    assert_eq!(state.last_cooldown_end, NOW + 300 + 600);
    assert_eq!(state.cooldown_multiplier_applied, 2);
}

#[test]
fn breaches_in_two_consecutive_windows() {
    let (mut contract, _admin) = setup();
    contract.configure_thresholds(small_config()).unwrap();
    contract.lock_program_funds(10_000).unwrap();
    let r = address(2);

    assert!(contract.single_payout(r, 401, 0, NOW).is_err());
    let first = contract.get_monitor_state().last_cooldown_end - NOW;
    assert!(contract.single_payout(r, 401, 1, NOW + 300).is_err());
    let second = contract.get_monitor_state().last_cooldown_end - (NOW + 300);

    assert_eq!(first, 300);
    assert_eq!(second, 300 * 2);
    assert!(second > first);
    let state = contract.get_monitor_state();
    assert_eq!(state.previous.breach_count, 1);
    assert_eq!(state.current.breach_count, 1);
}

#[test]
fn single_batch_can_trip_the_outflow_bound() {
    let (mut contract, _admin) = setup();
    contract.configure_thresholds(small_config()).unwrap();
    contract.lock_program_funds(10_000).unwrap();
    contract.take_events();

    let data = contract
        .batch_payout(vec![address(2), address(3), address(4)], vec![400, 400, 400], 0, NOW)
        .unwrap();

    assert_eq!(data.remaining_balance, 8_800);
    assert_eq!(
        contract.take_events(),
        vec![
            ContractEvent::Breach(ThresholdBreach {
                metric_type: BreachMetric::OutflowVolume,
                threshold_value: 1_000,
                actual_value: 1_200,
                timestamp: NOW,
                breach_count: 1,
            }),
            ContractEvent::BatchPayout {
                program_id: String::from("hackathon-2024-q1"),
                line_items: 3,
                total_amount: 1_200,
                remaining_balance: 8_800,
            },
        ]
    );
    assert_eq!(
        contract.single_payout(address(2), 1, 1, NOW + 10),
        Err(EscrowError::CooldownActive { until: NOW + 300 })
    );
}

#[test]
fn batch_with_a_line_item_above_the_cap_is_refused_as_a_whole() {
    let (mut contract, admin) = setup();
    contract.configure_thresholds(small_config()).unwrap();
    contract.lock_program_funds(10_000).unwrap();

    assert_eq!(
        contract.batch_payout(vec![address(2), address(3)], vec![10, 401], 0, NOW),
        Err(EscrowError::ThresholdBreached {
            metric: BreachMetric::SinglePayout,
            threshold: 400,
            actual: 401,
        })
    );

    assert_eq!(contract.get_remaining_balance(), Ok(10_000));
    assert_eq!(contract.get_nonce(admin), 1);
    assert_eq!(contract.get_monitor_state().current.breach_count, 1);
}

#[test]
fn events_follow_the_calls() {
    let (mut contract, admin) = setup();
    contract.lock_program_funds(100).unwrap();
    contract.single_payout(address(2), 40, 0, NOW).unwrap();
    // A refused call reports nothing.
    let _ = contract.single_payout(address(2), 40, 0, NOW);
    let _ = contract.lock_program_funds(0);

    let id = String::from("hackathon-2024-q1");
    assert_eq!(
        contract.take_events(),
        vec![
            ContractEvent::ProgramInitialized {
                program_id: id.clone(),
                authorized_payout_key: admin,
                total_funds: 0,
            },
            ContractEvent::FundsLocked {
                program_id: id.clone(),
                amount: 100,
                remaining_balance: 100
            },
            ContractEvent::Payout {
                program_id: id,
                recipient: address(2),
                amount: 40,
                remaining_balance: 60,
            },
        ]
    );
    assert!(contract.take_events().is_empty());
}

#[test]
fn invalid_thresholds_are_rejected_as_a_whole() {
    let (mut contract, _admin) = setup();
    let before = contract.get_monitor_state();

    let done = contract.configure_thresholds(ThresholdConfig {
        max_single_payout: 1,
        cooldown_period_secs: 10,
        ..ThresholdConfig::default()
    });

    assert_eq!(
        done,
        Err(EscrowError::InvalidThresholdConfig {
            reason: "Cooldown period must be between 60 and 3600 seconds"
        })
    );
    assert_eq!(contract.get_monitor_state(), before);
    assert_eq!(contract.get_monitor_state().config, ThresholdConfig::default());
}

#[test]
fn restored_escrow_continues() {
    let mut ledger = EscrowLedger::new(String::from("p"), address(1));
    ledger.lock_funds(100).unwrap();
    let mut nonces = NonceRegistry::new();
    assert!(nonces.load(address(1), 7));
    let monitor = ThresholdMonitor::new(small_config()).unwrap();

    let mut contract = ProgramEscrowContract::restore(Some(ledger), nonces, monitor);

    assert_eq!(contract.get_nonce(address(1)), 7);
    assert_eq!(
        contract.single_payout(address(2), 10, 0, NOW),
        Err(EscrowError::InvalidNonce { expected: 7, got: 0 })
    );
    assert_eq!(contract.single_payout(address(2), 10, 7, NOW).map(|d| d.remaining_balance), Ok(90));
    assert_eq!(contract.get_monitor_state().config, small_config());
}
