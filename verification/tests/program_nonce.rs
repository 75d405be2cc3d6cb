//! Replay protection of the program escrow, seen through its public calls.

use program_escrow::{Address, EscrowError, ProgramData, ProgramEscrowContract};

const NOW: u64 = 1_700_000_000;

/// What an embedding program would abort with when a call is refused.
fn abort_message(error: &EscrowError) -> String {
    match error {
        EscrowError::AlreadyInitialized => format!("Program already initialized"),
        EscrowError::NotInitialized => format!("Program not initialized"),
        EscrowError::InvalidAmount => format!("Amount must be greater than zero"),
        EscrowError::InsufficientBalance => format!("Insufficient balance"),
        EscrowError::InvalidNonce { expected, got } => {
            format!("Invalid nonce: expected {}, got {}", expected, got)
        }
        other => format!("{:?}", other),
    }
}

fn must(outcome: Result<ProgramData, EscrowError>) -> ProgramData {
    match outcome {
        Ok(data) => data,
        Err(error) => panic!("{}", abort_message(&error)),
    }
}

fn address(n: u128) -> Address {
    Address::account(0, n)
}

fn setup_program() -> (ProgramEscrowContract, Address) {
    let mut contract = ProgramEscrowContract::new();
    let admin = address(1);
    must(contract.init_program(String::from("hackathon-2024-q1"), admin));
    (contract, admin)
}

#[test]
fn test_nonce_starts_at_zero() {
    let (contract, admin) = setup_program();

    assert_eq!(contract.get_nonce(admin), 0);
}

#[test]
fn test_nonce_increments_on_single_payout() {
    let (mut contract, admin) = setup_program();
    let recipient = address(2);

    must(contract.lock_program_funds(100_000_000_000));
    assert_eq!(contract.get_nonce(admin), 0);

    must(contract.single_payout(recipient, 10_000_000_000, 0, NOW));
    assert_eq!(contract.get_nonce(admin), 1);

    must(contract.single_payout(recipient, 10_000_000_000, 1, NOW));
    assert_eq!(contract.get_nonce(admin), 2);
}

#[test]
fn test_nonce_increments_on_batch_payout() {
    let (mut contract, admin) = setup_program();
    let recipient1 = address(2);
    let recipient2 = address(3);

    must(contract.lock_program_funds(100_000_000_000));

    let recipients = vec![recipient1, recipient2];
    let amounts = vec![10_000_000_000, 20_000_000_000];

    must(contract.batch_payout(recipients, amounts, 0, NOW));
    assert_eq!(contract.get_nonce(admin), 1);
}

#[test]
#[should_panic(expected = "Invalid nonce")]
fn test_replay_attack_single_payout() {
    let (mut contract, _admin) = setup_program();
    let recipient = address(2);

    must(contract.lock_program_funds(100_000_000_000));

    must(contract.single_payout(recipient, 10_000_000_000, 0, NOW));
    must(contract.single_payout(recipient, 10_000_000_000, 0, NOW));
}

#[test]
#[should_panic(expected = "Invalid nonce")]
fn test_replay_attack_batch_payout() {
    let (mut contract, _admin) = setup_program();
    let recipient1 = address(2);
    let recipient2 = address(3);

    must(contract.lock_program_funds(100_000_000_000));

    let recipients = vec![recipient1, recipient2];
    let amounts = vec![10_000_000_000, 20_000_000_000];

    must(contract.batch_payout(recipients.clone(), amounts.clone(), 0, NOW));
    must(contract.batch_payout(recipients, amounts, 0, NOW));
}

#[test]
#[should_panic(expected = "Invalid nonce")]
fn test_cross_entrypoint_replay_single_then_batch() {
    let (mut contract, admin) = setup_program();
    let recipient1 = address(2);
    let recipient2 = address(3);

    must(contract.lock_program_funds(100_000_000_000));

    must(contract.single_payout(recipient1, 10_000_000_000, 0, NOW));
    assert_eq!(contract.get_nonce(admin), 1);

    let recipients = vec![recipient1, recipient2];
    let amounts = vec![10_000_000_000, 20_000_000_000];

    must(contract.batch_payout(recipients, amounts, 0, NOW));
}

#[test]
#[should_panic(expected = "Invalid nonce")]
fn test_cross_entrypoint_replay_batch_then_single() {
    let (mut contract, admin) = setup_program();
    let recipient1 = address(2);
    let recipient2 = address(3);

    must(contract.lock_program_funds(100_000_000_000));

    let recipients = vec![recipient1, recipient2];
    let amounts = vec![10_000_000_000, 20_000_000_000];
    must(contract.batch_payout(recipients, amounts, 0, NOW));
    assert_eq!(contract.get_nonce(admin), 1);

    must(contract.single_payout(recipient1, 10_000_000_000, 0, NOW));
}

#[test]
#[should_panic(expected = "Invalid nonce")]
fn test_out_of_order_nonce() {
    let (mut contract, _admin) = setup_program();
    let recipient = address(2);

    must(contract.lock_program_funds(100_000_000_000));
    must(contract.single_payout(recipient, 10_000_000_000, 5, NOW));
}

#[test]
fn test_nonces_are_per_signer() {
    let (contract, _admin) = setup_program();
    let signer_a = address(10);
    let signer_b = address(11);

    assert_eq!(contract.get_nonce(signer_a), 0);
    assert_eq!(contract.get_nonce(signer_b), 0);
}

#[test]
fn replayed_single_payout_reports_expected_and_supplied_nonce() {
    let (mut contract, admin) = setup_program();
    let recipient = address(2);
    must(contract.lock_program_funds(100_000_000_000));
    must(contract.single_payout(recipient, 10_000_000_000, 0, NOW));

    let replay = contract.single_payout(recipient, 10_000_000_000, 0, NOW);

    assert_eq!(replay, Err(EscrowError::InvalidNonce { expected: 1, got: 0 }));
    assert_eq!(contract.get_nonce(admin), 1);
    assert_eq!(contract.get_remaining_balance(), Ok(90_000_000_000));
}

#[test]
fn replay_is_rejected_before_the_balance_is_looked_at() {
    let (mut contract, admin) = setup_program();
    let recipient = address(2);
    must(contract.lock_program_funds(100));
    must(contract.single_payout(recipient, 10, 0, NOW));
    let metrics = contract.get_window_metrics();

    // The replayed call asks for more than is left and for a non-positive
    // amount; both would fail on their own, but the nonce decides first.
    assert_eq!(
        contract.single_payout(recipient, 1_000, 0, NOW),
        Err(EscrowError::InvalidNonce { expected: 1, got: 0 })
    );
    assert_eq!(
        contract.single_payout(recipient, -5, 0, NOW),
        Err(EscrowError::InvalidNonce { expected: 1, got: 0 })
    );
    assert_eq!(
        contract.batch_payout(vec![recipient], vec![1_000], 0, NOW),
        Err(EscrowError::InvalidNonce { expected: 1, got: 0 })
    );

    assert_eq!(contract.get_nonce(admin), 1);
    assert_eq!(contract.get_window_metrics(), metrics);
    assert_eq!(contract.get_remaining_balance(), Ok(90));
}

#[test]
fn gap_in_nonce_sequence_is_rejected_and_consumes_nothing() {
    let (mut contract, admin) = setup_program();
    let recipient = address(2);
    must(contract.lock_program_funds(100));

    assert_eq!(
        contract.single_payout(recipient, 10, 1, NOW),
        Err(EscrowError::InvalidNonce { expected: 0, got: 1 })
    );
    assert_eq!(
        contract.single_payout(recipient, 10, 5, NOW),
        Err(EscrowError::InvalidNonce { expected: 0, got: 5 })
    );
    assert_eq!(contract.get_nonce(admin), 0);

    must(contract.single_payout(recipient, 10, 0, NOW));
    must(contract.single_payout(recipient, 10, 1, NOW));
    must(contract.single_payout(recipient, 10, 2, NOW));
    assert_eq!(contract.get_nonce(admin), 3);
    assert_eq!(contract.get_remaining_balance(), Ok(70));
}

#[test]
fn failed_business_check_still_consumes_the_nonce() {
    let (mut contract, admin) = setup_program();
    let recipient = address(2);
    must(contract.lock_program_funds(100));

    assert_eq!(
        contract.single_payout(recipient, 101, 0, NOW),
        Err(EscrowError::InsufficientBalance)
    );
    assert_eq!(contract.get_nonce(admin), 1);
    assert_eq!(contract.get_remaining_balance(), Ok(100));

    assert_eq!(contract.single_payout(recipient, 0, 1, NOW), Err(EscrowError::InvalidAmount));
    assert_eq!(contract.get_nonce(admin), 2);

    // The consumed values cannot be presented again.
    assert_eq!(
        contract.single_payout(recipient, 10, 0, NOW),
        Err(EscrowError::InvalidNonce { expected: 2, got: 0 })
    );
    must(contract.single_payout(recipient, 10, 2, NOW));
    assert_eq!(contract.get_remaining_balance(), Ok(90));
}

#[test]
fn only_the_authorized_signer_advances() {
    let (mut contract, admin) = setup_program();
    let other = address(77);
    must(contract.lock_program_funds(100));
    must(contract.single_payout(address(2), 10, 0, NOW));
    must(contract.batch_payout(vec![address(2), address(3)], vec![1, 2], 1, NOW));

    assert_eq!(contract.get_nonce(admin), 2);
    assert_eq!(contract.get_nonce(other), 0);
    assert_eq!(contract.get_nonce(Address::contract(0, 1)), 0);
}
