use whale_vesting::allocation::simulate_withdraw;
use whale_vesting::error::ContractError;
use whale_vesting::ledger::Ledger;
use whale_vesting::msg::{
    AllocationInfo, ExecuteMsg, InstantiateMsg, QueryAnswer, QueryMsg, ReceiveMsg,
};
use whale_vesting::schedule::{compute_released_amount, Schedule};

fn schedule(start_time: u64, cliff: u64, duration: u64) -> Schedule {
    Schedule { start_time, cliff, duration }
}

fn fresh_allocation(total: u128, vest: Schedule, unlock: Option<Schedule>) -> AllocationInfo {
    AllocationInfo {
        total_amount: total,
        withdrawn_amount: 0,
        vest_schedule: vest,
        unlock_schedule: unlock,
        canceled: false,
    }
}

fn instantiate_msg(default_unlock: Schedule) -> InstantiateMsg {
    InstantiateMsg {
        gov: "gov".to_string(),
        owner: "owner".to_string(),
        refund_recipient: "refund".to_string(),
        whale_token: "whale".to_string(),
        default_unlock_schedule: default_unlock,
    }
}

fn fresh_ledger(default_unlock: Schedule) -> Ledger {
    Ledger::instantiate(instantiate_msg(default_unlock)).unwrap()
}

#[test]
fn zero_schedule_is_all_zero() {
    let s = Schedule::zero();
    assert_eq!(s.start_time, 0);
    assert_eq!(s.cliff, 0);
    assert_eq!(s.duration, 0);
}

#[test]
fn linear_release_halfway() {
    // Scenario: start 0, no cliff, duration 100; at t = 50 half of 1000
    // has vested, and with an equal unlock schedule half is withdrawable.
    let s = schedule(0, 0, 100);
    assert_eq!(compute_released_amount(&s, 1000, 50), 500);
    let a = fresh_allocation(1000, s, Some(s));
    let resp = simulate_withdraw(&a, &Schedule::zero(), 50);
    assert_eq!(resp.total_whale_vested, 500);
    assert_eq!(resp.total_whale_unlocked, 500);
    assert_eq!(resp.withdrawable_amount, 500);
}

#[test]
fn cliff_blocks_linear_release() {
    // Scenario: cliff 20 blocks release at t = 10 although the linear
    // term alone would give 100.
    let s = schedule(0, 20, 100);
    assert_eq!(compute_released_amount(&s, 1000, 10), 0);
    let a = fresh_allocation(1000, s, Some(s));
    let resp = simulate_withdraw(&a, &Schedule::zero(), 10);
    assert_eq!(resp.total_whale_vested, 0);
    assert_eq!(resp.withdrawable_amount, 0);
}

#[test]
fn locked_unlock_schedule_blocks_withdrawal() {
    // Scenario: fully vested at t = 200, but the unlock schedule's cliff
    // of 300 has not passed: nothing is withdrawable.
    let vest = schedule(0, 0, 100);
    let unlock = schedule(0, 300, 300);
    let a = fresh_allocation(1000, vest, Some(unlock));
    let resp = simulate_withdraw(&a, &Schedule::zero(), 200);
    assert_eq!(resp.total_whale_vested, 1000);
    assert_eq!(resp.total_whale_unlocked, 0);
    assert_eq!(resp.withdrawable_amount, 0);

    let mut ledger = fresh_ledger(Schedule::zero());
    let entries = vec![("alice".to_string(), a)];
    ledger.create_allocations(1000, &entries).unwrap();
    let r = ledger.withdraw(&"alice".to_string(), 200);
    assert_eq!(r, Err(ContractError::NothingToWithdraw));
}

#[test]
fn terminate_after_partial_withdrawal_keeps_vested_claim() {
    // Scenario: withdraw 300 of a grant of 1000, let it vest fully, then
    // terminate: the refund is 0 and the remaining 700 stays claimable.
    let vest = schedule(0, 0, 100);
    let mut ledger = fresh_ledger(Schedule::zero());
    let entries = vec![("alice".to_string(), fresh_allocation(1000, vest, Some(Schedule::zero())))];
    ledger.create_allocations(1000, &entries).unwrap();

    assert_eq!(ledger.withdraw(&"alice".to_string(), 30), Ok(300));
    assert_eq!(ledger.terminate(&"alice".to_string(), 100), Ok(0));
    assert_eq!(ledger.withdraw(&"alice".to_string(), 150), Ok(700));

    let a = ledger.query_allocation(&"alice".to_string()).unwrap();
    assert!(a.canceled);
    assert_eq!(a.total_amount, 1000);
    assert_eq!(a.withdrawn_amount, 1000);
}

#[test]
fn terminate_refunds_unvested_remainder() {
    // Terminating halfway through vesting clips the grant to the vested
    // part and refunds the rest.
    let vest = schedule(0, 0, 100);
    let mut ledger = fresh_ledger(Schedule::zero());
    let entries = vec![("alice".to_string(), fresh_allocation(1000, vest, Some(Schedule::zero())))];
    ledger.create_allocations(1000, &entries).unwrap();

    assert_eq!(ledger.terminate(&"alice".to_string(), 50), Ok(500));
    let a = ledger.query_allocation(&"alice".to_string()).unwrap();
    assert!(a.canceled);
    assert_eq!(a.total_amount, 500);
    // The kept part counts as fully vested and stays claimable as it
    // unlocks.
    assert_eq!(ledger.withdraw(&"alice".to_string(), 60), Ok(500));
}

#[test]
fn increase_on_canceled_allocation_fails() {
    // Scenario: increasing a canceled allocation fails with
    // `AllocationCanceled` and leaves the total unchanged.
    let vest = schedule(0, 0, 100);
    let mut ledger = fresh_ledger(Schedule::zero());
    let entries = vec![("alice".to_string(), fresh_allocation(1000, vest, Some(Schedule::zero())))];
    ledger.create_allocations(1500, &entries).unwrap();
    ledger.terminate(&"alice".to_string(), 100).unwrap();

    let before = ledger.query_allocation(&"alice".to_string()).unwrap();
    let r = ledger.increase_allocation(0, &"alice".to_string(), 200);
    assert_eq!(r, Err(ContractError::AllocationCanceled));
    let after = ledger.query_allocation(&"alice".to_string()).unwrap();
    assert_eq!(before.total_amount, after.total_amount);
    assert_eq!(before, after);
}

#[test]
fn simulate_withdraw_is_idempotent() {
    // Two simulations with the same timestamp and no mutation in between
    // answer the same.
    let vest = schedule(0, 10, 100);
    let mut ledger = fresh_ledger(schedule(0, 0, 200));
    let entries = vec![("alice".to_string(), fresh_allocation(1000, vest, None))];
    ledger.create_allocations(1000, &entries).unwrap();
    let first = ledger.query_simulate_withdraw(&"alice".to_string(), Some(55), 99).unwrap();
    let second = ledger.query_simulate_withdraw(&"alice".to_string(), Some(55), 123).unwrap();
    assert_eq!(first, second);
}

#[test]
fn second_terminate_fails_and_changes_nothing() {
    // Terminate is idempotent in effect: the second call fails with
    // `AllocationCanceled` and the record stays as the first call left it.
    let vest = schedule(0, 0, 100);
    let mut ledger = fresh_ledger(Schedule::zero());
    let entries = vec![("alice".to_string(), fresh_allocation(1000, vest, Some(Schedule::zero())))];
    ledger.create_allocations(1000, &entries).unwrap();

    assert_eq!(ledger.terminate(&"alice".to_string(), 50), Ok(500));
    let after_first = ledger.query_allocation(&"alice".to_string()).unwrap();
    let r = ledger.terminate(&"alice".to_string(), 80);
    assert_eq!(r, Err(ContractError::AllocationCanceled));
    let after_second = ledger.query_allocation(&"alice".to_string()).unwrap();
    assert_eq!(after_first, after_second);
}

#[test]
fn duplicate_allocation_is_rejected() {
    let vest = schedule(0, 0, 100);
    let mut ledger = fresh_ledger(Schedule::zero());
    let entries = vec![("alice".to_string(), fresh_allocation(400, vest, None))];
    ledger.create_allocations(400, &entries).unwrap();
    let again = vec![("alice".to_string(), fresh_allocation(100, vest, None))];
    let r = ledger.create_allocations(100, &again);
    assert_eq!(r, Err(ContractError::DuplicateAllocation));
    // A duplicate inside one batch is also rejected, and the whole batch
    // is rolled back.
    let batch = vec![
        ("bob".to_string(), fresh_allocation(100, vest, None)),
        ("bob".to_string(), fresh_allocation(100, vest, None)),
    ];
    let r = ledger.create_allocations(200, &batch);
    assert_eq!(r, Err(ContractError::DuplicateAllocation));
    assert_eq!(
        ledger.query_allocation(&"bob".to_string()),
        Err(ContractError::AllocationNotFound)
    );
}

#[test]
fn grants_beyond_remaining_balance_are_rejected() {
    let vest = schedule(0, 0, 100);
    let mut ledger = fresh_ledger(Schedule::zero());
    let entries = vec![("alice".to_string(), fresh_allocation(1001, vest, None))];
    let r = ledger.create_allocations(1000, &entries);
    assert_eq!(r, Err(ContractError::InsufficientFunds));
    let state = ledger.query_state();
    assert_eq!(state.total_whale_deposited, 0);
    assert_eq!(state.remaining_whale_tokens, 0);

    let entries = vec![("alice".to_string(), fresh_allocation(600, vest, None))];
    ledger.create_allocations(1000, &entries).unwrap();
    let r = ledger.increase_allocation(0, &"alice".to_string(), 500);
    assert_eq!(r, Err(ContractError::InsufficientFunds));
    assert_eq!(ledger.increase_allocation(0, &"alice".to_string(), 400), Ok(()));
    let a = ledger.query_allocation(&"alice".to_string()).unwrap();
    assert_eq!(a.total_amount, 1000);
    assert_eq!(ledger.query_state().remaining_whale_tokens, 0);
}

#[test]
fn cliff_longer_than_duration_is_rejected_at_creation() {
    let bad = schedule(0, 200, 100);
    let mut ledger = fresh_ledger(Schedule::zero());
    let entries = vec![("alice".to_string(), fresh_allocation(100, bad, None))];
    let r = ledger.create_allocations(100, &entries);
    assert_eq!(r, Err(ContractError::InvalidAllocation));
    // The same holds for the default unlock schedule at instantiation.
    let r = Ledger::instantiate(instantiate_msg(bad));
    assert!(matches!(r, Err(ContractError::InvalidAllocation)));
}

#[test]
fn operations_on_missing_accounts_fail() {
    let mut ledger = fresh_ledger(Schedule::zero());
    let nobody = "nobody".to_string();
    assert_eq!(ledger.withdraw(&nobody, 10), Err(ContractError::AllocationNotFound));
    assert_eq!(ledger.terminate(&nobody, 10), Err(ContractError::AllocationNotFound));
    assert_eq!(
        ledger.increase_allocation(0, &nobody, 1),
        Err(ContractError::AllocationNotFound)
    );
    assert_eq!(ledger.query_allocation(&nobody), Err(ContractError::AllocationNotFound));
    assert_eq!(
        ledger.query_simulate_withdraw(&nobody, None, 10),
        Err(ContractError::AllocationNotFound)
    );
}

#[test]
fn execute_enforces_authorization() {
    let vest = schedule(0, 0, 100);
    let mut ledger = fresh_ledger(Schedule::zero());
    let create = ExecuteMsg::Receive {
        sender: "owner".to_string(),
        amount: 1000,
        msg: ReceiveMsg::CreateAllocations {
            allocations: vec![("alice".to_string(), fresh_allocation(1000, vest, None))],
        },
    };
    // The receive callback must come from the vested token's contract.
    let r = ledger.execute(&"mallory".to_string(), 0, &create);
    assert_eq!(r, Err(ContractError::Unauthorized));
    // ... on behalf of the owner.
    let from_other = ExecuteMsg::Receive {
        sender: "mallory".to_string(),
        amount: 1000,
        msg: ReceiveMsg::CreateAllocations { allocations: vec![] },
    };
    let r = ledger.execute(&"whale".to_string(), 0, &from_other);
    assert_eq!(r, Err(ContractError::Unauthorized));
    assert_eq!(ledger.execute(&"whale".to_string(), 0, &create), Ok(None));

    // Terminate and transfer-ownership are owner-only.
    let terminate = ExecuteMsg::Terminate { user_address: "alice".to_string() };
    let r = ledger.execute(&"mallory".to_string(), 10, &terminate);
    assert_eq!(r, Err(ContractError::Unauthorized));
    let transfer = ExecuteMsg::TransferOwnership { new_owner: "mallory".to_string() };
    let r = ledger.execute(&"mallory".to_string(), 10, &transfer);
    assert_eq!(r, Err(ContractError::Unauthorized));
}

#[test]
fn execute_withdraw_emits_transfer_to_caller() {
    let vest = schedule(0, 0, 100);
    let mut ledger = fresh_ledger(Schedule::zero());
    let create = ExecuteMsg::Receive {
        sender: "owner".to_string(),
        amount: 1000,
        msg: ReceiveMsg::CreateAllocations {
            allocations: vec![("alice".to_string(), fresh_allocation(1000, vest, None))],
        },
    };
    ledger.execute(&"whale".to_string(), 0, &create).unwrap();
    let r = ledger.execute(&"alice".to_string(), 25, &ExecuteMsg::Withdraw {}).unwrap();
    let transfer = r.unwrap();
    assert_eq!(transfer.recipient, "alice".to_string());
    assert_eq!(transfer.amount, 250);
}

#[test]
fn execute_terminate_emits_refund_transfer() {
    let vest = schedule(0, 0, 100);
    let mut ledger = fresh_ledger(Schedule::zero());
    let create = ExecuteMsg::Receive {
        sender: "owner".to_string(),
        amount: 1000,
        msg: ReceiveMsg::CreateAllocations {
            allocations: vec![("alice".to_string(), fresh_allocation(1000, vest, None))],
        },
    };
    ledger.execute(&"whale".to_string(), 0, &create).unwrap();
    let terminate = ExecuteMsg::Terminate { user_address: "alice".to_string() };
    let r = ledger.execute(&"owner".to_string(), 25, &terminate).unwrap();
    let transfer = r.unwrap();
    assert_eq!(transfer.recipient, "refund".to_string());
    assert_eq!(transfer.amount, 750);
    // A fully vested termination refunds nothing and emits no transfer.
    let create_bob = ExecuteMsg::Receive {
        sender: "owner".to_string(),
        amount: 100,
        msg: ReceiveMsg::CreateAllocations {
            allocations: vec![("bob".to_string(), fresh_allocation(100, vest, None))],
        },
    };
    ledger.execute(&"whale".to_string(), 0, &create_bob).unwrap();
    let terminate_bob = ExecuteMsg::Terminate { user_address: "bob".to_string() };
    let r = ledger.execute(&"owner".to_string(), 100, &terminate_bob).unwrap();
    assert!(r.is_none());
}

#[test]
fn execute_transfer_ownership_and_increase() {
    let vest = schedule(0, 0, 100);
    let mut ledger = fresh_ledger(Schedule::zero());
    let transfer = ExecuteMsg::TransferOwnership { new_owner: "heir".to_string() };
    assert_eq!(ledger.execute(&"owner".to_string(), 0, &transfer), Ok(None));
    assert_eq!(ledger.query_config().owner, "heir".to_string());

    let create = ExecuteMsg::Receive {
        sender: "heir".to_string(),
        amount: 500,
        msg: ReceiveMsg::CreateAllocations {
            allocations: vec![("alice".to_string(), fresh_allocation(500, vest, None))],
        },
    };
    ledger.execute(&"whale".to_string(), 0, &create).unwrap();
    let increase = ExecuteMsg::Receive {
        sender: "heir".to_string(),
        amount: 200,
        msg: ReceiveMsg::IncreaseAllocation { allocation: ("alice".to_string(), 200) },
    };
    assert_eq!(ledger.execute(&"whale".to_string(), 0, &increase), Ok(None));
    let a = ledger.query_allocation(&"alice".to_string()).unwrap();
    assert_eq!(a.total_amount, 700);
    let state = ledger.query_state();
    assert_eq!(state.total_whale_deposited, 700);
    assert_eq!(state.remaining_whale_tokens, 0);
}

#[test]
fn query_dispatch_answers_each_variant() {
    let vest = schedule(0, 0, 100);
    let mut ledger = fresh_ledger(Schedule::zero());
    let entries = vec![("alice".to_string(), fresh_allocation(1000, vest, None))];
    ledger.create_allocations(1200, &entries).unwrap();

    match ledger.query(&QueryMsg::Config {}, 0).unwrap() {
        QueryAnswer::Config(c) => assert_eq!(c.owner, "owner".to_string()),
        _ => panic!("wrong answer variant"),
    }
    match ledger.query(&QueryMsg::State {}, 0).unwrap() {
        QueryAnswer::State(s) => {
            assert_eq!(s.total_whale_deposited, 1200);
            assert_eq!(s.remaining_whale_tokens, 200);
        },
        _ => panic!("wrong answer variant"),
    }
    match ledger.query(&QueryMsg::Allocation { account: "alice".to_string() }, 0).unwrap() {
        QueryAnswer::Allocation(a) => assert_eq!(a.total_amount, 1000),
        _ => panic!("wrong answer variant"),
    }
    // Without an explicit timestamp the query falls back to the current
    // time.
    let q = QueryMsg::SimulateWithdraw { account: "alice".to_string(), timestamp: None };
    match ledger.query(&q, 50).unwrap() {
        QueryAnswer::SimulateWithdraw(r) => {
            assert_eq!(r.total_whale_vested, 500);
            // The default unlock schedule (all zero) is fully released.
            assert_eq!(r.total_whale_unlocked, 1000);
            assert_eq!(r.withdrawable_amount, 500);
        },
        _ => panic!("wrong answer variant"),
    }
}

#[test]
fn released_amount_rounds_down_and_is_monotone() {
    let s = schedule(0, 0, 3);
    // 1000 * 1 / 3 and 1000 * 2 / 3, truncated.
    assert_eq!(compute_released_amount(&s, 1000, 1), 333);
    assert_eq!(compute_released_amount(&s, 1000, 2), 666);
    assert_eq!(compute_released_amount(&s, 1000, 3), 1000);
    let s = schedule(100, 10, 50);
    let mut last = 0u128;
    let mut t = 0u64;
    while t < 200 {
        let r = compute_released_amount(&s, 987654321, t);
        assert!(r >= last);
        assert!(r <= 987654321);
        last = r;
        t += 1;
    }
    assert_eq!(last, 987654321);
}

#[test]
fn huge_grants_release_without_overflow() {
    // The grant does not fit in 64 bits; the interpolation must still be
    // exact.
    let s = schedule(0, 0, 1_000_000);
    let total: u128 = u64::MAX as u128 * 1000;
    assert_eq!(compute_released_amount(&s, total, 500_000), total / 2);
    assert_eq!(compute_released_amount(&s, total, 1_000_000), total);
    assert_eq!(compute_released_amount(&s, u128::MAX, 999_999), u128::MAX / 1_000_000 * 999_999
        + u128::MAX % 1_000_000 * 999_999 / 1_000_000);
}

#[test]
fn withdrawn_never_exceeds_vested_or_unlocked() {
    // Repeated withdrawals at rising timestamps: after each one the
    // withdrawn amount stays within both ceilings.
    let vest = schedule(0, 5, 100);
    let unlock = schedule(0, 0, 200);
    let mut ledger = fresh_ledger(Schedule::zero());
    let entries = vec![("alice".to_string(), fresh_allocation(999, vest, Some(unlock)))];
    ledger.create_allocations(999, &entries).unwrap();
    let account = "alice".to_string();
    let mut t = 0u64;
    while t <= 220 {
        let _ = ledger.withdraw(&account, t);
        let sim = ledger.query_simulate_withdraw(&account, None, t).unwrap();
        assert!(sim.withdrawn_amount <= sim.total_whale_vested);
        assert!(sim.withdrawn_amount <= sim.total_whale_unlocked);
        t += 20;
    }
}
