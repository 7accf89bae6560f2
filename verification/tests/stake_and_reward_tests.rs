//! Stake-table replay, validator selection and reward distribution.

use espresso_core::reward::{block_reward, compute_rewards, RewardError};
use espresso_core::stake::{
    from_l1_events, replay_l1_events, select_validators, sort_events, StakeTableError,
    StakeTableEvent, Validator,
};

fn register(account: u64) -> StakeTableEvent {
    StakeTableEvent::Register {
        account,
        bls_key: 1000 + account,
        schnorr_key: 2000 + account,
        commission: 500,
    }
}

#[test]
fn test_from_l1_events() {
    let val: u64 = 7;
    let delegator: u64 = 42;
    let mut events: Vec<StakeTableEvent> = vec![
        register(val),
        StakeTableEvent::Delegate {
            delegator,
            validator: val,
            amount: 10,
        },
        StakeTableEvent::KeyUpdate {
            account: val,
            bls_key: 1111,
            schnorr_key: 2222,
        },
        StakeTableEvent::Undelegate {
            delegator,
            validator: val,
            amount: 7,
        },
    ];

    let st = from_l1_events(&events).unwrap();
    let st_val = st.iter().find(|v| v.account == val).unwrap();
    assert_eq!(st_val.stake, 3);
    assert_eq!(st_val.commission, 500);
    assert_eq!(st_val.delegators.len(), 1);
    assert_eq!(st_val.delegators[0], (delegator, 3));
    assert_eq!(st_val.bls_key, 1111);

    events.push(StakeTableEvent::Deregister { validator: val });

    // The validator has exited, so nothing valid remains.
    assert!(from_l1_events(&events).is_err());
}

#[test]
fn test_from_l1_events_failures() {
    let val: u64 = 7;
    let delegator: u64 = 42;

    let register_ev = register(val);
    let delegate = StakeTableEvent::Delegate {
        delegator,
        validator: val,
        amount: 10,
    };
    let key_update = StakeTableEvent::KeyUpdate {
        account: val,
        bls_key: 1000 + val,
        schnorr_key: 2000 + val,
    };
    let undelegate = StakeTableEvent::Undelegate {
        delegator,
        validator: val,
        amount: 7,
    };
    let exit = StakeTableEvent::Deregister { validator: val };

    let cases: Vec<Vec<StakeTableEvent>> = vec![
        vec![exit],
        vec![undelegate],
        vec![delegate],
        vec![key_update],
        vec![register_ev, register(val)],
        vec![register_ev, delegate, undelegate, undelegate],
    ];

    for events in cases.iter() {
        let res = from_l1_events(events);
        assert!(res.is_err(), "events {events:?}, not a valid sequence of events");
    }
}

#[test]
fn test_validators_selection() {
    let mut events: Vec<StakeTableEvent> = Vec::new();
    let mut highest_stake: u128 = 0;
    for i in 0..3000u64 {
        let stake = ((i as u128) * 37 % 9999) + 1;
        events.push(register(i));
        events.push(StakeTableEvent::Delegate {
            delegator: 100_000 + i,
            validator: i,
            amount: stake,
        });
        if stake > highest_stake {
            highest_stake = stake;
        }
    }
    let mut validators = replay_l1_events(&events).unwrap();
    let minimum_stake = highest_stake / 1000;

    select_validators(&mut validators).expect("Failed to select validators");
    assert!(
        validators.len() <= 100,
        "validators len is {}, expected at most 100",
        validators.len()
    );

    for validator in &validators {
        assert!(
            validator.stake >= minimum_stake,
            "Validator {:?} has stake below minimum: {}",
            validator.account,
            validator.stake
        );
    }
}

fn mock_validator(commission: u16) -> Validator {
    let mut delegators: Vec<(u64, u128)> = Vec::new();
    let mut stake: u128 = 0;
    for i in 0..50u64 {
        let amount = ((i as u128) * 131 % 997) + 1;
        delegators.push((5000 + i, amount));
        stake += amount;
    }
    Validator {
        account: 9,
        bls_key: 19,
        schnorr_key: 29,
        stake,
        commission,
        delegators,
    }
}

#[test]
fn test_reward_calculation_sanity_checks() {
    // The amounts handed out must always sum to exactly the block
    // reward: rounding remainders go to the validator.
    let total = |rewards: &Vec<(u64, u128)>| rewards.iter().fold(0u128, |acc, (_, r)| acc + r);

    let rewards = compute_rewards(&mock_validator(500)).unwrap();
    assert_eq!(total(&rewards), block_reward());

    let rewards = compute_rewards(&mock_validator(0)).unwrap();
    assert_eq!(total(&rewards), block_reward());

    let validator = mock_validator(10000);
    let rewards = compute_rewards(&validator).unwrap();
    assert_eq!(total(&rewards), block_reward());
    let validator_reward = rewards
        .iter()
        .find(|(a, _)| *a == validator.account)
        .unwrap()
        .1;
    assert_eq!(validator_reward, block_reward());

    assert_eq!(
        compute_rewards(&mock_validator(10001)).unwrap_err(),
        RewardError::CommissionExceedsBasisPoints
    );
}

#[test]
fn zero_stake_with_delegations_is_refused() {
    let validator = Validator {
        account: 1,
        bls_key: 2,
        schnorr_key: 3,
        stake: 0,
        commission: 100,
        delegators: vec![(4, 5)],
    };
    assert_eq!(
        compute_rewards(&validator).unwrap_err(),
        RewardError::ZeroStake
    );
}

#[test]
fn replay_reports_each_offence() {
    let dup_key = vec![
        register(1),
        StakeTableEvent::Register { account: 2, bls_key: 1001, schnorr_key: 9, commission: 0 },
    ];
    assert_eq!(
        espresso_core::stake::replay_l1_events(&dup_key).unwrap_err(),
        StakeTableError::BlsKeyAlreadyUsed
    );
    let overdraw = vec![
        register(1),
        StakeTableEvent::Delegate { delegator: 5, validator: 1, amount: 3 },
        StakeTableEvent::Undelegate { delegator: 5, validator: 1, amount: 4 },
    ];
    assert_eq!(
        espresso_core::stake::replay_l1_events(&overdraw).unwrap_err(),
        StakeTableError::StakeUnderflow
    );
    let wrong_delegator = vec![
        register(1),
        StakeTableEvent::Delegate { delegator: 5, validator: 1, amount: 3 },
        StakeTableEvent::Undelegate { delegator: 6, validator: 1, amount: 1 },
    ];
    assert_eq!(
        espresso_core::stake::replay_l1_events(&wrong_delegator).unwrap_err(),
        StakeTableError::DelegatorNotFound
    );
}

#[test]
fn events_sort_into_their_on_chain_order() {
    let a = register(1);
    let b = register(2);
    let c = register(3);
    let d = register(4);
    let sorted = sort_events(vec![(a, 9, 1), (b, 3, 2), (c, 3, 1), (d, 9, 0)]);
    assert_eq!(sorted, vec![(c, 3, 1), (b, 3, 2), (d, 9, 0), (a, 9, 1)]);
}

#[test]
fn delegator_without_stake_is_dropped_by_selection() {
    let events = vec![register(1)];
    let mut validators = replay_l1_events(&events).unwrap();
    assert_eq!(validators.len(), 1);
    assert!(select_validators(&mut validators).is_err());
}
