//! Epoch arithmetic, membership, dispersal parameters, signature
//! storage and chain records.

use espresso_core::chain::{ChainVariables, GenesisTransaction, SequencerTransaction, Transaction};
use espresso_core::committee::{
    failure_threshold, find_peer, select_randomized_leader, select_round_robin_leader,
    success_threshold, total_stake, upgrade_threshold, DAMembers, EpochCommittees, PeerConfig,
    StakeTable,
};
use espresso_core::epoch::{
    epoch_of, is_epoch_root, is_epoch_transition, is_last_block, is_transition_block,
};
use espresso_core::signer::{LightClientState, StateSignatureMemStorage, StateSignatureRequestBody};
use espresso_core::stake::Validator;
use espresso_core::vid::{init_avidm_param, share_ranges, AvidMParam, AvidMScheme};

#[test]
fn epoch_landmarks_line_up() {
    // Epoch height 10: blocks 1..=10 form epoch 0, block 10 is its last
    // block, block 7 its root, blocks 8..=10 its transition window.
    assert_eq!(epoch_of(1, 10), 0);
    assert_eq!(epoch_of(10, 10), 0);
    assert_eq!(epoch_of(11, 10), 1);
    assert!(is_last_block(10, 10));
    assert!(!is_last_block(9, 10));
    assert!(is_epoch_root(7, 10));
    assert!(!is_epoch_root(8, 10));
    assert!(is_epoch_transition(8, 10));
    assert!(is_epoch_transition(9, 10));
    assert!(is_epoch_transition(10, 10));
    assert!(!is_epoch_transition(7, 10));
    assert!(is_transition_block(8, 10));
    assert!(!is_transition_block(9, 10));
    // With epochs disabled nothing is a landmark.
    assert!(!is_last_block(10, 0));
    assert!(!is_epoch_root(7, 0));
}

#[test]
fn thresholds_match_the_fractions() {
    assert_eq!(success_threshold(5), 4);
    assert_eq!(success_threshold(100), 67);
    assert_eq!(failure_threshold(5), 2);
    assert_eq!(upgrade_threshold(5), 4);
    assert_eq!(upgrade_threshold(100), 90);
}

#[test]
fn mock_tables_have_the_requested_size() {
    assert_eq!(StakeTable::mock(5).0.len(), 5);
    assert_eq!(DAMembers::mock(3).0.len(), 3);
    assert_eq!(StakeTable::mock(0).0.len(), 0);
}

#[test]
fn leader_election_is_stake_weighted_and_deterministic() {
    let peers = vec![
        PeerConfig { key: 1, state_key: 11, stake: 5 },
        PeerConfig { key: 2, state_key: 12, stake: 3 },
    ];
    assert_eq!(total_stake(&peers), 8);
    // Round robin simply cycles.
    assert_eq!(select_round_robin_leader(&peers, 0).key, 1);
    assert_eq!(select_round_robin_leader(&peers, 1).key, 2);
    assert_eq!(select_round_robin_leader(&peers, 2).key, 1);
    // The randomized draw is deterministic in the seed and view, and
    // with all stake on one peer it always picks that peer.
    let single = vec![PeerConfig { key: 9, state_key: 19, stake: 4 }];
    for view in 0..20u64 {
        assert_eq!(select_randomized_leader(&single, 12345, view).key, 9);
    }
    let a = select_randomized_leader(&peers, 7, 3);
    let b = select_randomized_leader(&peers, 7, 3);
    assert_eq!(a, b);

    assert_eq!(find_peer(&peers, 2).unwrap().stake, 3);
    assert!(find_peer(&peers, 5).is_none());
}

#[test]
fn epoch_committees_track_validator_sets_and_drb() {
    let members = vec![PeerConfig { key: 1, state_key: 11, stake: 5 }, PeerConfig {
        key: 2,
        state_key: 12,
        stake: 0,
    }];
    let mut ec = EpochCommittees::new_stake(members, vec![]);
    assert!(!ec.has_epoch(3));
    let validator = Validator {
        account: 7,
        bls_key: 17,
        schnorr_key: 27,
        stake: 10,
        commission: 100,
        delegators: vec![(1, 10)],
    };
    ec.update_stake_table(3, vec![validator.clone()]);
    assert!(ec.has_epoch(3));
    let vs = ec.validators(3).unwrap();
    assert_eq!(vs.len(), 1);
    assert_eq!(vs[0], validator);
    assert!(ec.validators(4).is_err());

    // A DRB result for an epoch without a stored committee is dropped.
    ec.add_drb_result(9, 42);
    assert!(!ec.has_randomized_stake_table(9));
    assert!(!ec.has_randomized_stake_table(3));
    ec.add_drb_result(3, 99);
    assert!(ec.has_randomized_stake_table(3));

    // The epoch's stake table is derived from its validators; the
    // non-epoch table keeps only the staked peers.
    let table = ec.stake_table(Some(3));
    assert_eq!(table.len(), 1);
    assert_eq!(table[0], PeerConfig { key: 17, state_key: 27, stake: 10 });
    assert!(ec.has_stake(17, Some(3)));
    assert!(!ec.has_stake(18, Some(3)));
    assert!(ec.has_stake(1, None));
    assert!(!ec.has_stake(2, None));
    assert_eq!(ec.total_nodes(None), 1);
    assert_eq!(ec.total_nodes(Some(3)), 1);
    assert!(!ec.has_da_stake(1));

    // Leader lookup: round robin before epochs; under an epoch it needs
    // the DRB result, which epoch 3 has.
    assert_eq!(ec.lookup_leader(0, None).unwrap(), 1);
    assert_eq!(ec.lookup_leader(5, Some(3)).unwrap(), 17);
    assert!(ec.lookup_leader(5, Some(9)).is_err());

    // The upgrade copies the genesis committee into the first two
    // epochs and seeds their DRB results, so their leader lookups work
    // before any stake table is ingested.
    assert_eq!(ec.first_epoch(), None);
    ec.set_first_epoch(5, 1);
    assert_eq!(ec.first_epoch(), Some(5));
    assert!(ec.has_epoch(5));
    assert!(ec.has_epoch(6));
    assert!(ec.has_randomized_stake_table(5));
    assert!(ec.has_randomized_stake_table(6));
    assert_eq!(ec.stake_table(Some(5)), ec.stake_table(None));
    assert_eq!(ec.lookup_leader(4, Some(6)).unwrap(), 1);

    // The consensus key resolves to its registered account.
    assert_eq!(ec.address(3, 17).unwrap(), 7);
    assert!(ec.address(3, 99).is_err());
    assert_eq!(ec.get_validator_config(3, 17).unwrap().commission, 100);
}

#[test]
fn dispersal_parameters_follow_the_thirds_rule() {
    let p = init_avidm_param(10).unwrap();
    assert_eq!(p.total_weights, 10);
    assert_eq!(p.recovery_threshold, 4);
    assert!(init_avidm_param(0).is_err());
    assert!(AvidMScheme::setup(0, 5).is_err());
    assert!(AvidMScheme::setup(6, 5).is_err());
    assert_eq!(AvidMParam::new(2, 5).unwrap().recovery_threshold, 2);
}

#[test]
fn share_ranges_partition_the_total_weight() {
    let p = AvidMParam::new(2, 5).unwrap();
    let ranges = share_ranges(&p, &vec![2, 3]).unwrap();
    assert_eq!(ranges, vec![(0, 2), (2, 5)]);
    assert!(share_ranges(&p, &vec![2, 0, 3]).is_err());
    assert!(share_ranges(&p, &vec![2, 2]).is_err());
    assert!(share_ranges(&p, &vec![2, 4]).is_err());
}

fn body(height: u64) -> StateSignatureRequestBody {
    StateSignatureRequestBody {
        key: 1,
        state: LightClientState { view_number: height, block_height: height, block_comm_root: 5 },
        signature: height ^ 0xabcd,
    }
}

#[test]
fn signature_storage_evicts_the_oldest_height() {
    let mut storage = StateSignatureMemStorage::new();
    for h in 1..=100u64 {
        storage.push(h, body(h));
    }
    assert!(storage.get_signature(1).is_some());
    storage.push(101, body(101));
    assert!(storage.get_signature(1).is_none());
    assert!(storage.get_signature(2).is_some());
    assert_eq!(storage.get_signature(101).unwrap(), body(101));
    assert!(storage.get_signature(500).is_none());
}

#[test]
fn chain_records_are_content_addressed() {
    let t1 = Transaction::new(0, vec![1, 2, 3]);
    let t1_again = Transaction::new(0, vec![1, 2, 3]);
    let t2 = Transaction::new(0, vec![1, 2, 4]);
    let t3 = Transaction::new(1, vec![1, 2, 3]);
    assert_eq!(t1.commit(), t1_again.commit());
    assert_ne!(t1.commit(), t2.commit());
    assert_ne!(t1.commit(), t3.commit());

    let vars = ChainVariables::new(35353, 3);
    assert_eq!(vars, ChainVariables::default());
    assert_eq!(vars.commit(), ChainVariables::default().commit());
    assert_ne!(vars.commit(), ChainVariables::new(35354, 3).commit());

    let genesis = GenesisTransaction { chain_variables: vars };
    let wrapped = SequencerTransaction::Wrapped(Transaction::new(0, vec![1, 2, 3]));
    assert_ne!(
        SequencerTransaction::Genesis(genesis).commit(),
        wrapped.commit()
    );
}

#[test]
fn share_ranges_report_the_first_flaw() {
    let p = AvidMParam::new(2, 5).unwrap();
    // The scan stops at the first flaw it meets, left to right.
    assert!(matches!(
        share_ranges(&p, &vec![0, 7]),
        Err(espresso_core::vid::ShareLayoutError::ZeroWeight)
    ));
    assert!(matches!(
        share_ranges(&p, &vec![6, 0]),
        Err(espresso_core::vid::ShareLayoutError::InconsistentTotalWeight)
    ));
    // A sum short of the total is inconsistent, not zero-weighted.
    assert!(matches!(
        share_ranges(&p, &vec![1, 2]),
        Err(espresso_core::vid::ShareLayoutError::InconsistentTotalWeight)
    ));
}
