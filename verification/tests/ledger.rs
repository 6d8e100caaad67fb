use ledger_core::block::{compute_block_digest, digest, encode_block};
use ledger_core::chain::replay;
use ledger_core::consensus::ConsensusEngine;
use ledger_core::instruction::{DenyReason, Instruction, RejectionReason};
use ledger_core::snapshot::encode_world;
use ledger_core::store::recover_records;
use ledger_core::topology::Topology;
use ledger_core::transaction::{execute_transaction, AcceptError, SignedTransaction};
use ledger_core::world::{
    AccountId, AssetDefinitionId, AssetId, InstructionKind, Validator, World,
};

fn acc(name: &str, domain: &str) -> AccountId {
    AccountId { name: name.to_string(), domain: domain.to_string() }
}

fn def(name: &str, domain: &str) -> AssetDefinitionId {
    AssetDefinitionId { name: name.to_string(), domain: domain.to_string() }
}

fn coin_of(account: &AccountId) -> AssetId {
    AssetId { definition: def("coin", "a"), account: account.clone() }
}

fn default_validator() -> Validator {
    Validator {
        version: 1,
        fuel_budget: 10_000,
        requirements: vec![
            (InstructionKind::Upgrade, "can_upgrade_validator".to_string()),
            (InstructionKind::SetParameter, "can_set_parameters".to_string()),
        ],
    }
}

fn tx_of(authority: AccountId, instructions: Vec<Instruction>) -> SignedTransaction {
    SignedTransaction {
        authority,
        instructions,
        created_at_ms: 0,
        time_to_live_ms: 1_000_000,
        nonce: 1,
        signature: 7,
    }
}

fn engine_for(peer_id: u64) -> ConsensusEngine {
    ConsensusEngine::new(peer_id, vec![1, 2, 3, 4], default_validator())
}

/// Drive one full round on a four-peer topology led by peer 1.
fn commit_round(engine: &mut ConsensusEngine, txs: Vec<SignedTransaction>) {
    for tx in txs {
        engine.submit(tx).expect("transaction should be accepted");
    }
    engine.start_round();
    engine.build_proposal(1);
    assert!(!engine.on_vote(2));
    assert!(engine.on_vote(3));
    engine.commit();
}

fn balance(world: &World, asset: &AssetId) -> u64 {
    match world.find_asset(asset) {
        Some(i) => world.assets[i].quantity,
        None => 0,
    }
}

fn setup_funded_engine() -> ConsensusEngine {
    let mut engine = engine_for(1);
    let u = acc("u", "a");
    commit_round(
        &mut engine,
        vec![tx_of(
            u.clone(),
            vec![
                Instruction::RegisterDomain { id: "a".to_string() },
                Instruction::RegisterAccount { id: u.clone(), key: 42 },
                Instruction::RegisterAssetDefinition { id: def("coin", "a") },
                Instruction::Mint { asset: coin_of(&u), amount: 100 },
            ],
        )],
    );
    engine
}

#[test]
fn register_and_mint_scenario() {
    let engine = setup_funded_engine();
    let block = engine.store.get(0).expect("height 0 must exist");
    assert_eq!(block.outcomes, vec![None]);
    assert_eq!(balance(&engine.world, &coin_of(&acc("u", "a"))), 100);
}

#[test]
fn overdrawn_transfer_rejected_but_block_commits() {
    let mut engine = setup_funded_engine();
    let u = acc("u", "a");
    let v = acc("v", "a");
    commit_round(
        &mut engine,
        vec![tx_of(u.clone(), vec![Instruction::RegisterAccount { id: v.clone(), key: 43 }])],
    );
    commit_round(
        &mut engine,
        vec![tx_of(
            u.clone(),
            vec![Instruction::Transfer {
                source: u.clone(),
                destination: v.clone(),
                definition: def("coin", "a"),
                amount: 150,
            }],
        )],
    );
    let block = engine.store.get(2).expect("height 2 must exist");
    assert_eq!(block.outcomes, vec![Some(RejectionReason::InsufficientBalance)]);
    assert_eq!(balance(&engine.world, &coin_of(&u)), 100);
    assert_eq!(balance(&engine.world, &coin_of(&v)), 0);
}

#[test]
fn view_change_promotes_second_peer_without_advancing_height() {
    let mut engine = engine_for(2);
    engine
        .submit(tx_of(acc("u", "a"), vec![Instruction::RegisterDomain { id: "a".to_string() }]))
        .unwrap();
    // Peer 1 leads the first view; this peer waits for a proposal that never
    // arrives.
    assert!(!engine.is_leader());
    engine.start_round();
    engine.on_timeout();
    engine.complete_view_change();
    assert_eq!(engine.store.height(), 0);
    assert!(engine.is_leader());
    assert_eq!(engine.topology.peers, vec![2, 3, 4, 1]);
    // The promoted leader proposes a candidate for the same height.
    engine.start_round();
    engine.build_proposal(5);
    let candidate = engine.candidate.as_ref().expect("candidate must stand");
    assert_eq!(candidate.header.height, 0);
    assert_eq!(candidate.transactions.len(), 1);
    assert_eq!(engine.pending.len(), 0);
    // A second stall returns the drained transactions to the pool unchanged.
    engine.on_timeout();
    engine.complete_view_change();
    assert_eq!(engine.store.height(), 0);
    assert_eq!(engine.pending.len(), 1);
    assert_eq!(engine.topology.peers, vec![3, 4, 1, 2]);
}

#[test]
fn upgrade_denied_without_permission_token() {
    let mut engine = setup_funded_engine();
    let u = acc("u", "a");
    let new_policy = Validator { version: 2, fuel_budget: 10_000, requirements: vec![] };
    commit_round(
        &mut engine,
        vec![tx_of(u, vec![Instruction::Upgrade { validator: new_policy }])],
    );
    let block = engine.store.get(1).expect("height 1 must exist");
    assert_eq!(block.outcomes, vec![Some(RejectionReason::Denied(DenyReason::NotPermitted))]);
    assert_eq!(engine.world.validator.version, 1);
}

#[test]
fn upgrade_allowed_with_token_takes_effect_next_block() {
    let mut engine = setup_funded_engine();
    let u = acc("u", "a");
    commit_round(
        &mut engine,
        vec![tx_of(
            u.clone(),
            vec![Instruction::Grant {
                token: "can_upgrade_validator".to_string(),
                payload: "".to_string(),
                to: u.clone(),
            }],
        )],
    );
    let permissive = Validator { version: 2, fuel_budget: 10_000, requirements: vec![] };
    // Within one block: the upgrade is permitted, but the following
    // transaction is still judged by the policy in force when the block
    // began, which demands a token for SetParameter.
    commit_round(
        &mut engine,
        vec![
            tx_of(u.clone(), vec![Instruction::Upgrade { validator: permissive }]),
            tx_of(
                u.clone(),
                vec![Instruction::SetParameter { name: "block_time_ms".to_string(), value: 9 }],
            ),
        ],
    );
    let block = engine.store.get(2).expect("height 2 must exist");
    assert_eq!(
        block.outcomes,
        vec![None, Some(RejectionReason::Denied(DenyReason::NotPermitted))]
    );
    assert_eq!(engine.world.validator.version, 2);
    // In the next block the new, permissive policy is in force.
    commit_round(
        &mut engine,
        vec![tx_of(
            u,
            vec![Instruction::SetParameter { name: "block_time_ms".to_string(), value: 9 }],
        )],
    );
    let block = engine.store.get(3).expect("height 3 must exist");
    assert_eq!(block.outcomes, vec![None]);
}

#[test]
fn can_change_parameter_value() {
    let mut engine = setup_funded_engine();
    let u = acc("u", "a");
    let name = "block_time_ms".to_string();
    assert_eq!(engine.world.parameter_or(&name, 0), 2_000);
    commit_round(
        &mut engine,
        vec![tx_of(
            u.clone(),
            vec![Instruction::Grant {
                token: "can_set_parameters".to_string(),
                payload: "".to_string(),
                to: u.clone(),
            }],
        )],
    );
    let block_time: u64 = 40_000;
    commit_round(
        &mut engine,
        vec![tx_of(
            u,
            vec![Instruction::SetParameter { name: name.clone(), value: block_time }],
        )],
    );
    let block = engine.store.get(2).expect("height 2 must exist");
    assert_eq!(block.outcomes, vec![None]);
    assert_eq!(engine.world.parameter_or(&name, 0), 40_000);
}

#[test]
fn committed_blocks_link_previous_hash() {
    let mut engine = setup_funded_engine();
    commit_round(&mut engine, vec![]);
    let b0 = engine.store.get(0).unwrap();
    let b1 = engine.store.get(1).unwrap();
    assert_eq!(b0.header.height, 0);
    assert_eq!(b0.header.previous_hash, 0);
    assert_eq!(b1.header.height, 1);
    assert_eq!(b1.header.previous_hash, compute_block_digest(b0));
}

#[test]
fn committed_blocks_carry_quorum() {
    let mut engine = engine_for(1);
    engine.start_round();
    engine.build_proposal(1);
    // A vote from outside the topology is ignored, as is a repeated vote.
    assert!(!engine.on_vote(9));
    assert!(!engine.on_vote(2));
    assert!(!engine.on_vote(2));
    assert!(engine.on_vote(4));
    engine.commit();
    let block = engine.store.get(0).unwrap();
    assert_eq!(block.signatures, vec![1, 2, 4]);
    assert_eq!(block.topology, vec![1, 2, 3, 4]);
}

#[test]
fn replay_rebuilds_identical_snapshots() {
    let mut engine = setup_funded_engine();
    let u = acc("u", "a");
    commit_round(
        &mut engine,
        vec![tx_of(u.clone(), vec![Instruction::Burn { asset: coin_of(&u), amount: 30 }])],
    );
    let genesis_a = World::new(vec![1, 2, 3, 4], default_validator());
    let genesis_b = World::new(vec![1, 2, 3, 4], default_validator());
    let replayed_a = replay(genesis_a, &engine.store);
    let replayed_b = replay(genesis_b, &engine.store);
    let bytes_a = encode_world(&replayed_a);
    let bytes_b = encode_world(&replayed_b);
    assert_eq!(bytes_a, bytes_b);
    assert_eq!(bytes_a, encode_world(&engine.world));
    assert_eq!(balance(&replayed_a, &coin_of(&u)), 70);
}

#[test]
fn recorded_rejection_reproducible_from_prior_state() {
    let mut engine = setup_funded_engine();
    let u = acc("u", "a");
    let overdraw = Instruction::Burn { asset: coin_of(&u), amount: 500 };
    commit_round(&mut engine, vec![tx_of(u.clone(), vec![overdraw])]);
    let recorded = engine.store.get(1).unwrap().outcomes[0];
    assert_eq!(recorded, Some(RejectionReason::InsufficientBalance));
    // Rebuild the state immediately prior to the block and re-execute the
    // rejected transaction's instructions against it.
    let mut prior = World::new(vec![1, 2, 3, 4], default_validator());
    let first = engine.store.get(0).unwrap();
    for tx in &first.transactions {
        let policy = prior.validator.duplicate();
        let _ = execute_transaction(&mut prior, &policy, tx);
    }
    let policy = prior.validator.duplicate();
    let replayed_outcome =
        execute_transaction(&mut prior, &policy, &engine.store.get(1).unwrap().transactions[0]);
    assert_eq!(replayed_outcome, Err(RejectionReason::InsufficientBalance));
}

#[test]
fn quantities_never_negative_across_heights() {
    let mut engine = setup_funded_engine();
    let u = acc("u", "a");
    let v = acc("v", "a");
    commit_round(
        &mut engine,
        vec![tx_of(
            u.clone(),
            vec![
                Instruction::RegisterAccount { id: v.clone(), key: 9 },
                Instruction::Transfer {
                    source: u.clone(),
                    destination: v.clone(),
                    definition: def("coin", "a"),
                    amount: 100,
                },
                Instruction::Burn { asset: coin_of(&v), amount: 100 },
            ],
        )],
    );
    assert_eq!(engine.store.get(1).unwrap().outcomes, vec![None]);
    for asset in &engine.world.assets {
        assert!(asset.quantity >= u64::MIN);
    }
    assert_eq!(balance(&engine.world, &coin_of(&u)), 0);
    assert_eq!(balance(&engine.world, &coin_of(&v)), 0);
}

#[test]
fn rejection_reasons_for_registration_conflicts() {
    let mut engine = setup_funded_engine();
    let u = acc("u", "a");
    commit_round(
        &mut engine,
        vec![
            tx_of(u.clone(), vec![Instruction::RegisterDomain { id: "a".to_string() }]),
            tx_of(u.clone(), vec![Instruction::UnregisterDomain { id: "b".to_string() }]),
            tx_of(
                u.clone(),
                vec![Instruction::RegisterAccount { id: acc("w", "nowhere"), key: 1 }],
            ),
            tx_of(u.clone(), vec![Instruction::RegisterAccount { id: u.clone(), key: 1 }]),
            tx_of(u.clone(), vec![Instruction::UnregisterAccount { id: acc("ghost", "a") }]),
            tx_of(
                u.clone(),
                vec![Instruction::RegisterAssetDefinition { id: def("coin", "a") }],
            ),
            tx_of(
                u.clone(),
                vec![Instruction::UnregisterAssetDefinition { id: def("gem", "a") }],
            ),
        ],
    );
    let block = engine.store.get(1).unwrap();
    assert_eq!(
        block.outcomes,
        vec![
            Some(RejectionReason::DomainAlreadyExists),
            Some(RejectionReason::DomainNotFound),
            Some(RejectionReason::DomainNotFound),
            Some(RejectionReason::AccountAlreadyExists),
            Some(RejectionReason::AccountNotFound),
            Some(RejectionReason::AssetDefinitionAlreadyExists),
            Some(RejectionReason::AssetDefinitionNotFound),
        ]
    );
}

#[test]
fn rejection_reasons_for_asset_arithmetic() {
    let mut engine = setup_funded_engine();
    let u = acc("u", "a");
    commit_round(
        &mut engine,
        vec![
            tx_of(
                u.clone(),
                vec![Instruction::Mint {
                    asset: AssetId { definition: def("gem", "a"), account: u.clone() },
                    amount: 1,
                }],
            ),
            tx_of(
                u.clone(),
                vec![Instruction::Mint {
                    asset: coin_of(&acc("ghost", "a")),
                    amount: 1,
                }],
            ),
            tx_of(u.clone(), vec![Instruction::Mint { asset: coin_of(&u), amount: u64::MAX }]),
            tx_of(
                u.clone(),
                vec![Instruction::Burn {
                    asset: AssetId { definition: def("coin", "a"), account: acc("ghost", "a") },
                    amount: 1,
                }],
            ),
            tx_of(u.clone(), vec![Instruction::Burn { asset: coin_of(&u), amount: 101 }]),
            tx_of(
                u.clone(),
                vec![Instruction::Transfer {
                    source: u.clone(),
                    destination: acc("ghost", "a"),
                    definition: def("coin", "a"),
                    amount: 1,
                }],
            ),
        ],
    );
    let block = engine.store.get(1).unwrap();
    assert_eq!(
        block.outcomes,
        vec![
            Some(RejectionReason::AssetDefinitionNotFound),
            Some(RejectionReason::AccountNotFound),
            Some(RejectionReason::Overflow),
            Some(RejectionReason::AssetNotFound),
            Some(RejectionReason::InsufficientBalance),
            Some(RejectionReason::AccountNotFound),
        ]
    );
    assert_eq!(balance(&engine.world, &coin_of(&u)), 100);
}

#[test]
fn transfer_overflow_rolls_back_withdrawal() {
    let mut engine = setup_funded_engine();
    let u = acc("u", "a");
    let v = acc("v", "a");
    commit_round(
        &mut engine,
        vec![tx_of(
            u.clone(),
            vec![
                Instruction::RegisterAccount { id: v.clone(), key: 9 },
                Instruction::Mint { asset: coin_of(&v), amount: u64::MAX },
            ],
        )],
    );
    commit_round(
        &mut engine,
        vec![tx_of(
            u.clone(),
            vec![Instruction::Transfer {
                source: u.clone(),
                destination: v.clone(),
                definition: def("coin", "a"),
                amount: 1,
            }],
        )],
    );
    let block = engine.store.get(2).unwrap();
    assert_eq!(block.outcomes, vec![Some(RejectionReason::Overflow)]);
    assert_eq!(balance(&engine.world, &coin_of(&u)), 100);
    assert_eq!(balance(&engine.world, &coin_of(&v)), u64::MAX);
}

#[test]
fn rejection_reasons_for_grants_and_peers() {
    let mut engine = setup_funded_engine();
    let u = acc("u", "a");
    let grant = Instruction::Grant {
        token: "can_fish".to_string(),
        payload: "".to_string(),
        to: u.clone(),
    };
    let grant_again = Instruction::Grant {
        token: "can_fish".to_string(),
        payload: "".to_string(),
        to: u.clone(),
    };
    commit_round(
        &mut engine,
        vec![
            tx_of(u.clone(), vec![grant]),
            tx_of(u.clone(), vec![grant_again]),
            tx_of(
                u.clone(),
                vec![Instruction::Revoke {
                    token: "can_swim".to_string(),
                    payload: "".to_string(),
                    from: u.clone(),
                }],
            ),
            tx_of(
                u.clone(),
                vec![Instruction::Grant {
                    token: "can_fish".to_string(),
                    payload: "".to_string(),
                    to: acc("ghost", "a"),
                }],
            ),
            tx_of(u.clone(), vec![Instruction::RegisterPeer { peer: 2 }]),
            tx_of(u.clone(), vec![Instruction::UnregisterPeer { peer: 77 }]),
        ],
    );
    let block = engine.store.get(1).unwrap();
    assert_eq!(
        block.outcomes,
        vec![
            None,
            Some(RejectionReason::GrantAlreadyExists),
            Some(RejectionReason::GrantNotFound),
            Some(RejectionReason::AccountNotFound),
            Some(RejectionReason::PeerAlreadyRegistered),
            Some(RejectionReason::PeerNotFound),
        ]
    );
}

#[test]
fn last_peer_cannot_be_unregistered() {
    let mut engine = ConsensusEngine::new(1, vec![1], default_validator());
    engine
        .submit(tx_of(acc("u", "a"), vec![Instruction::UnregisterPeer { peer: 1 }]))
        .unwrap();
    engine.start_round();
    engine.build_proposal(1);
    assert!(engine.on_vote(1));
    engine.commit();
    let block = engine.store.get(0).unwrap();
    assert_eq!(block.outcomes, vec![Some(RejectionReason::LastPeer)]);
}

#[test]
fn syntactic_acceptance_rules() {
    let mut engine = engine_for(1);
    let mut unsigned = tx_of(acc("u", "a"), vec![Instruction::RegisterDomain {
        id: "a".to_string(),
    }]);
    unsigned.signature = 0;
    assert_eq!(engine.submit(unsigned), Err(AcceptError::MissingSignature));
    let empty = tx_of(acc("u", "a"), vec![]);
    assert_eq!(engine.submit(empty), Err(AcceptError::Empty));
    let mut too_many: Vec<Instruction> = Vec::new();
    for _ in 0..4097 {
        too_many.push(Instruction::RegisterDomain { id: "a".to_string() });
    }
    assert_eq!(
        engine.submit(tx_of(acc("u", "a"), too_many)),
        Err(AcceptError::TooManyInstructions)
    );
    assert_eq!(engine.pending.len(), 0);
}

#[test]
fn expired_transactions_drop_out_of_the_pool() {
    let mut engine = engine_for(1);
    let mut stale = tx_of(acc("u", "a"), vec![Instruction::RegisterDomain {
        id: "a".to_string(),
    }]);
    stale.created_at_ms = 0;
    stale.time_to_live_ms = 5;
    engine.submit(stale).unwrap();
    engine.start_round();
    engine.build_proposal(100);
    let candidate = engine.candidate.as_ref().unwrap();
    assert_eq!(candidate.transactions.len(), 0);
    assert_eq!(engine.pending.len(), 0);
}

#[test]
fn peers_revalidate_and_reject_tampered_outcomes() {
    let mut leader = setup_funded_engine();
    let u = acc("u", "a");
    leader
        .submit(tx_of(u.clone(), vec![Instruction::Burn { asset: coin_of(&u), amount: 500 }]))
        .unwrap();
    leader.start_round();
    leader.build_proposal(1);
    let candidate = leader.candidate.as_ref().unwrap();
    // A peer with the same history re-executes the batch independently.
    let mut peer = setup_funded_engine();
    peer.peer_id = 2;
    assert!(peer.validate_proposal(&candidate.transactions, &candidate.outcomes));
    // A leader claiming success for an overdrawn burn is caught.
    let tampered = vec![None];
    assert!(!peer.validate_proposal(&candidate.transactions, &tampered));
}

#[test]
fn policy_budget_exhaustion_is_a_denial() {
    let starved = Validator {
        version: 1,
        fuel_budget: 0,
        requirements: vec![(InstructionKind::Upgrade, "can_upgrade_validator".to_string())],
    };
    let mut engine = ConsensusEngine::new(1, vec![1, 2, 3, 4], starved);
    commit_round(
        &mut engine,
        vec![tx_of(acc("u", "a"), vec![Instruction::RegisterDomain { id: "a".to_string() }])],
    );
    let block = engine.store.get(0).unwrap();
    assert_eq!(
        block.outcomes,
        vec![Some(RejectionReason::Denied(DenyReason::ResourceExhausted))]
    );
}

#[test]
fn store_recovery_discards_torn_tail() {
    let mut engine = setup_funded_engine();
    commit_round(&mut engine, vec![]);
    let b0 = encode_block(engine.store.get(0).unwrap());
    let b1 = encode_block(engine.store.get(1).unwrap());
    let clean = recover_records(&engine.store.log);
    assert_eq!(clean, vec![b0.clone(), b1.clone()]);
    // A partial length prefix at the tail is discarded.
    let mut torn = engine.store.log.clone();
    torn.extend_from_slice(&[9, 0, 0]);
    assert_eq!(recover_records(&torn), vec![b0.clone(), b1.clone()]);
    // A record cut off inside its body is discarded too.
    let mut cut = engine.store.log.clone();
    cut.extend_from_slice(&[16, 0, 0, 0, 0, 0, 0, 0, 1, 2, 3]);
    assert_eq!(recover_records(&cut), vec![b0, b1]);
    assert_eq!(recover_records(&Vec::new()), Vec::<Vec<u8>>::new());
    // A catching-up reader restarts from any height.
    assert_eq!(engine.store.replay_from(0).len(), 2);
    assert_eq!(engine.store.replay_from(1).len(), 1);
    assert_eq!(engine.store.replay_from(1)[0].header.height, 1);
    assert_eq!(engine.store.replay_from(2).len(), 0);
}

#[test]
fn digest_fold_exact_values() {
    assert_eq!(digest(&Vec::new()), 0xcbf29ce484222325);
    assert_eq!(digest(&vec![0x61]), 0xaf63dc4c8601ec8c);
    assert_eq!(digest(&vec![0x61, 0x62]), 0x089c4407b545986a);
}

#[test]
fn required_signatures_formula() {
    assert_eq!(Topology::new(vec![1], 0).required_signatures(), 1);
    assert_eq!(Topology::new(vec![1, 2, 3, 4], 0).required_signatures(), 3);
    assert_eq!(Topology::new(vec![1, 2, 3, 4, 5, 6, 7], 0).required_signatures(), 5);
}

#[test]
fn metadata_and_peer_reconfiguration() {
    let mut engine = setup_funded_engine();
    let u = acc("u", "a");
    commit_round(
        &mut engine,
        vec![tx_of(
            u.clone(),
            vec![
                Instruction::SetKeyValue {
                    account: u.clone(),
                    key: "email".to_string(),
                    value: "u@example".to_string(),
                },
                Instruction::RegisterPeer { peer: 5 },
            ],
        )],
    );
    assert_eq!(engine.store.get(1).unwrap().outcomes, vec![None]);
    // The topology for the next height includes the registered peer.
    assert_eq!(engine.topology.peers, vec![1, 2, 3, 4, 5]);
    let i = engine.world.find_account(&u).unwrap();
    assert_eq!(
        engine.world.accounts[i].metadata,
        vec![("email".to_string(), "u@example".to_string())]
    );
}
