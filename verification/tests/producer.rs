//! Driving the production state machine through whole attempts.

use filtering_consensus::block::{
    validate_import_params, Block, BlockExecutor, BlockOrigin, Candidate, DigestItem, ForkChoice,
    Header, Proposal, SEAL_ENGINE_ID,
};
use filtering_consensus::bundle::InherentBundle;
use filtering_consensus::pallet::{
    check_inherent, create_inherent, Call, InherentDataProvider, ParachainState,
    StoredValidationData,
};
use filtering_consensus::producer::{
    Action, Attempt, Event, FilteringConsensus, ValidationData, PARACHAIN_INHERENT_IDENTIFIER,
    PROPOSAL_BUDGET_MILLIS,
};

fn producer() -> FilteringConsensus {
    FilteringConsensus::new(200, vec![7, 7, 7, 7])
}

fn validation_data(height: u32) -> ValidationData {
    ValidationData { relay_parent_number: height, relay_parent_storage_root: vec![1, 2, 3] }
}

fn draft_block() -> Block {
    Block {
        header: Header {
            parent_hash: vec![5; 32],
            number: 1,
            digest: vec![DigestItem::Other(vec![0xAB])],
        },
        extrinsics: vec![vec![1], vec![2, 3]],
    }
}

fn base_bundle(height: u32) -> InherentBundle {
    let mut base = InherentBundle::new();
    InherentDataProvider::from_relay_height(height)
        .provide_inherent_data(&mut base)
        .unwrap();
    base
}

/// Runs an eligible attempt up to the point where the proposer is asked,
/// returning the attempt and the assembled bundle.
fn advance_to_proposing(height: u32) -> (Attempt, InherentBundle) {
    let p = producer();
    let (attempt, action) = p.begin_attempt(&validation_data(height), &vec![9; 8]);
    assert!(matches!(action, Action::QueryKeystore));
    let (attempt, action) = attempt.step(Event::KeyReport(true));
    match action {
        Action::QueryEligibility(author, h) => {
            assert_eq!(author, vec![7, 7, 7, 7]);
            assert_eq!(h, height);
        },
        other => panic!("expected the eligibility query, got {other:?}"),
    }
    let (attempt, action) = attempt.step(Event::Eligibility(true));
    assert!(matches!(action, Action::CollectBaseInherents));
    let (attempt, action) = attempt.step(Event::BaseInherents(Some(base_bundle(height))));
    match action {
        Action::FetchStateProof(relay_parent, para_id) => {
            assert_eq!(relay_parent, vec![9; 8]);
            assert_eq!(para_id, 200);
        },
        other => panic!("expected the state-proof fetch, got {other:?}"),
    }
    let (attempt, action) = attempt.step(Event::StateProof(Some(vec![0xAA, 0xBB])));
    match action {
        Action::Propose(bundle, budget) => {
            assert_eq!(budget, PROPOSAL_BUDGET_MILLIS);
            (attempt, bundle)
        },
        other => panic!("expected the proposal, got {other:?}"),
    }
}

fn seals_in(header: &Header) -> usize {
    header
        .digest
        .iter()
        .filter(|d| matches!(d, DigestItem::Seal(e, _) if *e == SEAL_ENGINE_ID))
        .count()
}

/// Finishes an attempt that stands at `Proposing`, with a successful import.
fn finish(attempt: Attempt, proposal: Proposal) -> Candidate {
    let (attempt, action) = attempt.step(Event::Proposed(Some(proposal)));
    let params = match action {
        Action::Import(params) => params,
        other => panic!("expected the import, got {other:?}"),
    };
    assert_eq!(params.origin, BlockOrigin::Own);
    assert_eq!(params.fork_choice, Some(ForkChoice::Custom(false)));
    assert!(params.storage_changes.is_some());
    let (attempt, action) = attempt.step(Event::Imported(true));
    assert!(matches!(action, Action::Finish));
    attempt.into_candidate().unwrap()
}

#[test]
fn eligible_attempt_produces_a_sealed_candidate() {
    // identity eligible at relay height 100: production succeeds and the
    // embedded ceiling passes the on-chain check at that height
    let (attempt, bundle) = advance_to_proposing(100);
    let call = create_inherent(&bundle).unwrap();
    assert_eq!(call, Call::SetMaxRelayParent(100));
    let state = ParachainState {
        validation_data: Some(StoredValidationData { relay_parent_number: 100 }),
    };
    assert!(check_inherent(&state, &call).is_ok());
    assert!(bundle.get(PARACHAIN_INHERENT_IDENTIFIER).is_some());

    let draft = draft_block();
    let proposal = Proposal { block: draft, storage_changes: vec![0xCC], proof: vec![0xDD] };
    let candidate = finish(attempt, proposal);
    assert_eq!(candidate.proof, vec![0xDD]);
    assert_eq!(candidate.block.extrinsics, draft_block().extrinsics);

    // the chain has moved to 101 and a candidate embedded ceiling 150: the
    // validator rejects it as fatally stale
    let state2 = ParachainState {
        validation_data: Some(StoredValidationData { relay_parent_number: 101 }),
    };
    let err = check_inherent(&state2, &Call::SetMaxRelayParent(150)).unwrap_err();
    assert!(err.is_fatal_error());
}

#[test]
fn candidate_carries_the_seal_exactly_once_and_the_import_none() {
    let (attempt, _) = advance_to_proposing(100);
    let draft = draft_block();
    let (attempt, action) = attempt.step(Event::Proposed(Some(Proposal {
        block: draft,
        storage_changes: vec![0xCC],
        proof: vec![0xDD],
    })));
    let params = match action {
        Action::Import(params) => params,
        other => panic!("expected the import, got {other:?}"),
    };
    // the header the block is imported (and hashed) under has no seal: the
    // seal rides along separately and is appended after import
    assert_eq!(params.header, draft_block().header);
    assert_eq!(seals_in(&params.header), 0);
    assert_eq!(params.post_digests, vec![DigestItem::Seal(SEAL_ENGINE_ID, vec![])]);
    assert_eq!(params.body, Some(draft_block().extrinsics));

    let (attempt, _) = attempt.step(Event::Imported(true));
    let candidate = attempt.into_candidate().unwrap();
    assert_eq!(seals_in(&candidate.block.header), 1);
    // appended last, after everything the proposer drafted
    assert_eq!(
        candidate.block.header.digest.last(),
        Some(&DigestItem::Seal(SEAL_ENGINE_ID, vec![]))
    );
}

#[test]
fn sealed_block_deconstructs_back_to_the_draft() {
    let (attempt, _) = advance_to_proposing(100);
    let candidate = finish(
        attempt,
        Proposal { block: draft_block(), storage_changes: vec![0xCC], proof: vec![0xDD] },
    );
    let stripped = BlockExecutor::strip_seals(candidate.block);
    assert_eq!(stripped, draft_block());
}

#[test]
fn ineligible_attempt_is_inert() {
    // the oracle says no: no proposer, no importer, no candidate
    let p = producer();
    let (attempt, _) = p.begin_attempt(&validation_data(100), &vec![9; 8]);
    let (attempt, _) = attempt.step(Event::KeyReport(true));
    let (attempt, action) = attempt.step(Event::Eligibility(false));
    assert!(matches!(action, Action::Stop));
    // whatever is reported afterwards, the attempt only ever answers Stop
    let (attempt, action) = attempt.step(Event::Proposed(Some(Proposal {
        block: draft_block(),
        storage_changes: vec![],
        proof: vec![],
    })));
    assert!(matches!(action, Action::Stop));
    let (attempt, action) = attempt.step(Event::Imported(true));
    assert!(matches!(action, Action::Stop));
    assert!(attempt.into_candidate().is_none());
}

#[test]
fn missing_key_is_diagnostic_only() {
    // the keystore check is logged but does not gate production
    let p = producer();
    let (attempt, _) = p.begin_attempt(&validation_data(100), &vec![9; 8]);
    let (_, action) = attempt.step(Event::KeyReport(false));
    assert!(matches!(action, Action::QueryEligibility(..)));
}

#[test]
fn assembly_failures_abort_the_attempt() {
    // providers failed
    let p = producer();
    let (attempt, _) = p.begin_attempt(&validation_data(100), &vec![9; 8]);
    let (attempt, _) = attempt.step(Event::KeyReport(true));
    let (attempt, _) = attempt.step(Event::Eligibility(true));
    let (attempt, action) = attempt.step(Event::BaseInherents(None));
    assert!(matches!(action, Action::Stop));
    assert!(attempt.into_candidate().is_none());

    // no state proof for the relay parent (stale snapshot): ordinary abort
    let p = producer();
    let (attempt, _) = p.begin_attempt(&validation_data(100), &vec![9; 8]);
    let (attempt, _) = attempt.step(Event::KeyReport(true));
    let (attempt, _) = attempt.step(Event::Eligibility(true));
    let (attempt, _) = attempt.step(Event::BaseInherents(Some(base_bundle(100))));
    let (attempt, action) = attempt.step(Event::StateProof(None));
    assert!(matches!(action, Action::Stop));
    assert!(attempt.into_candidate().is_none());

    // a tag collision on the parachain-state tag fails the whole assembly
    let p = producer();
    let (attempt, _) = p.begin_attempt(&validation_data(100), &vec![9; 8]);
    let (attempt, _) = attempt.step(Event::KeyReport(true));
    let (attempt, _) = attempt.step(Event::Eligibility(true));
    let mut occupied = base_bundle(100);
    occupied.put_data(PARACHAIN_INHERENT_IDENTIFIER, vec![0]).unwrap();
    let (attempt, _) = attempt.step(Event::BaseInherents(Some(occupied)));
    let (attempt, action) = attempt.step(Event::StateProof(Some(vec![1])));
    assert!(matches!(action, Action::Stop));
    assert!(attempt.into_candidate().is_none());
}

#[test]
fn proposal_failure_aborts_the_attempt() {
    let (attempt, _) = advance_to_proposing(100);
    let (attempt, action) = attempt.step(Event::Proposed(None));
    assert!(matches!(action, Action::Stop));
    assert!(attempt.into_candidate().is_none());
}

#[test]
fn failed_import_leaves_the_chain_untouched() {
    // the test's local chain only grows when an import succeeds
    let chain: Vec<Header> = vec![Header { parent_hash: vec![], number: 0, digest: vec![] }];
    let head_before = chain.len();

    let (attempt, _) = advance_to_proposing(100);
    let (attempt, action) = attempt.step(Event::Proposed(Some(Proposal {
        block: draft_block(),
        storage_changes: vec![0xCC],
        proof: vec![0xDD],
    })));
    let _params = match action {
        Action::Import(params) => params,
        other => panic!("expected the import, got {other:?}"),
    };
    // the importer reports a storage error: the chain is not extended
    let (attempt, action) = attempt.step(Event::Imported(false));
    assert!(matches!(action, Action::Stop));
    assert!(attempt.into_candidate().is_none());
    assert_eq!(chain.len(), head_before);
    assert_eq!(chain.last().unwrap().number, 0);
}

#[test]
fn assembly_is_deterministic() {
    // the same facts assembled twice give bit-identical bundles
    let (_, first) = advance_to_proposing(100);
    let (_, second) = advance_to_proposing(100);
    assert_eq!(first, second);
}

#[test]
fn importer_rejects_params_without_storage_changes() {
    let (attempt, _) = advance_to_proposing(100);
    let (_, action) = attempt.step(Event::Proposed(Some(Proposal {
        block: draft_block(),
        storage_changes: vec![0xCC],
        proof: vec![0xDD],
    })));
    let mut params = match action {
        Action::Import(params) => params,
        other => panic!("expected the import, got {other:?}"),
    };
    assert!(validate_import_params(&params));
    params.storage_changes = None;
    assert!(!validate_import_params(&params));
}
