//! The candidate-production state machine.
//!
//! One production attempt runs the pipeline `CheckingKey →
//! CheckingEligibility → CollectingBase → FetchingProof → Proposing →
//! Importing → Done`, aborting at the first failure. The outside work — the
//! keystore query, the eligibility oracle, the registered inherent providers,
//! the relay-chain state proof, the proposer and the importer — is done by the
//! driver: each step returns the `Action` to perform next and consumes the
//! `Event` the driver reports back. The decisions in between — gating,
//! inherent assembly, sealing — are made here.

use vstd::prelude::*;
use crate::block::{copy_bytes, seal_proposal, seal_spec, Candidate, ImportParams, Proposal};
use crate::bundle::{has_tag, with_entry, InherentBundle};

verus! {

/// The eight-byte tag of the parachain-system inherent, `sysi1337`,
/// little-endian: the tag the relay-chain state proof is filed under.
pub const PARACHAIN_INHERENT_IDENTIFIER: u64 = 0x3733_3331_6973_7973;

/// Wall-clock budget handed to the proposer for building one block, in
/// milliseconds.
pub const PROPOSAL_BUDGET_MILLIS: u64 = 500;

/// The relay-chain snapshot a production attempt is invoked with.
#[derive(Debug)]
pub struct ValidationData {
    /// Height of the relay-chain block the attempt builds under.
    pub relay_parent_number: u32,
    /// State-proof material for the relay parent, carried opaquely.
    pub relay_parent_storage_root: Vec<u8>,
}

/// Where an attempt stands, with what it has gathered so far.
#[derive(Debug)]
pub enum Stage {
    /// Asking the keystore whether the author key is held (diagnostic only).
    CheckingKey,
    /// Asking the eligibility oracle.
    CheckingEligibility,
    /// Collecting the base inherents from the registered providers.
    CollectingBase,
    /// Fetching the relay-chain state proof, to be filed into the base
    /// bundle.
    FetchingProof {
        /// The base inherents collected so far.
        base: InherentBundle,
    },
    /// Waiting for the external proposer.
    Proposing,
    /// Waiting for the local importer; the candidate is ready.
    Importing {
        /// The sealed candidate to release if the import succeeds.
        candidate: Candidate,
    },
    /// The attempt succeeded; the candidate awaits hand-off.
    Done {
        /// The produced candidate.
        candidate: Candidate,
    },
    /// The attempt is over with nothing produced.
    Aborted,
}

/// What the driver reports back after performing an action.
#[derive(Debug)]
pub enum Event {
    /// Whether the keystore holds the author key.
    KeyReport(bool),
    /// The oracle's answer: may this author produce at this relay height?
    Eligibility(bool),
    /// The base inherents from the registered providers, `None` on failure.
    BaseInherents(Option<InherentBundle>),
    /// The encoded parachain-state inherent payload, `None` when the relay
    /// chain could not supply a proof for the relay parent.
    StateProof(Option<Vec<u8>>),
    /// What the proposer built, `None` on failure or an exceeded budget.
    Proposed(Option<Proposal>),
    /// Whether the local import succeeded.
    Imported(bool),
}

/// The next outside call the driver must make.
#[derive(Debug)]
pub enum Action {
    /// Ask the keystore whether it holds the key for the encoded author.
    QueryKeystore,
    /// Ask the oracle whether the author may produce at the relay height.
    QueryEligibility(Vec<u8>, u32),
    /// Collect the base inherents from the registered providers.
    CollectBaseInherents,
    /// Fetch the relay-chain state proof for the relay parent and para id.
    FetchStateProof(Vec<u8>, u32),
    /// Hand the assembled inherents to the proposer, with an empty
    /// extrinsic-inclusion filter and the given budget in milliseconds.
    Propose(InherentBundle, u64),
    /// Import the sealed block locally.
    Import(ImportParams),
    /// Take the candidate: the attempt succeeded.
    Finish,
    /// Nothing more to do: the attempt is over.
    Stop,
}

/// A stage, payload set aside.
#[derive(PartialEq, Eq, Structural, Clone, Copy, Debug)]
pub enum StageKind {
    CheckingKey,
    CheckingEligibility,
    CollectingBase,
    FetchingProof,
    Proposing,
    Importing,
    Done,
    Aborted,
}

/// An action, payload set aside.
#[derive(PartialEq, Eq, Structural, Clone, Copy, Debug)]
pub enum ActionKind {
    QueryKeystore,
    QueryEligibility,
    CollectBaseInherents,
    FetchStateProof,
    Propose,
    Import,
    Finish,
    Stop,
}

/// The kind of a stage.
pub open spec fn stage_kind(s: &Stage) -> StageKind {
    match s {
        Stage::CheckingKey => StageKind::CheckingKey,
        Stage::CheckingEligibility => StageKind::CheckingEligibility,
        Stage::CollectingBase => StageKind::CollectingBase,
        Stage::FetchingProof { .. } => StageKind::FetchingProof,
        Stage::Proposing => StageKind::Proposing,
        Stage::Importing { .. } => StageKind::Importing,
        Stage::Done { .. } => StageKind::Done,
        Stage::Aborted => StageKind::Aborted,
    }
}

/// The kind of an action.
pub open spec fn action_kind(a: &Action) -> ActionKind {
    match a {
        Action::QueryKeystore => ActionKind::QueryKeystore,
        Action::QueryEligibility(..) => ActionKind::QueryEligibility,
        Action::CollectBaseInherents => ActionKind::CollectBaseInherents,
        Action::FetchStateProof(..) => ActionKind::FetchStateProof,
        Action::Propose(..) => ActionKind::Propose,
        Action::Import(..) => ActionKind::Import,
        Action::Finish => ActionKind::Finish,
        Action::Stop => ActionKind::Stop,
    }
}

/// Which stage-to-stage moves the machine can make, and with which action.
/// Every failure, mismatch or abort falls into the first line; the pipeline
/// only ever advances one stage at a time.
pub open spec fn kind_step(s: StageKind, s2: StageKind, a: ActionKind) -> bool {
    ||| (s != StageKind::Done && s2 == StageKind::Aborted && a == ActionKind::Stop)
    ||| (s == StageKind::CheckingKey && s2 == StageKind::CheckingEligibility && a
        == ActionKind::QueryEligibility)
    ||| (s == StageKind::CheckingEligibility && s2 == StageKind::CollectingBase && a
        == ActionKind::CollectBaseInherents)
    ||| (s == StageKind::CollectingBase && s2 == StageKind::FetchingProof && a
        == ActionKind::FetchStateProof)
    ||| (s == StageKind::FetchingProof && s2 == StageKind::Proposing && a == ActionKind::Propose)
    ||| (s == StageKind::Proposing && s2 == StageKind::Importing && a == ActionKind::Import)
    ||| (s == StageKind::Importing && s2 == StageKind::Done && a == ActionKind::Finish)
    ||| (s == StageKind::Done && s2 == StageKind::Done && a == ActionKind::Stop)
}

/// The production side of the consensus: holds the identity this node
/// produces under and the para id it produces for. The collaborators that do
/// the outside work belong to the driver.
#[derive(Clone, Debug)]
pub struct FilteringConsensus {
    /// The parachain this node produces blocks for.
    pub para_id: u32,
    /// The author identity, in its encoded form.
    pub author: Vec<u8>,
}

/// One production attempt in flight.
pub struct Attempt {
    /// The parachain the attempt produces for.
    pub para_id: u32,
    /// The author identity, encoded.
    pub author: Vec<u8>,
    /// Hash of the relay-chain block the attempt builds under.
    pub relay_parent: Vec<u8>,
    /// Height of that relay-chain block.
    pub relay_height: u32,
    /// Where the attempt stands.
    pub stage: Stage,
}

impl Attempt {
    /// Bundles the attempt carries are well-formed.
    pub open spec fn wf(&self) -> bool {
        match &self.stage {
            Stage::FetchingProof { base } => base.wf(),
            _ => true,
        }
    }
}

/// Events carrying a bundle carry a well-formed one.
pub open spec fn event_wf(e: &Event) -> bool {
    match e {
        Event::BaseInherents(Some(b)) => b.wf(),
        _ => true,
    }
}

impl FilteringConsensus {
    /// A new producer for `para_id`, authoring as `author`.
    pub fn new(para_id: u32, author: Vec<u8>) -> (r: FilteringConsensus)
        ensures
            r.para_id == para_id,
            r.author@ == author@,
    {
        FilteringConsensus { para_id, author }
    }

    /// Starts one production attempt under the given relay parent: the first
    /// thing to do is the (diagnostic) keystore query.
    pub fn begin_attempt(&self, validation_data: &ValidationData, relay_parent: &Vec<u8>) -> (r: (
        Attempt,
        Action,
    ))
        ensures
            r.0.para_id == self.para_id,
            r.0.author@ == self.author@,
            r.0.relay_parent@ == relay_parent@,
            r.0.relay_height == validation_data.relay_parent_number,
            stage_kind(&r.0.stage) == StageKind::CheckingKey,
            action_kind(&r.1) == ActionKind::QueryKeystore,
            r.0.wf(),
    {
        let attempt = Attempt {
            para_id: self.para_id,
            author: copy_bytes(&self.author),
            relay_parent: copy_bytes(relay_parent),
            relay_height: validation_data.relay_parent_number,
            stage: Stage::CheckingKey,
        };
        (attempt, Action::QueryKeystore)
    }
}

impl Attempt {
    /// Consumes the driver's report and moves one stage: returns the attempt
    /// as it now stands and the next action for the driver.
    pub fn step(self, event: Event) -> (r: (Attempt, Action))
        requires
            self.wf(),
            event_wf(&event),
        ensures
            r.0.wf(),
            r.0.para_id == self.para_id,
            r.0.author@ == self.author@,
            r.0.relay_parent@ == self.relay_parent@,
            r.0.relay_height == self.relay_height,
            kind_step(stage_kind(&self.stage), stage_kind(&r.0.stage), action_kind(&r.1)),
            // The keystore report is diagnostic: either answer moves on to the
            // eligibility query for this attempt's author and relay height.
            self.stage matches Stage::CheckingKey ==> (event matches Event::KeyReport(_) ==> {
                &&& stage_kind(&r.0.stage) == StageKind::CheckingEligibility
                &&& r.1 matches Action::QueryEligibility(a, h) && a@ == self.author@ && h
                    == self.relay_height
            }),
            // The oracle's no ends the attempt before any side effect.
            self.stage matches Stage::CheckingEligibility ==> (event matches Event::Eligibility(e)
                ==> if e {
                    stage_kind(&r.0.stage) == StageKind::CollectingBase && r.1
                        matches Action::CollectBaseInherents
                } else {
                    stage_kind(&r.0.stage) == StageKind::Aborted && r.1 matches Action::Stop
                }),
            self.stage matches Stage::CollectingBase ==> (event matches Event::BaseInherents(
                Some(b),
            ) ==> {
                &&& r.0.stage matches Stage::FetchingProof { base } && base@ == b@
                &&& r.1 matches Action::FetchStateProof(rp, pid) && rp@ == self.relay_parent@
                    && pid == self.para_id
            }),
            self.stage matches Stage::CollectingBase ==> (event matches Event::BaseInherents(
                None::<InherentBundle>,
            ) ==> stage_kind(&r.0.stage) == StageKind::Aborted && r.1 matches Action::Stop),
            // Assembly files the state proof under its fixed tag; a collision
            // fails the whole assembly, nothing partial goes out.
            self.stage matches Stage::FetchingProof { base } ==> (event
                matches Event::StateProof(Some(p)) ==> if has_tag(
                base@,
                PARACHAIN_INHERENT_IDENTIFIER,
            ) {
                stage_kind(&r.0.stage) == StageKind::Aborted && r.1 matches Action::Stop
            } else {
                &&& stage_kind(&r.0.stage) == StageKind::Proposing
                &&& r.1 matches Action::Propose(bundle, budget) && bundle@ == with_entry(
                    base@,
                    PARACHAIN_INHERENT_IDENTIFIER,
                    p@,
                ) && bundle.wf() && budget == PROPOSAL_BUDGET_MILLIS
            }),
            self.stage matches Stage::FetchingProof { base } ==> (event
                matches Event::StateProof(None::<Vec<u8>>) ==> stage_kind(&r.0.stage)
                == StageKind::Aborted && r.1 matches Action::Stop),
            // Sealing: the import sees the draft header; the candidate is the
            // draft with the seal appended.
            self.stage matches Stage::Proposing ==> (event matches Event::Proposed(Some(p)) ==> {
                &&& r.0.stage matches Stage::Importing { candidate } && r.1
                    matches Action::Import(params) && seal_spec(p, params, candidate)
            }),
            self.stage matches Stage::Proposing ==> (event matches Event::Proposed(
                None::<Proposal>,
            ) ==> stage_kind(&r.0.stage) == StageKind::Aborted && r.1 matches Action::Stop),
            // A failed import releases nothing; a successful one releases the
            // candidate exactly as it was sealed.
            self.stage matches Stage::Importing { candidate } ==> (event
                matches Event::Imported(ok) ==> if ok {
                    r.0.stage matches Stage::Done { candidate: c } && c == candidate && r.1
                        matches Action::Finish
                } else {
                    stage_kind(&r.0.stage) == StageKind::Aborted && r.1 matches Action::Stop
                }),
            self.stage matches Stage::Done { candidate } ==> r.0.stage matches Stage::Done {
                candidate: c,
            } && c == candidate && r.1 matches Action::Stop,
    {
        let Attempt { para_id, author, relay_parent, relay_height, stage } = self;
        let (stage2, action): (Stage, Action) = match (stage, event) {
            (Stage::CheckingKey, Event::KeyReport(_)) => (
                Stage::CheckingEligibility,
                Action::QueryEligibility(copy_bytes(&author), relay_height),
            ),
            (Stage::CheckingEligibility, Event::Eligibility(true)) => (
                Stage::CollectingBase,
                Action::CollectBaseInherents,
            ),
            (Stage::CheckingEligibility, Event::Eligibility(false)) => (
                Stage::Aborted,
                Action::Stop,
            ),
            (Stage::CollectingBase, Event::BaseInherents(Some(base))) => (
                Stage::FetchingProof { base },
                Action::FetchStateProof(copy_bytes(&relay_parent), para_id),
            ),
            (Stage::CollectingBase, Event::BaseInherents(None)) => (Stage::Aborted, Action::Stop),
            (Stage::FetchingProof { base }, Event::StateProof(Some(p))) => {
                let mut bundle = base;
                match bundle.put_data(PARACHAIN_INHERENT_IDENTIFIER, p) {
                    Ok(()) => (Stage::Proposing, Action::Propose(bundle, PROPOSAL_BUDGET_MILLIS)),
                    Err(_) => (Stage::Aborted, Action::Stop),
                }
            },
            (Stage::FetchingProof { .. }, Event::StateProof(None)) => (
                Stage::Aborted,
                Action::Stop,
            ),
            (Stage::Proposing, Event::Proposed(Some(p))) => {
                let (params, candidate) = seal_proposal(p);
                (Stage::Importing { candidate }, Action::Import(params))
            },
            (Stage::Proposing, Event::Proposed(None)) => (Stage::Aborted, Action::Stop),
            (Stage::Importing { candidate }, Event::Imported(true)) => (
                Stage::Done { candidate },
                Action::Finish,
            ),
            (Stage::Importing { .. }, Event::Imported(false)) => (Stage::Aborted, Action::Stop),
            (Stage::Done { candidate }, _) => (Stage::Done { candidate }, Action::Stop),
            (_, _) => (Stage::Aborted, Action::Stop),
        };
        (Attempt { para_id, author, relay_parent, relay_height, stage: stage2 }, action)
    }

    /// Hands the candidate over: `Some` exactly when the attempt succeeded.
    pub fn into_candidate(self) -> (r: Option<Candidate>)
        ensures
            stage_kind(&self.stage) == StageKind::Done <==> r is Some,
            self.stage matches Stage::Done { candidate } ==> r == Some(candidate),
    {
        match self.stage {
            Stage::Done { candidate } => Some(candidate),
            _ => None,
        }
    }
}

/// Once aborted, an attempt only ever answers `Stop` and stays aborted.
proof fn lemma_aborted_prefix(kinds: Seq<StageKind>, acts: Seq<ActionKind>, i: int)
    requires
        kinds.len() == acts.len() + 1,
        kinds[0] == StageKind::Aborted,
        forall|j: int| 0 <= j < acts.len() ==> kind_step(kinds[j], kinds[j + 1], acts[j]),
        0 <= i < kinds.len(),
    ensures
        kinds[i] == StageKind::Aborted,
    decreases i,
{
    if i > 0 {
        lemma_aborted_prefix(kinds, acts, i - 1);
        assert(kind_step(kinds[i - 1], kinds[i], acts[i - 1]));
    }
}

/// Law: an attempt the oracle turned down — or that failed at any stage — is
/// inert from then on. A trace that starts aborted (as `step` leaves the
/// attempt the moment the eligibility event reports `false`) stays aborted:
/// every later action is `Stop`, so the proposer and the importer are never
/// invoked, and no stage is `Done`, so no candidate is ever handed out.
pub proof fn lemma_aborted_attempt_inert(kinds: Seq<StageKind>, acts: Seq<ActionKind>)
    requires
        kinds.len() == acts.len() + 1,
        kinds[0] == StageKind::Aborted,
        forall|j: int| 0 <= j < acts.len() ==> kind_step(kinds[j], kinds[j + 1], acts[j]),
    ensures
        forall|i: int| 0 <= i < kinds.len() ==> kinds[i] == StageKind::Aborted,
        forall|i: int| 0 <= i < acts.len() ==> acts[i] == ActionKind::Stop,
        forall|i: int| 0 <= i < acts.len() ==> acts[i] != ActionKind::Propose && acts[i]
            != ActionKind::Import,
        forall|i: int| 0 <= i < kinds.len() ==> kinds[i] != StageKind::Done,
{
    assert forall|i: int| 0 <= i < kinds.len() implies kinds[i] == StageKind::Aborted by {
        lemma_aborted_prefix(kinds, acts, i);
    }
    assert forall|i: int| 0 <= i < acts.len() implies acts[i] == ActionKind::Stop by {
        lemma_aborted_prefix(kinds, acts, i);
        assert(kind_step(kinds[i], kinds[i + 1], acts[i]));
    }
}

} // verus!
