//! Blocks, digest logs, and the protocol's seal.
//!
//! A produced block is marked by one `Seal` digest with this protocol's
//! four-byte engine tag appended to the header's digest log only after the
//! pre-seal header has been fixed: the import step sees the unsealed header
//! and receives the seal separately, so the seal never moves the hash a block
//! is imported under. Deconstructing a block for re-execution strips the seal
//! back out.

use vstd::prelude::*;
use crate::scale::push_bytes;

verus! {

/// The seal's four-byte engine tag, `test`, little-endian.
pub const SEAL_ENGINE_ID: u32 = 0x7473_6574;

/// One entry of a header's digest log.
#[derive(PartialEq, Eq, Debug)]
pub enum DigestItem {
    /// A consensus seal: an engine tag and its payload.
    Seal(u32, Vec<u8>),
    /// Any other digest entry, carried opaquely.
    Other(Vec<u8>),
}

/// Abstract value of a digest entry.
pub enum DigestView {
    /// A consensus seal: an engine tag and its payload.
    Seal(u32, Seq<u8>),
    /// Any other digest entry.
    Other(Seq<u8>),
}

impl View for DigestItem {
    type V = DigestView;

    closed spec fn view(&self) -> DigestView {
        match self {
            DigestItem::Seal(engine, payload) => DigestView::Seal(*engine, payload@),
            DigestItem::Other(payload) => DigestView::Other(payload@),
        }
    }
}

/// The digest entry this protocol appends to a produced block.
pub open spec fn seal_view() -> DigestView {
    DigestView::Seal(SEAL_ENGINE_ID, Seq::<u8>::empty())
}

/// Whether a digest entry is this protocol's seal.
pub open spec fn is_seal(d: DigestView) -> bool {
    d matches DigestView::Seal(engine, _) && engine == SEAL_ENGINE_ID
}

/// A digest log as its entries' abstract values.
pub open spec fn digest_log_view(d: Seq<DigestItem>) -> Seq<DigestView> {
    d.map_values(|x: DigestItem| x@)
}

/// A block body as its extrinsics' byte strings.
pub open spec fn body_view(b: Seq<Vec<u8>>) -> Seq<Seq<u8>> {
    b.map_values(|x: Vec<u8>| x@)
}

/// How many of the log's entries are this protocol's seal.
pub open spec fn seal_count(s: Seq<DigestView>) -> int
    decreases s.len(),
{
    if s.len() == 0 {
        0
    } else {
        seal_count(s.drop_last()) + if is_seal(s.last()) {
            1int
        } else {
            0int
        }
    }
}

/// The log with this protocol's seals removed, order kept.
pub open spec fn without_seals(s: Seq<DigestView>) -> Seq<DigestView>
    decreases s.len(),
{
    if s.len() == 0 {
        Seq::<DigestView>::empty()
    } else if is_seal(s.last()) {
        without_seals(s.drop_last())
    } else {
        without_seals(s.drop_last()).push(s.last())
    }
}

/// A log never holds a negative number of seals.
pub proof fn lemma_seal_count_nonneg(s: Seq<DigestView>)
    ensures
        seal_count(s) >= 0,
    decreases s.len(),
{
    if s.len() > 0 {
        lemma_seal_count_nonneg(s.drop_last());
    }
}

/// A stripped log is the log itself when it held no seal.
pub proof fn lemma_without_seals_id(s: Seq<DigestView>)
    requires
        seal_count(s) == 0,
    ensures
        without_seals(s) == s,
    decreases s.len(),
{
    if s.len() == 0 {
        assert(without_seals(s) =~= s);
    } else {
        lemma_seal_count_nonneg(s.drop_last());
        assert(!is_seal(s.last()));
        lemma_without_seals_id(s.drop_last());
        assert(without_seals(s) =~= s);
    }
}

/// Law: sealing a seal-free log and stripping it again gives the log back —
/// a produced block deconstructs to what the proposer drafted.
pub proof fn lemma_seal_strip_roundtrip(s: Seq<DigestView>)
    requires
        seal_count(s) == 0,
    ensures
        without_seals(s.push(seal_view())) == s,
{
    assert(s.push(seal_view()).drop_last() =~= s);
    lemma_without_seals_id(s);
}

/// Law: appending the seal to a seal-free log yields exactly one seal.
pub proof fn lemma_sealed_once(s: Seq<DigestView>)
    requires
        seal_count(s) == 0,
    ensures
        seal_count(s.push(seal_view())) == 1,
{
    assert(s.push(seal_view()).drop_last() =~= s);
}

/// A block header: what of it this protocol reads and writes.
#[derive(PartialEq, Eq, Debug)]
pub struct Header {
    /// Hash of the parent block, carried opaquely.
    pub parent_hash: Vec<u8>,
    /// Height of the block on its own chain.
    pub number: u32,
    /// The digest log.
    pub digest: Vec<DigestItem>,
}

/// A block: a header and the extrinsics that make up its body.
#[derive(PartialEq, Eq, Debug)]
pub struct Block {
    /// The block's header.
    pub header: Header,
    /// The body: each extrinsic as opaque encoded bytes.
    pub extrinsics: Vec<Vec<u8>>,
}

/// What the external proposer hands back for a draft block.
#[derive(PartialEq, Eq, Debug)]
pub struct Proposal {
    /// The drafted block.
    pub block: Block,
    /// The storage mutations proposal computed, carried opaquely; the importer
    /// applies them instead of re-executing the block.
    pub storage_changes: Vec<u8>,
    /// The proof recorded while building, for relay-chain validation.
    pub proof: Vec<u8>,
}

/// A produced block paired with its validity proof, handed upstream for
/// relay-chain backing.
#[derive(PartialEq, Eq, Debug)]
pub struct Candidate {
    /// The sealed block.
    pub block: Block,
    /// The proof recorded while building it.
    pub proof: Vec<u8>,
}

/// Where an imported block came from.
#[derive(PartialEq, Eq, Structural, Debug, Clone, Copy)]
pub enum BlockOrigin {
    /// Produced by this node.
    Own,
    /// Received from the network.
    Network,
}

/// How the importer should update its notion of the best chain.
#[derive(PartialEq, Eq, Structural, Debug, Clone, Copy)]
pub enum ForkChoice {
    /// Prefer the longest chain.
    LongestChain,
    /// Fixed directive: `true` makes the block the new best, `false` leaves
    /// the best block alone — canonical-chain selection belongs to the relay
    /// chain.
    Custom(bool),
}

/// Everything the local importer is handed for one block.
#[derive(PartialEq, Eq, Debug)]
pub struct ImportParams {
    /// Where the block came from.
    pub origin: BlockOrigin,
    /// The pre-seal header: the seal must not move the hash the block is
    /// imported under.
    pub header: Header,
    /// Digests to append after import, the seal among them.
    pub post_digests: Vec<DigestItem>,
    /// The block body.
    pub body: Option<Vec<Vec<u8>>>,
    /// The storage mutations from proposal, so the importer does not
    /// re-execute.
    pub storage_changes: Option<Vec<u8>>,
    /// The fork-choice directive.
    pub fork_choice: Option<ForkChoice>,
}

/// How a sealed import and its candidate relate to the proposal they came
/// from: the import sees the draft header and body unchanged with the seal
/// aside, locally-owned origin, the proposal's storage mutations, and a
/// fork choice that leaves the best block to the relay chain; the candidate
/// is the draft block with the seal appended, paired with the proposal's
/// proof.
pub open spec fn seal_spec(p: Proposal, params: ImportParams, cand: Candidate) -> bool {
    &&& params.origin is Own
    &&& params.header.number == p.block.header.number
    &&& params.header.parent_hash@ == p.block.header.parent_hash@
    &&& digest_log_view(params.header.digest@) == digest_log_view(p.block.header.digest@)
    &&& digest_log_view(params.post_digests@) == seq![seal_view()]
    &&& params.body matches Some(b) && body_view(b@) == body_view(p.block.extrinsics@)
    &&& params.storage_changes matches Some(sc) && sc@ == p.storage_changes@
    &&& params.fork_choice == Some(ForkChoice::Custom(false))
    &&& cand.block.header.number == p.block.header.number
    &&& cand.block.header.parent_hash@ == p.block.header.parent_hash@
    &&& digest_log_view(cand.block.header.digest@) == digest_log_view(
        p.block.header.digest@,
    ).push(seal_view())
    &&& body_view(cand.block.extrinsics@) == body_view(p.block.extrinsics@)
    &&& cand.proof@ == p.proof@
}

/// Law: a candidate sealed from a seal-free draft carries the seal exactly
/// once, appended last; the import still sees the draft header unchanged, so
/// the seal cannot move the hash the block is imported under; and stripping
/// the candidate's log gives the draft's log back, with the body untouched.
pub proof fn lemma_candidate_sealed_once(p: Proposal, params: ImportParams, cand: Candidate)
    requires
        seal_spec(p, params, cand),
        seal_count(digest_log_view(p.block.header.digest@)) == 0,
    ensures
        seal_count(digest_log_view(cand.block.header.digest@)) == 1,
        digest_log_view(params.header.digest@) == digest_log_view(p.block.header.digest@),
        without_seals(digest_log_view(cand.block.header.digest@)) == digest_log_view(
            p.block.header.digest@,
        ),
        body_view(cand.block.extrinsics@) == body_view(p.block.extrinsics@),
{
    let draft = digest_log_view(p.block.header.digest@);
    lemma_sealed_once(draft);
    lemma_seal_strip_roundtrip(draft);
}

/// Copies a byte string.
pub fn copy_bytes(src: &Vec<u8>) -> (r: Vec<u8>)
    ensures
        r@ == src@,
{
    let mut r: Vec<u8> = Vec::new();
    push_bytes(&mut r, src.as_slice());
    r
}

/// Copies a block body.
pub fn copy_body(src: &Vec<Vec<u8>>) -> (r: Vec<Vec<u8>>)
    ensures
        body_view(r@) == body_view(src@),
        r@.len() == src@.len(),
{
    let n = src.len();
    let mut r: Vec<Vec<u8>> = Vec::new();
    let mut i: usize = 0;
    while i < n
        invariant
            0 <= i <= n,
            n == src.len(),
            r@.len() == i,
            forall|j: int| 0 <= j < i ==> r@[j]@ == src@[j]@,
        decreases n - i,
    {
        r.push(copy_bytes(&src[i]));
        i = i + 1;
    }
    proof {
        assert(body_view(r@) =~= body_view(src@));
    }
    r
}

/// Copies one digest entry.
pub fn copy_digest_item(src: &DigestItem) -> (r: DigestItem)
    ensures
        r@ == src@,
{
    match src {
        DigestItem::Seal(engine, payload) => DigestItem::Seal(*engine, copy_bytes(payload)),
        DigestItem::Other(payload) => DigestItem::Other(copy_bytes(payload)),
    }
}

/// Copies a digest log.
pub fn copy_digest_log(src: &Vec<DigestItem>) -> (r: Vec<DigestItem>)
    ensures
        digest_log_view(r@) == digest_log_view(src@),
        r@.len() == src@.len(),
{
    let n = src.len();
    let mut r: Vec<DigestItem> = Vec::new();
    let mut i: usize = 0;
    while i < n
        invariant
            0 <= i <= n,
            n == src.len(),
            r@.len() == i,
            forall|j: int| 0 <= j < i ==> r@[j]@ == src@[j]@,
        decreases n - i,
    {
        r.push(copy_digest_item(&src[i]));
        i = i + 1;
    }
    proof {
        assert(digest_log_view(r@) =~= digest_log_view(src@));
    }
    r
}

/// Copies a header.
pub fn copy_header(src: &Header) -> (r: Header)
    ensures
        r.number == src.number,
        r.parent_hash@ == src.parent_hash@,
        digest_log_view(r.digest@) == digest_log_view(src.digest@),
{
    Header {
        parent_hash: copy_bytes(&src.parent_hash),
        number: src.number,
        digest: copy_digest_log(&src.digest),
    }
}

/// The seal digest this protocol appends: the fixed engine tag with an empty
/// payload.
pub fn seal_digest() -> (r: DigestItem)
    ensures
        r@ == seal_view(),
{
    let r = DigestItem::Seal(SEAL_ENGINE_ID, Vec::new());
    proof {
        assert(r@ =~= seal_view());
    }
    r
}

/// Seals a proposal: fixes the import parameters on the pre-seal header with
/// the seal and the storage mutations alongside, and forms the candidate from
/// the sealed block and the proposal's proof.
pub fn seal_proposal(p: Proposal) -> (r: (ImportParams, Candidate))
    ensures
        seal_spec(p, r.0, r.1),
{
    let Proposal { block, storage_changes, proof } = p;
    let Block { header, extrinsics } = block;
    let params_header = copy_header(&header);
    let params_body = copy_body(&extrinsics);
    let mut post_digests: Vec<DigestItem> = Vec::new();
    post_digests.push(seal_digest());
    proof {
        assert(digest_log_view(post_digests@) =~= seq![seal_view()]);
    }
    let params = ImportParams {
        origin: BlockOrigin::Own,
        header: params_header,
        post_digests,
        body: Some(params_body),
        storage_changes: Some(storage_changes),
        fork_choice: Some(ForkChoice::Custom(false)),
    };
    let mut post_header = header;
    let ghost pre_digest = digest_log_view(post_header.digest@);
    post_header.digest.push(seal_digest());
    proof {
        assert(digest_log_view(post_header.digest@) =~= pre_digest.push(seal_view()));
    }
    let candidate = Candidate { block: Block { header: post_header, extrinsics }, proof };
    (params, candidate)
}

/// The guard the local importer applies before touching storage: a candidate
/// whose import parameters lack the storage-mutation payload from proposal is
/// malformed and must be rejected rather than silently re-executed.
pub fn validate_import_params(params: &ImportParams) -> (r: bool)
    ensures
        r == (params.storage_changes is Some),
{
    params.storage_changes.is_some()
}

/// Deconstructs a block for re-execution: the body unchanged and the header
/// with this protocol's seals stripped from the digest log.
pub struct BlockExecutor;

impl BlockExecutor {
    /// Strips the protocol's seal digests out of `block` before the inner
    /// executor re-runs it.
    pub fn strip_seals(block: Block) -> (r: Block)
        ensures
            r.header.number == block.header.number,
            r.header.parent_hash@ == block.header.parent_hash@,
            digest_log_view(r.header.digest@) == without_seals(
                digest_log_view(block.header.digest@),
            ),
            body_view(r.extrinsics@) == body_view(block.extrinsics@),
    {
        let Block { header, extrinsics } = block;
        let Header { parent_hash, number, digest } = header;
        let n = digest.len();
        let mut kept: Vec<DigestItem> = Vec::new();
        let mut i: usize = 0;
        proof {
            assert(digest_log_view(digest@).take(0) =~= Seq::<DigestView>::empty());
            assert(digest_log_view(kept@) =~= without_seals(digest_log_view(digest@).take(0)));
        }
        while i < n
            invariant
                0 <= i <= n,
                n == digest.len(),
                digest_log_view(kept@) == without_seals(digest_log_view(digest@).take(i as int)),
            decreases n - i,
        {
            let ghost views = digest_log_view(digest@);
            proof {
                assert(views.take(i as int + 1).drop_last() =~= views.take(i as int));
                assert(views.take(i as int + 1).last() == views[i as int]);
            }
            let keep = match &digest[i] {
                DigestItem::Seal(engine, _) => *engine != SEAL_ENGINE_ID,
                DigestItem::Other(_) => true,
            };
            if keep {
                kept.push(copy_digest_item(&digest[i]));
                proof {
                    assert(digest_log_view(kept@) =~= without_seals(
                        views.take(i as int),
                    ).push(views[i as int]));
                }
            }
            i = i + 1;
        }
        proof {
            assert(digest_log_view(digest@).take(n as int) =~= digest_log_view(digest@));
        }
        Block { header: Header { parent_hash, number, digest: kept }, extrinsics }
    }
}

} // verus!
