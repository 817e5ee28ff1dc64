//! On-chain half of the protocol: the freshness-ceiling inherent.
//!
//! A block author includes one inherent call carrying a `u32` ceiling, the
//! maximum relay-chain height at which the block stays valid. During block
//! execution the pallet re-reads the relay height that the parachain-system
//! inherent recorded earlier in the same block and accepts the call exactly
//! when the ceiling does not exceed it. The provider side constructs the
//! ceiling through the same derivation the validator checks against, so the
//! two can never disagree.

use vstd::prelude::*;
use crate::bundle::{has_tag, lemma_with_entry, payload_of, tags_sorted, with_entry, BundleError,
    BundleView, InherentBundle};
use crate::scale::{
    compact_parse, compact_u32_bytes, compact_decode_u32, compact_encode_u32, decode_u32,
    encode_u32, lemma_compact_u32_roundtrip, push_bytes, u32_from_le_bytes, u32_le_bytes,
    lemma_u32_le_roundtrip,
};
use vstd::slice::{slice_index_get, slice_subrange, slice_to_vec};
use vstd::string::StringSliceAdditionalSpecFns;
use vstd::string::StrSliceExecFns;

verus! {

/// The eight-byte tag of this pallet's inherent, `example_`, little-endian.
pub const INHERENT_IDENTIFIER: u64 = 0x5f65_6c70_6d61_7865;

/// The relay-chain facts the parachain-system inherent records in storage:
/// all this pallet reads of them is the relay-parent height.
#[derive(Clone, Copy, PartialEq, Eq, Debug)]
pub struct StoredValidationData {
    /// Height of the relay-chain block the running block builds on.
    pub relay_parent_number: u32,
}

/// What a runtime must supply to host the pallet: access to the validation
/// data already recorded earlier in the block's execution.
pub trait Config {
    /// The recorded validation data, `None` before the parachain-system
    /// inherent has run.
    spec fn spec_validation_data(&self) -> Option<StoredValidationData>;

    /// Reads the recorded validation data from state.
    fn validation_data(&self) -> (r: Option<StoredValidationData>)
        ensures
            r == self.spec_validation_data(),
    ;
}

/// In-memory parachain state: the one storage item the pallet consults.
pub struct ParachainState {
    /// Validation data as recorded by the parachain-system inherent.
    pub validation_data: Option<StoredValidationData>,
}

impl Config for ParachainState {
    open spec fn spec_validation_data(&self) -> Option<StoredValidationData> {
        self.validation_data
    }

    fn validation_data(&self) -> (r: Option<StoredValidationData>) {
        self.validation_data
    }
}

/// The freshness rule both halves share: a ceiling is acceptable exactly when
/// it does not exceed the recorded relay height.
pub open spec fn ceiling_accepted(max: u32, relay_height: u32) -> bool {
    max <= relay_height
}

/// Shared derivation of the ceiling a provider embeds for a given relay
/// height. Constructing and validating through the same function keeps the
/// off-chain and on-chain halves in agreement.
pub open spec fn spec_derive_ceiling(relay_height: u32) -> u32 {
    relay_height
}

/// Derives the freshness ceiling to embed for `relay_height`.
pub fn derive_ceiling(relay_height: u32) -> (r: u32)
    ensures
        r == spec_derive_ceiling(relay_height),
{
    relay_height
}

/// Law: a ceiling derived from a relay height is accepted by the validator
/// reading that same height — construction and validation cannot disagree.
pub proof fn lemma_derived_ceiling_accepted(relay_height: u32)
    ensures
        ceiling_accepted(spec_derive_ceiling(relay_height), relay_height),
{
}

/// Where a dispatched call claims to come from.
pub enum Origin {
    /// No origin: the call was synthesized by the block author as an inherent.
    Inherent,
    /// An ordinary signed transaction.
    Signed,
    /// The chain's root authority.
    Root,
}

/// The pallet's dispatch errors.
#[derive(PartialEq, Eq, Debug)]
pub enum Error {
    /// This block is not valid (anymore): the ceiling exceeds the recorded
    /// relay-parent height.
    RelayParentTooHigh,
}

/// How a dispatch can fail: refused before reaching the pallet, or by it.
#[derive(PartialEq, Eq, Debug)]
pub enum DispatchError {
    /// The call did not come from the inherent origin.
    BadOrigin,
    /// The pallet itself rejected the call.
    Pallet(Error),
}

/// The pallet's dispatchable calls.
#[derive(Clone, Copy, PartialEq, Eq, Debug)]
pub enum Call {
    /// Sets the maximum relay-parent height at which this block is valid.
    SetMaxRelayParent(u32),
}

/// Compares a claimed ceiling to the relay-parent height recorded by the
/// parachain inherent earlier in this block.
pub fn check_relay_height<T: Config>(state: &T, max: u32) -> (r: bool)
    requires
        state.spec_validation_data() is Some,
    ensures
        r == ceiling_accepted(max, state.spec_validation_data().unwrap().relay_parent_number),
{
    let vd = state.validation_data();
    let relay_height = match vd {
        Some(data) => data.relay_parent_number,
        None => 0,  // unreachable: the parachain-system inherent runs first
    };
    max <= relay_height
}

/// The inherent dispatch: accepts the ceiling exactly when it passes the
/// freshness rule, and only from the inherent origin.
pub fn set_max_relay_parent<T: Config>(state: &T, origin: Origin, max: u32) -> (r: Result<
    (),
    DispatchError,
>)
    requires
        origin is Inherent ==> state.spec_validation_data() is Some,
    ensures
        !(origin is Inherent) ==> r == Err::<(), DispatchError>(DispatchError::BadOrigin),
        origin is Inherent ==> (r is Ok <==> ceiling_accepted(
            max,
            state.spec_validation_data().unwrap().relay_parent_number,
        )),
        origin is Inherent && !ceiling_accepted(
            max,
            state.spec_validation_data().unwrap().relay_parent_number,
        ) ==> r == Err::<(), DispatchError>(DispatchError::Pallet(Error::RelayParentTooHigh)),
{
    match origin {
        Origin::Inherent => {},
        _ => {
            return Err(DispatchError::BadOrigin);
        },
    }
    if check_relay_height(state, max) {
        Ok(())
    } else {
        Err(DispatchError::Pallet(Error::RelayParentTooHigh))
    }
}

/// The message carried by the freshness rejection.
pub open spec fn too_high_message() -> Seq<u8> {
    "Relay Parent Too High".spec_bytes()
}

/// Fatal rejection of the inherent: the block carrying it is invalid.
#[derive(PartialEq, Eq, Debug)]
pub enum InherentError {
    /// A rejection with a diagnostic message.
    Other(Vec<u8>),
}

/// Wire form of an inherent error: a variant byte, then the message behind a
/// compact length prefix.
pub open spec fn inherent_error_bytes(msg: Seq<u8>) -> Seq<u8> {
    seq![0u8] + compact_u32_bytes(msg.len() as u32) + msg
}

/// Reads an inherent error back from its wire form; bytes past the message
/// are ignored, as the SCALE decoder ignores them.
pub open spec fn parse_inherent_error(s: Seq<u8>) -> Option<Seq<u8>> {
    if s.len() >= 1 && s[0] == 0u8 {
        match compact_parse(s.drop_first()) {
            Some((n, used)) => {
                if s.len() - 1 - used >= n {
                    Some(s.subrange(1 + used, 1 + used + n))
                } else {
                    None
                }
            },
            None => None,
        }
    } else {
        None
    }
}

impl InherentError {
    /// The message fits the wire format's length prefix.
    pub open spec fn wf(&self) -> bool {
        match self {
            InherentError::Other(m) => m@.len() <= 0xffff_ffff,
        }
    }

    /// Every variant of this error invalidates the block that carries it.
    pub fn is_fatal_error(&self) -> (r: bool)
        ensures
            r,
    {
        match *self {
            InherentError::Other(_) => true,
        }
    }

    /// Writes the error in its wire form.
    pub fn encode(&self) -> (r: Vec<u8>)
        requires
            self.wf(),
        ensures
            match self {
                InherentError::Other(m) => r@ == inherent_error_bytes(m@),
            },
    {
        match self {
            InherentError::Other(m) => {
                let mut out: Vec<u8> = Vec::new();
                out.push(0u8);
                let mut prefix = compact_encode_u32(m.len() as u32);
                out.append(&mut prefix);
                push_bytes(&mut out, m.as_slice());
                proof {
                    assert(out@ =~= inherent_error_bytes(m@));
                }
                out
            },
        }
    }

    /// Reads an error back out of the identifier and wire bytes it was
    /// reported with; `None` when the identifier is another pallet's or the
    /// bytes do not parse.
    pub fn try_from(id: u64, data: &[u8]) -> (r: Option<InherentError>)
        ensures
            id != INHERENT_IDENTIFIER ==> r is None,
            id == INHERENT_IDENTIFIER ==> match parse_inherent_error(data@) {
                Some(m) => r matches Some(InherentError::Other(got)) && got@ == m,
                None => r is None,
            },
    {
        if id != INHERENT_IDENTIFIER {
            return None;
        }
        if data.len() == 0 {
            return None;
        }
        if *slice_index_get(data, 0) != 0u8 {
            return None;
        }
        let tail = slice_subrange(data, 1, data.len());
        proof {
            assert(tail@ =~= data@.drop_first());
        }
        match compact_decode_u32(tail) {
            Some((n, used)) => {
                if (data.len() - 1 - used) as u64 >= n as u64 {
                    let msg = slice_subrange(data, 1 + used, 1 + used + (n as usize));
                    proof {
                        assert(msg@ =~= data@.subrange(
                            1 + (used as int),
                            1 + (used as int) + (n as int),
                        ));
                    }
                    Some(InherentError::Other(slice_to_vec(msg)))
                } else {
                    None
                }
            },
            None => None,
        }
    }
}

/// Law: an inherent error written to the wire and read back is unchanged.
pub proof fn lemma_inherent_error_roundtrip(msg: Seq<u8>)
    requires
        msg.len() <= 0xffff_ffff,
    ensures
        parse_inherent_error(inherent_error_bytes(msg)) == Some(msg),
{
    let s = inherent_error_bytes(msg);
    let prefix = compact_u32_bytes(msg.len() as u32);
    assert(s[0] == 0u8);
    assert(s.drop_first() =~= prefix + msg);
    lemma_compact_u32_roundtrip(msg.len() as u32, msg);
    let used = prefix.len() as int;
    assert(compact_parse(s.drop_first()) == Some(((msg.len() as u32, used))));
    assert(s.len() - 1 - used == msg.len());
    assert(s.subrange(1 + used, 1 + used + msg.len() as int) =~= msg);
}

/// Law: the construct and check sides meet through the bundle — a bundle the
/// provider filled holds the pallet's tag, its payload decodes back to
/// exactly the provider's ceiling, and it is long enough for `create_inherent`
/// to read.
pub proof fn lemma_provider_create_agree(b: BundleView, ceiling: u32)
    requires
        tags_sorted(b),
        !has_tag(b, INHERENT_IDENTIFIER),
    ensures
        has_tag(with_entry(b, INHERENT_IDENTIFIER, u32_le_bytes(ceiling)), INHERENT_IDENTIFIER),
        payload_of(
            with_entry(b, INHERENT_IDENTIFIER, u32_le_bytes(ceiling)),
            INHERENT_IDENTIFIER,
        ).len() == 4,
        u32_from_le_bytes(
            payload_of(
                with_entry(b, INHERENT_IDENTIFIER, u32_le_bytes(ceiling)),
                INHERENT_IDENTIFIER,
            ),
        ) == ceiling,
{
    lemma_with_entry(b, INHERENT_IDENTIFIER, u32_le_bytes(ceiling));
    lemma_u32_le_roundtrip(ceiling);
}

/// Reconstructs this pallet's call from a bundle of inherent data: the
/// ceiling decoded from the payload under the pallet's tag, or nothing when
/// the tag is absent.
pub fn create_inherent(data: &InherentBundle) -> (r: Option<Call>)
    requires
        data.wf(),
        has_tag(data@, INHERENT_IDENTIFIER) ==> payload_of(data@, INHERENT_IDENTIFIER).len() >= 4,
    ensures
        !has_tag(data@, INHERENT_IDENTIFIER) ==> r is None,
        has_tag(data@, INHERENT_IDENTIFIER) ==> r == Some(
            Call::SetMaxRelayParent(u32_from_le_bytes(payload_of(data@, INHERENT_IDENTIFIER))),
        ),
{
    match data.get(INHERENT_IDENTIFIER) {
        Some(payload) => {
            let max = decode_u32(payload.as_slice());
            match max {
                Some(v) => Some(Call::SetMaxRelayParent(v)),
                None => None,  // unreachable: the payload holds an encoded u32
            }
        },
        None => None,
    }
}

/// Validates this pallet's inherent call against live state: accepts exactly
/// when the claimed ceiling passes the freshness rule.
pub fn check_inherent<T: Config>(state: &T, call: &Call) -> (r: Result<(), InherentError>)
    requires
        state.spec_validation_data() is Some,
    ensures
        match *call {
            Call::SetMaxRelayParent(max) => {
                &&& r is Ok <==> ceiling_accepted(
                    max,
                    state.spec_validation_data().unwrap().relay_parent_number,
                )
                &&& r is Err ==> (r matches Err(InherentError::Other(m)) && m@
                    == too_high_message())
            },
        },
{
    let Call::SetMaxRelayParent(max) = *call;
    if check_relay_height(state, max) {
        Ok(())
    } else {
        Err(InherentError::Other("Relay Parent Too High".as_bytes_vec()))
    }
}

/// The outer node's provider of this pallet's inherent data: carries the
/// ceiling it will embed.
pub struct InherentDataProvider(pub u32);

impl InherentDataProvider {
    /// A provider whose ceiling is derived from the given relay height by the
    /// same rule the validator checks against.
    pub fn from_relay_height(relay_height: u32) -> (r: InherentDataProvider)
        ensures
            r.0 == spec_derive_ceiling(relay_height),
    {
        InherentDataProvider(derive_ceiling(relay_height))
    }

    /// The tag this provider writes under.
    pub fn inherent_identifier(&self) -> (r: u64)
        ensures
            r == INHERENT_IDENTIFIER,
    {
        INHERENT_IDENTIFIER
    }

    /// Puts the encoded ceiling into the bundle under the pallet's tag.
    pub fn provide_inherent_data(&self, inherent_data: &mut InherentBundle) -> (r: Result<
        (),
        BundleError,
    >)
        requires
            old(inherent_data).wf(),
        ensures
            final(inherent_data).wf(),
            has_tag(old(inherent_data)@, INHERENT_IDENTIFIER) ==> r is Err
                && final(inherent_data)@ == old(inherent_data)@,
            !has_tag(old(inherent_data)@, INHERENT_IDENTIFIER) ==> r is Ok
                && final(inherent_data)@ == with_entry(
                old(inherent_data)@,
                INHERENT_IDENTIFIER,
                u32_le_bytes(self.0),
            ),
    {
        inherent_data.put_data(INHERENT_IDENTIFIER, encode_u32(self.0))
    }

    /// Reads the diagnostic message back out of a reported error's wire
    /// bytes.
    pub fn error_to_string(&self, error: &[u8]) -> (r: Option<Vec<u8>>)
        ensures
            match parse_inherent_error(error@) {
                Some(m) => r matches Some(got) && got@ == m,
                None => r is None,
            },
    {
        match InherentError::try_from(INHERENT_IDENTIFIER, error) {
            Some(InherentError::Other(m)) => Some(m),
            None => None,
        }
    }
}

} // verus!
