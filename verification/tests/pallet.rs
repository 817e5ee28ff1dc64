//! The on-chain half: freshness rule, inherent construction, error wire form.

use filtering_consensus::bundle::InherentBundle;
use filtering_consensus::pallet::{
    check_inherent, check_relay_height, create_inherent, derive_ceiling, set_max_relay_parent,
    Call, DispatchError, Error, InherentDataProvider, InherentError, Origin, ParachainState,
    StoredValidationData, INHERENT_IDENTIFIER,
};
use parity_scale_codec::{Compact, Encode};

fn state_at(height: u32) -> ParachainState {
    ParachainState { validation_data: Some(StoredValidationData { relay_parent_number: height }) }
}

#[test]
fn freshness_rule_accepts_iff_at_or_below_height() {
    let state = state_at(100);
    assert!(check_relay_height(&state, 0));
    assert!(check_relay_height(&state, 99));
    assert!(check_relay_height(&state, 100));
    assert!(!check_relay_height(&state, 101));
    assert!(!check_relay_height(&state, u32::MAX));
    let top = state_at(u32::MAX);
    assert!(check_relay_height(&top, u32::MAX));
}

#[test]
fn dispatch_rejects_wrong_origin_and_stale_ceiling() {
    let state = state_at(100);
    assert_eq!(
        set_max_relay_parent(&state, Origin::Signed, 5),
        Err(DispatchError::BadOrigin)
    );
    assert_eq!(
        set_max_relay_parent(&state, Origin::Root, 5),
        Err(DispatchError::BadOrigin)
    );
    assert_eq!(set_max_relay_parent(&state, Origin::Inherent, 100), Ok(()));
    assert_eq!(
        set_max_relay_parent(&state, Origin::Inherent, 101),
        Err(DispatchError::Pallet(Error::RelayParentTooHigh))
    );
}

#[test]
fn check_inherent_rejects_with_fatal_error() {
    let state = state_at(100);
    assert!(check_inherent(&state, &Call::SetMaxRelayParent(100)).is_ok());
    let err = check_inherent(&state, &Call::SetMaxRelayParent(101)).unwrap_err();
    assert!(err.is_fatal_error());
    let InherentError::Other(msg) = err;
    assert_eq!(msg, b"Relay Parent Too High".to_vec());
}

#[test]
fn provider_payload_is_the_scale_encoding() {
    // The bundle must hold exactly what parity-scale-codec makes of the
    // ceiling, not the raw input handed to the encoder.
    let provider = InherentDataProvider(258);
    assert_eq!(provider.inherent_identifier(), INHERENT_IDENTIFIER);
    let mut bundle = InherentBundle::new();
    provider.provide_inherent_data(&mut bundle).unwrap();
    let payload = bundle.get(INHERENT_IDENTIFIER).unwrap();
    assert_eq!(payload.clone(), 258u32.encode());
    assert_eq!(payload.clone(), vec![0x02, 0x01, 0x00, 0x00]);
}

#[test]
fn provider_refuses_tag_collision() {
    let provider = InherentDataProvider(7);
    let mut bundle = InherentBundle::new();
    provider.provide_inherent_data(&mut bundle).unwrap();
    assert!(provider.provide_inherent_data(&mut bundle).is_err());
    assert_eq!(bundle.len(), 1);
}

#[test]
fn create_inherent_reads_the_provided_ceiling_back() {
    let mut bundle = InherentBundle::new();
    assert_eq!(create_inherent(&bundle), None);
    InherentDataProvider::from_relay_height(100)
        .provide_inherent_data(&mut bundle)
        .unwrap();
    assert_eq!(create_inherent(&bundle), Some(Call::SetMaxRelayParent(100)));
    assert_eq!(derive_ceiling(100), 100);
}

#[test]
fn inherent_error_wire_roundtrip() {
    let err = InherentError::Other(b"Relay Parent Too High".to_vec());
    let wire = err.encode();
    // cross-check the wire form against parity-scale-codec: variant byte,
    // compact length, message bytes
    let mut expected = vec![0u8];
    expected.extend(Compact(21u32).encode());
    expected.extend(b"Relay Parent Too High".iter());
    assert_eq!(wire, expected);
    let back = InherentError::try_from(INHERENT_IDENTIFIER, &wire).unwrap();
    assert_eq!(back, err);
}

#[test]
fn inherent_error_try_from_rejects_foreign_or_mangled_input() {
    let wire = InherentError::Other(vec![1, 2, 3]).encode();
    assert_eq!(InherentError::try_from(0, &wire), None);
    assert_eq!(InherentError::try_from(INHERENT_IDENTIFIER, &[]), None);
    // wrong variant byte
    assert_eq!(InherentError::try_from(INHERENT_IDENTIFIER, &[1, 0]), None);
    // length prefix promising more bytes than there are
    assert_eq!(
        InherentError::try_from(INHERENT_IDENTIFIER, &[0, 12 << 2, 1, 2]),
        None
    );
}

#[test]
fn error_to_string_reports_the_message() {
    let provider = InherentDataProvider(0);
    let wire = InherentError::Other(b"boom".to_vec()).encode();
    assert_eq!(provider.error_to_string(&wire), Some(b"boom".to_vec()));
    assert_eq!(provider.error_to_string(&[9, 9]), None);
}
