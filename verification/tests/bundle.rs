//! The inherent bundle: ordering, uniqueness, canonical representation.

use filtering_consensus::bundle::InherentBundle;

#[test]
fn entries_are_canonical_whatever_the_insertion_order() {
    let mut ab = InherentBundle::new();
    ab.put_data(1, vec![0xA]).unwrap();
    ab.put_data(2, vec![0xB]).unwrap();
    let mut ba = InherentBundle::new();
    ba.put_data(2, vec![0xB]).unwrap();
    ba.put_data(1, vec![0xA]).unwrap();
    assert_eq!(ab, ba);
}

#[test]
fn a_tag_collision_leaves_the_bundle_unchanged() {
    let mut bundle = InherentBundle::new();
    bundle.put_data(5, vec![1, 2]).unwrap();
    let mut before = InherentBundle::new();
    before.put_data(5, vec![1, 2]).unwrap();
    assert!(bundle.put_data(5, vec![9, 9]).is_err());
    assert_eq!(bundle, before);
    assert_eq!(bundle.get(5), Some(&vec![1, 2]));
}

#[test]
fn lookups_answer_presence_exactly() {
    let mut bundle = InherentBundle::new();
    assert_eq!(bundle.len(), 0);
    assert_eq!(bundle.get(7), None);
    bundle.put_data(7, vec![]).unwrap();
    assert_eq!(bundle.len(), 1);
    assert_eq!(bundle.get(7), Some(&vec![]));
    assert_eq!(bundle.get(8), None);
}
