//! The compact length encoding, held against parity-scale-codec's own.

use filtering_consensus::scale::{compact_decode_u32, compact_encode_u32};
use parity_scale_codec::{Compact, Decode, Encode};

fn roundtrip(v: u32) {
    let mine = compact_encode_u32(v);
    let theirs = Compact(v).encode();
    assert_eq!(mine, theirs, "encoding of {v}");
    let (back, used) = compact_decode_u32(&mine).unwrap();
    assert_eq!(back, v);
    assert_eq!(used, mine.len());
    // trailing bytes are ignored
    let mut longer = mine.clone();
    longer.extend([0xEE, 0xFF]);
    assert_eq!(compact_decode_u32(&longer), Some((v, used)));
}

#[test]
fn compact_encoding_matches_scale_at_every_width() {
    for v in [
        0u32,
        1,
        63,
        64,
        16383,
        16384,
        0x3fff_ffff,
        0x4000_0000,
        u32::MAX,
    ] {
        roundtrip(v);
    }
}

#[test]
fn compact_decoding_agrees_with_scale_on_mangled_input() {
    let cases: &[&[u8]] = &[
        &[],
        &[0b01],            // two-byte mode, one byte
        &[0b01, 0x00],      // two-byte mode, non-minimal value
        &[0b10, 0x01, 0x00],// four-byte mode, short
        &[0b11],            // big mode, short
        &[0b111],           // big-mode prefix promising more than four bytes
        &[3, 1, 0, 0, 0],   // big mode, non-minimal value
    ];
    for bytes in cases {
        let theirs = Compact::<u32>::decode(&mut &bytes[..]).ok().map(|c| c.0);
        let mine = compact_decode_u32(bytes).map(|p| p.0);
        assert_eq!(mine, theirs, "decoding {bytes:?}");
        assert_eq!(mine, None);
    }
}
