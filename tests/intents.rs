use rust_grinder::intent::{decode_intent, encode_intent, Intent};

fn sample() -> Intent {
    Intent { account: (1u8..=29).collect(), expire: 0x0102_0304_0506_0708, pool_ids: vec![7, u64::MAX, 0] }
}

#[test]
fn encodes_little_endian() {
    let bytes = encode_intent(&sample());
    assert_eq!(bytes.len(), 29 + 8 + 8 + 24);
    assert_eq!(&bytes[..29], &(1u8..=29).collect::<Vec<u8>>()[..]);
    assert_eq!(&bytes[29..37], &[8, 7, 6, 5, 4, 3, 2, 1]);
    assert_eq!(&bytes[37..45], &[3, 0, 0, 0, 0, 0, 0, 0]);
    assert_eq!(&bytes[45..53], &[7, 0, 0, 0, 0, 0, 0, 0]);
    assert_eq!(&bytes[53..61], &[255; 8]);
}

#[test]
fn round_trips() {
    let i = sample();
    let back = decode_intent(&encode_intent(&i)).unwrap();
    assert_eq!(back.account, i.account);
    assert_eq!(back.expire, i.expire);
    assert_eq!(back.pool_ids, i.pool_ids);
}

#[test]
fn short_bytes_do_not_decode() {
    let bytes = encode_intent(&sample());
    assert!(decode_intent(&bytes[..44]).is_none());
    assert!(decode_intent(&bytes[..68]).is_none());
    assert!(decode_intent(&[]).is_none());
}

#[test]
fn trailing_bytes_are_ignored() {
    let mut bytes = encode_intent(&sample());
    bytes.extend_from_slice(&[9, 9, 9]);
    assert_eq!(decode_intent(&bytes).unwrap().pool_ids, vec![7, u64::MAX, 0]);
}
