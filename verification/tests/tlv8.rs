use airfry::tlv8::{
    decode, encode, find, find_error, Item, TLV_ERROR, TLV_FLAGS, TLV_METHOD, TLV_PUBLIC_KEY,
    TLV_SALT, TLV_STATE,
};

#[test]
fn round_trip_simple() {
    let items = vec![
        Item::new(TLV_METHOD, vec![0x00]),
        Item::new(TLV_STATE, vec![0x01]),
        Item::new(TLV_FLAGS, 0x00000010u32.to_le_bytes().to_vec()),
    ];
    let enc = encode(&items);
    // method: 00 01 00 ; state: 06 01 01 ; flags: 13 04 10 00 00 00
    assert_eq!(
        enc,
        vec![0x00, 0x01, 0x00, 0x06, 0x01, 0x01, 0x13, 0x04, 0x10, 0x00, 0x00, 0x00]
    );

    let dec = decode(&enc);
    assert_eq!(dec.get(&TLV_METHOD).unwrap(), &vec![0x00]);
    assert_eq!(dec.get(&TLV_STATE).unwrap(), &vec![0x01]);
    assert_eq!(dec.get(&TLV_FLAGS).unwrap(), &0x10u32.to_le_bytes().to_vec());
}

#[test]
fn round_trip_long_value_chunks() {
    // A 600-byte value must split into 255 + 255 + 90 chunks repeating the tag,
    // and decode must concatenate them back into one 600-byte value.
    let big: Vec<u8> = (0..600u32).map(|i| (i & 0xff) as u8).collect();
    let items = vec![Item::new(TLV_PUBLIC_KEY, big.clone())];
    let enc = encode(&items);
    // 3 chunks: (2+255) + (2+255) + (2+90)
    assert_eq!(enc.len(), (2 + 255) + (2 + 255) + (2 + 90));
    assert_eq!(enc[0], TLV_PUBLIC_KEY);
    assert_eq!(enc[1], 255);
    assert_eq!(enc[2 + 255], TLV_PUBLIC_KEY);
    assert_eq!(enc[2 + 255 + 1], 255);

    let dec = decode(&enc);
    assert_eq!(dec.get(&TLV_PUBLIC_KEY).unwrap(), &big);
}

#[test]
fn empty_value_encodes_zero_length() {
    let items = vec![Item::new(TLV_STATE, Vec::new())];
    let enc = encode(&items);
    assert_eq!(enc, vec![TLV_STATE, 0x00]);
}

#[test]
fn a_value_of_exactly_one_chunk_is_not_split() {
    let enc = encode(&[Item::new(TLV_SALT, vec![9u8; 255])]);
    assert_eq!(enc.len(), 257);
    assert_eq!(&enc[..2], &[TLV_SALT, 255]);
    let enc = encode(&[Item::new(TLV_SALT, vec![9u8; 256])]);
    assert_eq!(enc.len(), 2 + 255 + 2 + 1);
    assert_eq!(&enc[257..], &[TLV_SALT, 1, 9]);
}

#[test]
fn a_truncated_item_ends_the_reading() {
    // The second item promises four bytes and brings two.
    let dec = decode(&[TLV_STATE, 1, 2, TLV_SALT, 4, 7, 7]);
    assert_eq!(dec.get(&TLV_STATE).unwrap(), &vec![2]);
    assert!(dec.get(&TLV_SALT).is_none());
}

#[test]
fn errors_are_found() {
    let dec = decode(&[TLV_STATE, 1, 2, TLV_ERROR, 1, 0x06]);
    assert_eq!(find_error(&dec), Some(6));
    assert_eq!(find(&dec, TLV_STATE), Some(&vec![2]));
    assert_eq!(find(&dec, TLV_SALT), None);
    // An error without a value is no error code.
    assert_eq!(find_error(&decode(&[TLV_STATE, 1, 2])), None);
}
