use bobsled::keys::{check_ident_bytes, journal_key_bytes, parse_journal_key};
use bobsled::protos::{Change, OwnerId, Payload, RecordId, StoredRecord, Version};
use bobsled::server::BobsledJournalApi;
use bobsled::wire::{decode_change, decode_stored_record, encode_change, encode_stored_record};

#[test]
fn storage_key_is_owner_slash_record() {
    let owner = OwnerId { value: String::from("alice") };
    let record = RecordId { value: String::from("r1") };
    let key = BobsledJournalApi::make_storage_key(&owner, &record);
    assert_eq!(key, b"alice/r1".to_vec());
}

#[test]
fn ident_check_rejects_empty_and_separator() {
    assert!(check_ident_bytes(b"alice"));
    assert!(!check_ident_bytes(b""));
    assert!(!check_ident_bytes(b"ali/ce"));
    assert!(!check_ident_bytes(b"/"));
    assert!(check_ident_bytes(b"a"));
}

#[test]
fn journal_key_bytes_are_big_endian() {
    assert_eq!(journal_key_bytes(0), vec![0u8; 8]);
    assert_eq!(journal_key_bytes(258), vec![0, 0, 0, 0, 0, 0, 1, 2]);
    assert_eq!(
        journal_key_bytes(u64::MAX),
        vec![0xff, 0xff, 0xff, 0xff, 0xff, 0xff, 0xff, 0xff]
    );
}

#[test]
fn journal_key_parse_inverts_build() {
    for id in [0u64, 1, 127, 128, 300, 65536, u64::MAX] {
        let bytes = journal_key_bytes(id);
        assert_eq!(parse_journal_key(&bytes), Some(id));
    }
    assert_eq!(parse_journal_key(&vec![1, 2, 3]), None);
    assert_eq!(parse_journal_key(&Vec::new()), None);
}

#[test]
fn stored_record_exact_bytes() {
    let rec = StoredRecord {
        version: Some(Version { value: 1 }),
        payload: Some(Payload { bytes: vec![0xAA] }),
    };
    let bytes = encode_stored_record(&rec);
    assert_eq!(bytes, vec![0x0A, 0x02, 0x08, 0x01, 0x12, 0x01, 0xAA]);
}

#[test]
fn stored_record_version_zero_is_empty_message() {
    let rec = StoredRecord { version: Some(Version { value: 0 }), payload: None };
    let bytes = encode_stored_record(&rec);
    assert_eq!(bytes, vec![0x0A, 0x00]);
}

#[test]
fn stored_record_round_trips() {
    let cases = vec![
        StoredRecord { version: None, payload: None },
        StoredRecord { version: Some(Version { value: 0 }), payload: None },
        StoredRecord {
            version: Some(Version { value: 300 }),
            payload: Some(Payload { bytes: vec![1, 2, 3, 0, 255] }),
        },
        StoredRecord { version: None, payload: Some(Payload { bytes: Vec::new() }) },
    ];
    for rec in cases {
        let bytes = encode_stored_record(&rec);
        let back = decode_stored_record(&bytes).expect("canonical bytes must decode");
        assert_eq!(back, rec);
    }
}

#[test]
fn stored_record_decode_rejects_garbage() {
    assert!(decode_stored_record(&vec![0xFF]).is_none());
    assert!(decode_stored_record(&vec![0x0A]).is_none());
    assert!(decode_stored_record(&vec![0x0A, 0x01]).is_none());
    assert!(decode_stored_record(&vec![0x12, 0x01, 0x00, 0x99]).is_none());
}

#[test]
fn change_exact_bytes() {
    let change = Change {
        owner_id: Some(OwnerId { value: String::from("a") }),
        record_id: Some(RecordId { value: String::from("b") }),
        version: Some(Version { value: 1 }),
        payload: None,
    };
    let bytes = encode_change(&change);
    assert_eq!(
        bytes,
        vec![
            0x0A, 0x03, 0x0A, 0x01, 0x61, // owner message: value "a"
            0x12, 0x03, 0x0A, 0x01, 0x62, // record message: value "b"
            0x1A, 0x02, 0x08, 0x01, // version message: value 1
        ]
    );
}

#[test]
fn change_round_trips() {
    let change = Change {
        owner_id: Some(OwnerId { value: String::from("alice") }),
        record_id: Some(RecordId { value: String::from("0123456789abcdef") }),
        version: Some(Version { value: 7 }),
        payload: Some(Payload { bytes: vec![9, 8, 7] }),
    };
    let bytes = encode_change(&change);
    let back = decode_change(&bytes).expect("canonical bytes must decode");
    assert_eq!(back, change);
}

#[test]
fn varint_boundary_values_round_trip() {
    for v in [1i32, 127, 128, 16383, 16384, i32::MAX] {
        let rec = StoredRecord { version: Some(Version { value: v }), payload: None };
        let bytes = encode_stored_record(&rec);
        let back = decode_stored_record(&bytes).expect("canonical bytes must decode");
        assert_eq!(back.version, Some(Version { value: v }));
    }
}

#[test]
fn change_decode_rejects_invalid_utf8_identifier() {
    // An owner message whose value bytes are not UTF-8.
    let bytes = vec![0x0A, 0x03, 0x0A, 0x01, 0xFF];
    assert!(decode_change(&bytes).is_none());
}

#[test]
fn change_decode_accepts_empty_input_as_empty_change() {
    let change = decode_change(&Vec::new()).expect("an empty message is a valid change");
    assert_eq!(change.owner_id, None);
    assert_eq!(change.record_id, None);
    assert_eq!(change.version, None);
    assert_eq!(change.payload, None);
}
