use bobsled::protos::{
    ApiError, ChangeId, CreateRequest, GetRequest, OwnerId, Payload, ReadChangesRequest, RecordId,
    UpdateRequest, Version,
};
use bobsled::server::BobsledJournalApi;
use prost::Message;

fn open_service() -> BobsledJournalApi {
    match BobsledJournalApi::open_temporary() {
        Ok(s) => s,
        Err(_) => panic!("could not open a temporary store"),
    }
}

fn string_value_bytes(s: &str) -> Vec<u8> {
    let value = prost_types::Value {
        kind: Some(prost_types::value::Kind::StringValue(String::from(s))),
    };
    value.encode_to_vec()
}

fn struct_value_bytes(key: &str, val: &str) -> Vec<u8> {
    let inner = prost_types::Value {
        kind: Some(prost_types::value::Kind::StringValue(String::from(val))),
    };
    let mut fields = std::collections::BTreeMap::new();
    fields.insert(String::from(key), inner);
    let value = prost_types::Value {
        kind: Some(prost_types::value::Kind::StructValue(prost_types::Struct { fields })),
    };
    value.encode_to_vec()
}

fn create(service: &mut BobsledJournalApi, owner: &str, payload: Option<Vec<u8>>) -> RecordId {
    let response = service
        .create(CreateRequest {
            owner_id: Some(OwnerId { value: String::from(owner) }),
            payload: payload.map(|bytes| Payload { bytes }),
        })
        .expect("create must succeed");
    response.record_id.expect("create must assign a record id")
}

fn get_record(
    service: &BobsledJournalApi,
    owner: &str,
    record: &RecordId,
) -> Option<(Option<Version>, Option<Vec<u8>>)> {
    let reply = service
        .get(GetRequest {
            owner_id: Some(OwnerId { value: String::from(owner) }),
            record_id: Some(RecordId { value: record.value.clone() }),
        })
        .expect("get must succeed");
    reply.record.map(|r| (r.version, r.payload.map(|p| p.bytes)))
}

fn update(
    service: &mut BobsledJournalApi,
    owner: &str,
    record: &RecordId,
    expected: i32,
    payload: Option<Vec<u8>>,
) -> Result<i32, ApiError> {
    service
        .update(UpdateRequest {
            owner_id: Some(OwnerId { value: String::from(owner) }),
            record_id: Some(RecordId { value: record.value.clone() }),
            version: Some(Version { value: expected }),
            payload: payload.map(|bytes| Payload { bytes }),
        })
        .map(|reply| reply.new_version.expect("update must return the new version").value)
}

fn read_page(
    service: &BobsledJournalApi,
    after: Option<ChangeId>,
    limit: i32,
) -> (Option<ChangeId>, Vec<(String, String, i32, Option<Vec<u8>>)>) {
    let reply = service
        .read_changes(ReadChangesRequest { after, limit })
        .expect("read_changes must succeed");
    let changes = reply
        .changes
        .into_iter()
        .map(|c| {
            (
                c.owner_id.expect("change must name its owner").value,
                c.record_id.expect("change must name its record").value,
                c.version.expect("change must carry a version").value,
                c.payload.map(|p| p.bytes),
            )
        })
        .collect();
    (reply.last_change, changes)
}

#[test]
fn create_then_get_round_trips() {
    let mut service = open_service();
    let payload = struct_value_bytes("k", "v");
    let record = create(&mut service, "alice", Some(payload.clone()));
    assert!(!record.value.is_empty());
    let got = get_record(&service, "alice", &record).expect("record must exist");
    assert_eq!(got.0, Some(Version { value: 0 }));
    assert_eq!(got.1, Some(payload.clone()));
    let (_, changes) = read_page(&service, None, 10);
    assert_eq!(changes.len(), 1);
    assert_eq!(changes[0].0, "alice");
    assert_eq!(changes[0].1, record.value);
    assert_eq!(changes[0].2, 0);
    assert_eq!(changes[0].3, Some(payload));
}

#[test]
fn record_ids_are_server_assigned_and_separator_free() {
    let mut service = open_service();
    let r1 = create(&mut service, "alice", None);
    let r2 = create(&mut service, "alice", None);
    assert_eq!(r1.value.len(), 32);
    assert_eq!(r2.value.len(), 32);
    assert_ne!(r1.value, r2.value);
    assert!(!r1.value.contains('/'));
}

#[test]
fn update_increments_version_and_journals_both_states() {
    let mut service = open_service();
    let record = create(&mut service, "alice", Some(struct_value_bytes("k", "v")));
    let payload_x = string_value_bytes("x");
    let new_version = update(&mut service, "alice", &record, 0, Some(payload_x.clone()))
        .expect("matching expected version must commit");
    assert_eq!(new_version, 1);
    let got = get_record(&service, "alice", &record).expect("record must exist");
    assert_eq!(got.0, Some(Version { value: 1 }));
    assert_eq!(got.1, Some(payload_x));
    let (_, changes) = read_page(&service, None, 10);
    assert_eq!(changes.len(), 2);
    assert_eq!(changes[0].2, 0);
    assert_eq!(changes[1].2, 1);
}

#[test]
fn successive_updates_return_consecutive_versions() {
    let mut service = open_service();
    let record = create(&mut service, "alice", None);
    let mut returned = Vec::new();
    for expected in 0..3 {
        let v = update(&mut service, "alice", &record, expected, Some(string_value_bytes("x")))
            .expect("matching expected version must commit");
        returned.push(v);
    }
    assert_eq!(returned, vec![1, 2, 3]);
}

#[test]
fn wrong_expected_version_aborts_without_writes() {
    let mut service = open_service();
    let record = create(&mut service, "alice", Some(string_value_bytes("v0")));
    let outcome = update(&mut service, "alice", &record, 5, Some(string_value_bytes("v1")));
    assert_eq!(outcome, Err(ApiError::Aborted));
    let got = get_record(&service, "alice", &record).expect("record must exist");
    assert_eq!(got.0, Some(Version { value: 0 }));
    assert_eq!(got.1, Some(string_value_bytes("v0")));
    let (_, changes) = read_page(&service, None, 10);
    assert_eq!(changes.len(), 1);
}

#[test]
fn rival_update_with_same_expected_version_aborts() {
    let mut service = open_service();
    let record = create(&mut service, "alice", None);
    let first = update(&mut service, "alice", &record, 0, Some(string_value_bytes("one")));
    assert_eq!(first, Ok(1));
    let second = update(&mut service, "alice", &record, 0, Some(string_value_bytes("two")));
    assert_eq!(second, Err(ApiError::Aborted));
    let got = get_record(&service, "alice", &record).expect("record must exist");
    assert_eq!(got.0, Some(Version { value: 1 }));
    assert_eq!(got.1, Some(string_value_bytes("one")));
    let (_, changes) = read_page(&service, None, 10);
    assert_eq!(changes.len(), 2);
}

#[test]
fn update_of_absent_record_with_sentinel_creates_version_zero() {
    let mut service = open_service();
    let record = RecordId { value: String::from("caller-chosen") };
    let outcome = update(&mut service, "alice", &record, -1, Some(string_value_bytes("x")));
    assert_eq!(outcome, Ok(0));
    let got = get_record(&service, "alice", &record).expect("record must exist");
    assert_eq!(got.0, Some(Version { value: 0 }));
}

#[test]
fn update_of_absent_record_with_other_expected_aborts() {
    let mut service = open_service();
    let record = RecordId { value: String::from("nothere") };
    let outcome = update(&mut service, "alice", &record, 0, None);
    assert_eq!(outcome, Err(ApiError::Aborted));
}

#[test]
fn get_of_absent_record_returns_no_record() {
    let mut service = open_service();
    create(&mut service, "alice", None);
    let absent = RecordId { value: String::from("nosuchrecord") };
    assert_eq!(get_record(&service, "alice", &absent), None);
    let other_owner = create(&mut service, "bob", None);
    assert_eq!(get_record(&service, "carol", &other_owner), None);
}

#[test]
fn pagination_resumes_with_inclusive_cursor() {
    let mut service = open_service();
    let mut created = Vec::new();
    for i in 0..25 {
        let owner = format!("owner{}", i % 3);
        created.push(create(&mut service, &owner, None).value);
    }
    let (last1, page1) = read_page(&service, None, 10);
    assert_eq!(page1.len(), 10);
    let cursor = last1.expect("a non-empty page must carry a cursor");
    let (_, page2) = read_page(&service, Some(ChangeId { value: cursor.value.clone() }), 10);
    assert_eq!(page2.len(), 10);
    // The cursor is an inclusive lower bound: the second page starts with
    // the entry the cursor names.
    assert_eq!(page2[0].1, page1[9].1);
    let ids1: Vec<String> = page1.iter().map(|c| c.1.clone()).collect();
    let ids2: Vec<String> = page2.iter().skip(1).map(|c| c.1.clone()).collect();
    assert_eq!(ids1.len() + ids2.len(), 19);
    assert_eq!(&created[..19], [&ids1[..], &ids2[..]].concat().as_slice());
}

#[test]
fn pagination_with_incremented_cursor_does_not_overlap() {
    let mut service = open_service();
    let mut created = Vec::new();
    for _i in 0..25 {
        created.push(create(&mut service, "alice", None).value);
    }
    let mut seen: Vec<String> = Vec::new();
    let mut cursor: Option<ChangeId> = None;
    loop {
        let (last, page) = read_page(&service, cursor, 10);
        if page.is_empty() {
            break;
        }
        for c in &page {
            seen.push(c.1.clone());
        }
        // Exclusive resume: pass the last returned identifier plus one.
        let bytes = last.expect("a non-empty page must carry a cursor").value;
        let mut arr = [0u8; 8];
        arr.copy_from_slice(&bytes);
        cursor = Some(ChangeId { value: (u64::from_be_bytes(arr) + 1).to_be_bytes().to_vec() });
    }
    assert_eq!(seen, created);
}

#[test]
fn empty_feed_has_no_cursor() {
    let service = open_service();
    let (last, changes) = read_page(&service, None, 10);
    assert!(changes.is_empty());
    assert!(last.is_none());
}

#[test]
fn missing_owner_is_invalid() {
    let mut service = open_service();
    let outcome = service.create(CreateRequest { owner_id: None, payload: None });
    assert_eq!(outcome, Err(ApiError::InvalidArgument));
}

#[test]
fn empty_owner_is_invalid() {
    let mut service = open_service();
    let outcome = service.create(CreateRequest {
        owner_id: Some(OwnerId { value: String::new() }),
        payload: None,
    });
    assert_eq!(outcome, Err(ApiError::InvalidArgument));
}

#[test]
fn owner_with_separator_is_invalid() {
    let mut service = open_service();
    let outcome = service.create(CreateRequest {
        owner_id: Some(OwnerId { value: String::from("ali/ce") }),
        payload: None,
    });
    assert_eq!(outcome, Err(ApiError::InvalidArgument));
    let get_outcome = service.get(GetRequest {
        owner_id: Some(OwnerId { value: String::from("a") }),
        record_id: Some(RecordId { value: String::from("r/1") }),
    });
    assert_eq!(get_outcome, Err(ApiError::InvalidArgument));
}

#[test]
fn update_missing_fields_is_invalid() {
    let mut service = open_service();
    let record = create(&mut service, "alice", None);
    let outcome = service.update(UpdateRequest {
        owner_id: Some(OwnerId { value: String::from("alice") }),
        record_id: Some(RecordId { value: record.value.clone() }),
        version: None,
        payload: None,
    });
    assert_eq!(outcome, Err(ApiError::InvalidArgument));
    let outcome = service.update(UpdateRequest {
        owner_id: None,
        record_id: Some(record),
        version: Some(Version { value: 0 }),
        payload: None,
    });
    assert_eq!(outcome, Err(ApiError::InvalidArgument));
}

#[test]
fn negative_limit_is_invalid() {
    let service = open_service();
    let outcome = service.read_changes(ReadChangesRequest { after: None, limit: -1 });
    assert_eq!(outcome, Err(ApiError::InvalidArgument));
}

#[test]
fn malformed_cursor_is_invalid() {
    let service = open_service();
    let outcome = service.read_changes(ReadChangesRequest {
        after: Some(ChangeId { value: vec![1, 2, 3] }),
        limit: 10,
    });
    assert_eq!(outcome, Err(ApiError::InvalidArgument));
}

#[test]
fn create_with_chosen_record_id_round_trips() {
    let mut service = open_service();
    let response = service
        .create_with_record_id(
            CreateRequest {
                owner_id: Some(OwnerId { value: String::from("alice") }),
                payload: Some(Payload { bytes: string_value_bytes("v") }),
            },
            RecordId { value: String::from("chosen-id") },
        )
        .expect("create with a valid chosen id must succeed");
    let record = response.record_id.expect("create must echo the record id");
    assert_eq!(record.value, "chosen-id");
    let got = get_record(&service, "alice", &record).expect("record must exist");
    assert_eq!(got.0, Some(Version { value: 0 }));
}

#[test]
fn create_with_separator_record_id_is_invalid() {
    let mut service = open_service();
    let outcome = service.create_with_record_id(
        CreateRequest {
            owner_id: Some(OwnerId { value: String::from("alice") }),
            payload: None,
        },
        RecordId { value: String::from("a/b") },
    );
    assert_eq!(outcome, Err(ApiError::InvalidArgument));
}

#[test]
fn number_payload_is_echoed_byte_for_byte() {
    let mut service = open_service();
    let value = prost_types::Value {
        kind: Some(prost_types::value::Kind::NumberValue(3.25)),
    };
    let bytes = value.encode_to_vec();
    let record = create(&mut service, "alice", Some(bytes.clone()));
    let got = get_record(&service, "alice", &record).expect("record must exist");
    assert_eq!(got.1, Some(bytes.clone()));
    let back = prost_types::Value::decode(bytes.as_slice()).expect("payload must decode");
    assert_eq!(back.kind, Some(prost_types::value::Kind::NumberValue(3.25)));
}

#[test]
fn fuse_stays_unset_during_normal_operation() {
    let mut service = open_service();
    assert!(!service.is_poisoned());
    let record = create(&mut service, "alice", None);
    update(&mut service, "alice", &record, 0, None).expect("update must commit");
    update(&mut service, "alice", &record, 7, None).expect_err("mismatch must abort");
    let (_, changes) = read_page(&service, None, 10);
    assert_eq!(changes.len(), 2);
    assert!(!service.is_poisoned());
}

#[test]
fn latest_change_agrees_with_current_state() {
    let mut service = open_service();
    let record = create(&mut service, "alice", Some(string_value_bytes("a")));
    update(&mut service, "alice", &record, 0, Some(string_value_bytes("b"))).unwrap();
    update(&mut service, "alice", &record, 1, Some(string_value_bytes("c"))).unwrap();
    let got = get_record(&service, "alice", &record).expect("record must exist");
    let (_, changes) = read_page(&service, None, 100);
    let latest = changes
        .iter()
        .filter(|c| c.1 == record.value)
        .last()
        .expect("the journal must hold a change for the record");
    assert_eq!(Some(Version { value: latest.2 }), got.0);
    assert_eq!(latest.3, got.1);
}
