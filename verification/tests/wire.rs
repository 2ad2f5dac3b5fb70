use si_layer_cache::activities::{Activity, ActivityId, ActivityPayload};
use si_layer_cache::codec::{from_bytes, to_stdvec};
use si_layer_cache::event::{Actor, LayeredEventMetadata, Tenancy};
use si_layer_cache::integration_test::{IntegrationTest, IntegrationTestAlt};
use si_layer_cache::rebase::{RebaseFinished, RebaseRequest, RebaseStatus};
use si_layer_cache::wire::{
    read_blob, read_id, read_option_tag, read_string, read_u32, read_u64, write_blob, write_bytes,
    write_id, write_string, write_varint, WireError,
};

fn varint_of(n: u64) -> Vec<u8> {
    let mut out = Vec::new();
    write_varint(n, &mut out);
    out
}

fn wire_metadata() -> LayeredEventMetadata {
    LayeredEventMetadata {
        tenancy: Tenancy { workspace_pk: 0x0123_4567_89ab_cdef, change_set_id: u128::MAX },
        actor: Actor::System,
        timestamp: 1_700_000_000_123,
    }
}

fn every_payload() -> Vec<ActivityPayload> {
    vec![
        ActivityPayload::RebaseRequest(RebaseRequest {
            to_rebase_change_set_id: 11,
            onto_workspace_snapshot_address: "4f2a\u{e9}".to_string(),
            onto_vector_clock_id: 12,
        }),
        ActivityPayload::RebaseFinished(RebaseFinished::new(
            RebaseStatus::Success { updates_performed: 300 },
            13,
            "addr-1".to_string(),
        )),
        ActivityPayload::RebaseFinished(RebaseFinished::new(
            RebaseStatus::ConflictsFound { conflicts_found: 1, updates_found_and_skipped: u64::MAX },
            14,
            String::new(),
        )),
        ActivityPayload::RebaseFinished(RebaseFinished::new(
            RebaseStatus::Error { message: "snapshot is gone".to_string() },
            15,
            "addr-3".to_string(),
        )),
        ActivityPayload::IntegrationTest(IntegrationTest::new("first".to_string())),
        ActivityPayload::IntegrationTestAlt(IntegrationTestAlt::new("second".to_string())),
    ]
}

#[test]
fn varint_exact_bytes() {
    assert_eq!(varint_of(0), vec![0x00]);
    assert_eq!(varint_of(1), vec![0x01]);
    assert_eq!(varint_of(127), vec![0x7f]);
    assert_eq!(varint_of(128), vec![0x80, 0x01]);
    assert_eq!(varint_of(300), vec![0xac, 0x02]);
    assert_eq!(varint_of(16_383), vec![0xff, 0x7f]);
    assert_eq!(varint_of(16_384), vec![0x80, 0x80, 0x01]);
    assert_eq!(
        varint_of(u64::MAX),
        vec![0xff, 0xff, 0xff, 0xff, 0xff, 0xff, 0xff, 0xff, 0xff, 0x01]
    );
}

#[test]
fn varint_is_what_postcard_writes() {
    for n in [0u64, 1, 127, 128, 255, 256, 65_535, 1 << 32, (1 << 63) + 5, u64::MAX] {
        assert_eq!(varint_of(n), postcard::to_stdvec(&n).unwrap());
    }
}

#[test]
fn varint_appends() {
    let mut out = vec![9u8, 9];
    write_varint(300, &mut out);
    assert_eq!(out, vec![9, 9, 0xac, 0x02]);
    write_bytes(&[1, 2, 3], &mut out);
    assert_eq!(out, vec![9, 9, 0xac, 0x02, 1, 2, 3]);
}

#[test]
fn read_u64_gives_value_and_next_position() {
    assert_eq!(read_u64(&[0xac, 0x02, 0x55], 0), Ok((300, 2)));
    assert_eq!(read_u64(&[0x55, 0xac, 0x02], 1), Ok((300, 3)));
    assert_eq!(read_u64(&[0x00], 0), Ok((0, 1)));
    let max = varint_of(u64::MAX);
    assert_eq!(read_u64(&max, 0), Ok((u64::MAX, 10)));
}

#[test]
fn read_u64_takes_a_long_form_of_a_small_number() {
    assert_eq!(read_u64(&[0x80, 0x00], 0), Ok((0, 2)));
    assert_eq!(read_u64(&[0x81, 0x80, 0x00], 0), Ok((1, 3)));
    assert_eq!(postcard::from_bytes::<u64>(&[0x81, 0x80, 0x00]), Ok(1));
}

#[test]
fn read_u64_refuses_what_postcard_refuses() {
    let cases: [&[u8]; 5] = [
        &[],
        &[0x80],
        &[0xff, 0xff, 0xff, 0xff, 0xff, 0xff, 0xff, 0xff, 0xff, 0x02],
        &[0xff, 0xff, 0xff, 0xff, 0xff, 0xff, 0xff, 0xff, 0xff, 0x80, 0x00],
        &[0xff, 0xff, 0xff, 0xff, 0xff, 0xff, 0xff, 0xff, 0xff],
    ];
    let expected = [
        WireError::UnexpectedEnd,
        WireError::UnexpectedEnd,
        WireError::BadVarint,
        WireError::BadVarint,
        WireError::UnexpectedEnd,
    ];
    for (bytes, error) in cases.iter().zip(expected) {
        assert_eq!(read_u64(bytes, 0), Err(error));
        assert!(postcard::from_bytes::<u64>(bytes).is_err());
    }
}

#[test]
fn reading_past_the_end_finds_nothing() {
    assert_eq!(read_u64(&[1], 1), Err(WireError::UnexpectedEnd));
    assert_eq!(read_u64(&[1], 5), Err(WireError::UnexpectedEnd));
    assert_eq!(read_u32(&[], 3), Err(WireError::UnexpectedEnd));
    assert_eq!(read_string(&[0], 2), Err(WireError::UnexpectedEnd));
    assert_eq!(read_blob(&[0], usize::MAX), Err(WireError::UnexpectedEnd));
    assert_eq!(read_id(&[0], 7), Err(WireError::UnexpectedEnd));
    assert_eq!(read_option_tag(&[0], 1), Err(WireError::UnexpectedEnd));
}

#[test]
fn read_u32_bounds() {
    assert_eq!(read_u32(&[0xff, 0xff, 0xff, 0xff, 0x0f], 0), Ok((u32::MAX, 5)));
    assert_eq!(read_u32(&[0xff, 0xff, 0xff, 0xff, 0x10], 0), Err(WireError::BadVarint));
    assert_eq!(read_u32(&[0xff, 0xff, 0xff, 0xff, 0x8f, 0x00], 0), Err(WireError::BadVarint));
    assert_eq!(read_u32(&[0xff, 0xff], 0), Err(WireError::UnexpectedEnd));
    assert_eq!(read_u32(&[3], 0), Ok((3, 1)));
    assert!(postcard::from_bytes::<u32>(&[0xff, 0xff, 0xff, 0xff, 0x10]).is_err());
    assert_eq!(postcard::from_bytes::<u32>(&[0xff, 0xff, 0xff, 0xff, 0x0f]), Ok(u32::MAX));
}

#[test]
fn string_exact_bytes() {
    let mut out = Vec::new();
    write_string("slave to the grind", &mut out);
    let mut expected = vec![18u8];
    expected.extend_from_slice(b"slave to the grind");
    assert_eq!(out, expected);
    assert_eq!(out, postcard::to_stdvec("slave to the grind").unwrap());

    let mut empty = Vec::new();
    write_string("", &mut empty);
    assert_eq!(empty, vec![0u8]);

    let long = "x".repeat(200);
    let mut out = Vec::new();
    write_string(&long, &mut out);
    assert_eq!(&out[..2], &[0xc8, 0x01]);
    assert_eq!(out.len(), 202);
    assert_eq!(out, postcard::to_stdvec(&long).unwrap());
}

#[test]
fn string_reads_back() {
    let mut out = vec![0xaa];
    write_string("h\u{e9}llo \u{1f980}", &mut out);
    out.push(0xbb);
    let end = out.len() - 1;
    assert_eq!(read_string(&out, 1), Ok(("h\u{e9}llo \u{1f980}".to_string(), end)));
}

#[test]
fn string_refuses_malformed_bytes() {
    assert_eq!(read_string(&[], 0), Err(WireError::UnexpectedEnd));
    assert_eq!(read_string(&[3, b'a', b'b'], 0), Err(WireError::UnexpectedEnd));
    assert_eq!(read_string(&[2, 0xff, 0xfe], 0), Err(WireError::BadUtf8));
    assert_eq!(read_string(&[1, 0x80], 0), Err(WireError::BadUtf8));
    assert_eq!(read_string(&[2, 0xc3], 0), Err(WireError::UnexpectedEnd));
    assert_eq!(read_string(&[1, 0xc3, 0xa9], 0), Err(WireError::BadUtf8));
    assert!(postcard::from_bytes::<String>(&[2, 0xff, 0xfe]).is_err());
}

#[test]
fn blob_round_trip() {
    let body = [0u8, 255, 7, 128];
    let mut out = Vec::new();
    write_blob(&body, &mut out);
    assert_eq!(out, vec![4, 0, 255, 7, 128]);
    assert_eq!(read_blob(&out, 0), Ok((body.to_vec(), 5)));
    assert_eq!(read_blob(&[5, 1, 2], 0), Err(WireError::UnexpectedEnd));
    assert_eq!(out, postcard::to_stdvec(&body[..]).unwrap());
}

#[test]
fn id_exact_bytes() {
    let mut out = Vec::new();
    write_id(0x4141_4141_4141_4141_4141_4141_4141_4141, &mut out);
    let mut expected = vec![26u8];
    expected.extend_from_slice(b"21850M2GA1850M2GA1850M2GA1");
    assert_eq!(out, expected);
    assert_eq!(
        out,
        postcard::to_stdvec(&ulid::Ulid(0x4141_4141_4141_4141_4141_4141_4141_4141)).unwrap()
    );
    assert_eq!(read_id(&out, 0), Ok((0x4141_4141_4141_4141_4141_4141_4141_4141, 27)));
}

#[test]
fn id_refuses_malformed_text() {
    let mut short = vec![25u8];
    short.extend_from_slice(b"21850M2GA1850M2GA1850M2GA");
    assert_eq!(read_id(&short, 0), Err(WireError::BadIdLength));

    let mut bad = vec![26u8];
    bad.extend_from_slice(b"21850M2GA1850M2GA1850M2GAU");
    assert_eq!(read_id(&bad, 0), Err(WireError::BadIdChar));

    assert_eq!(read_id(&[26, b'0'], 0), Err(WireError::UnexpectedEnd));
    assert_eq!(read_id(&[1, 0xff], 0), Err(WireError::BadUtf8));
}

#[test]
fn option_tag_values() {
    assert_eq!(read_option_tag(&[0], 0), Ok((false, 1)));
    assert_eq!(read_option_tag(&[1], 0), Ok((true, 1)));
    assert_eq!(read_option_tag(&[2], 0), Err(WireError::BadOption));
    assert_eq!(read_option_tag(&[], 0), Err(WireError::UnexpectedEnd));
    assert_eq!(read_option_tag(&[9, 1], 1), Ok((true, 2)));
}

#[test]
fn activity_round_trip_for_every_payload() {
    for payload in every_payload() {
        for parent in [None, Some(ActivityId(0)), Some(ActivityId(u128::MAX))] {
            let activity = Activity {
                id: ActivityId(0x4d4e_3850_5144_4a59_4542_3433_5a41_3756),
                payload: payload.clone(),
                metadata: wire_metadata(),
                parent_activity_id: parent,
            };
            let bytes = to_stdvec(&activity);
            assert_eq!(from_bytes(&bytes), Ok(activity.clone()));
            assert_eq!(to_stdvec(&from_bytes(&bytes).unwrap()), bytes);
        }
    }
}

#[test]
fn activity_round_trip_with_a_user_actor() {
    let mut metadata = wire_metadata();
    metadata.actor = Actor::User(42);
    metadata.timestamp = u64::MAX;
    let activity = Activity::new(every_payload().remove(0), metadata, None);
    assert_eq!(from_bytes(&to_stdvec(&activity)), Ok(activity));
}

#[test]
fn activity_exact_bytes() {
    let activity = Activity {
        id: ActivityId(0),
        payload: ActivityPayload::IntegrationTest(IntegrationTest::new("hi".to_string())),
        metadata: LayeredEventMetadata {
            tenancy: Tenancy { workspace_pk: 1, change_set_id: 2 },
            actor: Actor::System,
            timestamp: 300,
        },
        parent_activity_id: None,
    };
    let mut expected = vec![26u8];
    expected.extend_from_slice(b"00000000000000000000000000");
    expected.extend_from_slice(&[2, 2, b'h', b'i']);
    expected.push(26);
    expected.extend_from_slice(b"00000000000000000000000001");
    expected.push(26);
    expected.extend_from_slice(b"00000000000000000000000002");
    expected.extend_from_slice(&[0, 0xac, 0x02, 0]);
    assert_eq!(to_stdvec(&activity), expected);
}

#[test]
fn activity_bytes_are_what_postcard_writes() {
    let id = ulid::Ulid(0x4d4e_3850_5144_4a59_4542_3433_5a41_3756);
    let parent = ulid::Ulid(77);
    let metadata = ((ulid::Ulid(0x0123_4567_89ab_cdef), ulid::Ulid(u128::MAX)), (0u32,), 1_700_000_000_123u64);

    let request = Activity {
        id: ActivityId(id.0),
        payload: every_payload().remove(0),
        metadata: wire_metadata(),
        parent_activity_id: Some(ActivityId(parent.0)),
    };
    let as_tuples =
        (id, (0u32, (ulid::Ulid(11), "4f2a\u{e9}", ulid::Ulid(12))), metadata, Some(parent));
    assert_eq!(to_stdvec(&request), postcard::to_stdvec(&as_tuples).unwrap());

    let finished = Activity {
        id: ActivityId(id.0),
        payload: every_payload().remove(2),
        metadata: wire_metadata(),
        parent_activity_id: None,
    };
    let as_tuples = (
        id,
        (1u32, ((1u32, 1u64, u64::MAX), ulid::Ulid(14), "")),
        metadata,
        None::<ulid::Ulid>,
    );
    assert_eq!(to_stdvec(&finished), postcard::to_stdvec(&as_tuples).unwrap());

    let failed = Activity {
        id: ActivityId(id.0),
        payload: every_payload().remove(3),
        metadata: wire_metadata(),
        parent_activity_id: None,
    };
    let as_tuples = (
        id,
        (1u32, ((2u32, "snapshot is gone"), ulid::Ulid(15), "addr-3")),
        metadata,
        None::<ulid::Ulid>,
    );
    assert_eq!(to_stdvec(&failed), postcard::to_stdvec(&as_tuples).unwrap());

    let probe = Activity {
        id: ActivityId(id.0),
        payload: every_payload().remove(5),
        metadata: wire_metadata(),
        parent_activity_id: None,
    };
    let as_tuples = (id, (3u32, "second"), metadata, None::<ulid::Ulid>);
    assert_eq!(to_stdvec(&probe), postcard::to_stdvec(&as_tuples).unwrap());
}

#[test]
fn postcard_reads_what_was_written() {
    let activity = Activity {
        id: ActivityId(5),
        payload: ActivityPayload::IntegrationTest(IntegrationTest::new("probe".to_string())),
        metadata: wire_metadata(),
        parent_activity_id: Some(ActivityId(6)),
    };
    type Shape = (ulid::Ulid, (u32, String), ((ulid::Ulid, ulid::Ulid), (u32,), u64), Option<ulid::Ulid>);
    let read: Shape = postcard::from_bytes(&to_stdvec(&activity)).unwrap();
    assert_eq!(
        read,
        (
            ulid::Ulid(5),
            (2, "probe".to_string()),
            ((ulid::Ulid(0x0123_4567_89ab_cdef), ulid::Ulid(u128::MAX)), (0,), 1_700_000_000_123),
            Some(ulid::Ulid(6)),
        )
    );
}

#[test]
fn decoding_ignores_what_follows_an_activity() {
    let activity = Activity::new(every_payload().remove(4), wire_metadata(), None);
    let mut bytes = to_stdvec(&activity);
    bytes.extend_from_slice(&[0xde, 0xad, 0xbe, 0xef]);
    assert_eq!(from_bytes(&bytes), Ok(activity));
}

#[test]
fn decoding_refuses_every_truncation() {
    let activity = Activity {
        id: ActivityId(1),
        payload: every_payload().remove(3),
        metadata: wire_metadata(),
        parent_activity_id: Some(ActivityId(2)),
    };
    let bytes = to_stdvec(&activity);
    for cut in 0..bytes.len() {
        assert_eq!(from_bytes(&bytes[..cut]), Err(WireError::UnexpectedEnd));
    }
}

#[test]
fn decoding_names_the_reason() {
    let activity = Activity {
        id: ActivityId(1),
        payload: ActivityPayload::IntegrationTest(IntegrationTest::new("ab".to_string())),
        metadata: wire_metadata(),
        parent_activity_id: None,
    };
    let good = to_stdvec(&activity);
    assert_eq!(from_bytes(&[]), Err(WireError::UnexpectedEnd));

    // A payload tag that names no kind.
    let mut bytes = good.clone();
    bytes[27] = 4;
    assert_eq!(from_bytes(&bytes), Err(WireError::BadVariant));

    // A name that is no UTF-8.
    let mut bytes = good.clone();
    bytes[29] = 0xff;
    assert_eq!(from_bytes(&bytes), Err(WireError::BadUtf8));

    // An identifier with a character that is no symbol.
    let mut bytes = good.clone();
    bytes[1] = b'U';
    assert_eq!(from_bytes(&bytes), Err(WireError::BadIdChar));

    // An identifier that is too short.
    let mut bytes = vec![3u8];
    bytes.extend_from_slice(b"000");
    assert_eq!(from_bytes(&bytes), Err(WireError::BadIdLength));

    // A parent tag that is neither 0 nor 1.
    let mut bytes = good.clone();
    let last = bytes.len() - 1;
    bytes[last] = 2;
    assert_eq!(from_bytes(&bytes), Err(WireError::BadOption));

    // An actor tag that names no variant.
    let mut bytes = good.clone();
    let actor = 27 + 4 + 27 + 27;
    assert_eq!(bytes[actor], 0);
    bytes[actor] = 9;
    assert_eq!(from_bytes(&bytes), Err(WireError::BadVariant));

    // A length that runs past ten bytes.
    let bytes = [0xffu8; 12];
    assert_eq!(from_bytes(&bytes), Err(WireError::BadVarint));
}
