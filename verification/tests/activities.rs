use si_layer_cache::activities::{
    Activity, ActivityId, ActivityPayload, ActivityPayloadDiscriminants, ActivityRebaseRequest,
};
use si_layer_cache::base32::DecodeError;
use si_layer_cache::error::LayerDbError;
use si_layer_cache::event::{Actor, LayeredEventMetadata, Tenancy};
use si_layer_cache::integration_test::{IntegrationTest, IntegrationTestAlt};
use si_layer_cache::rebase::{RebaseFinished, RebaseRequest, RebaseStatus};
use si_layer_cache::subject::{for_activity, for_activity_discriminate, prefixed_subject};

fn sample_metadata() -> LayeredEventMetadata {
    LayeredEventMetadata::new(
        Tenancy { workspace_pk: 0x4141_4141_4141_4141_4141_4141_4141_4141, change_set_id: 7 },
        Actor::User(u128::MAX),
        1_700_000_000_000,
    )
}

fn sample_request() -> RebaseRequest {
    RebaseRequest {
        to_rebase_change_set_id: 1,
        onto_workspace_snapshot_address: "b3a1".to_string(),
        onto_vector_clock_id: 2,
    }
}

#[test]
fn id_text_of_known_values() {
    assert_eq!(
        ActivityId(0x4141_4141_4141_4141_4141_4141_4141_4141).to_string(),
        "21850M2GA1850M2GA1850M2GA1"
    );
    assert_eq!(
        ActivityId(0x4d4e_3850_5144_4a59_4542_3433_5a41_3756).to_string(),
        "2D9RW50MA499CMAGHM6DD42DTP"
    );
    assert_eq!(ActivityId(0).to_string(), "00000000000000000000000000");
    assert_eq!(ActivityId(u128::MAX).to_string(), "7ZZZZZZZZZZZZZZZZZZZZZZZZZ");
    assert_eq!(ActivityId(1).to_string(), "00000000000000000000000001");
    assert_eq!(ActivityId(31).to_string(), "0000000000000000000000000Z");
    assert_eq!(ActivityId(32).to_string(), "00000000000000000000000010");
}

#[test]
fn id_array_to_str_writes_the_text() {
    let mut buf = [0u8; 26];
    ActivityId(0x4d4e_3850_5144_4a59_4542_3433_5a41_3756).array_to_str(&mut buf);
    assert_eq!(&buf[..], "2D9RW50MA499CMAGHM6DD42DTP".as_bytes());
}

#[test]
fn id_from_str_reads_either_case() {
    let upper = ActivityId::from_str("2D9RW50MA499CMAGHM6DD42DTP");
    let lower = ActivityId::from_str("2d9rw50ma499cmaghm6dd42dtp");
    assert_eq!(upper, Ok(ActivityId(0x4d4e_3850_5144_4a59_4542_3433_5a41_3756)));
    assert_eq!(lower, upper);
}

#[test]
fn id_from_str_refuses_a_wrong_length() {
    assert_eq!(ActivityId::from_str(""), Err(DecodeError::InvalidLength));
    assert_eq!(
        ActivityId::from_str("2D9RW50MA499CMAGHM6DD42DT"),
        Err(DecodeError::InvalidLength)
    );
    assert_eq!(
        ActivityId::from_str("2D9RW50MA499CMAGHM6DD42DTPP"),
        Err(DecodeError::InvalidLength)
    );
}

#[test]
fn id_from_str_refuses_what_is_no_symbol() {
    for bad in ["I", "L", "O", "U", "[", "-", " "] {
        let text = format!("2D9RW50{}A499CMAGHM6DD42DTP", bad);
        assert_eq!(ActivityId::from_str(&text), Err(DecodeError::InvalidChar));
    }
    // 26 bytes, 25 characters: the length is right and a byte is no symbol.
    let text = format!("{}{}", "\u{e9}", "0".repeat(24));
    assert_eq!(text.len(), 26);
    assert_eq!(ActivityId::from_str(&text), Err(DecodeError::InvalidChar));
}

#[test]
fn id_from_str_loses_the_bits_past_the_128th() {
    assert_eq!(ActivityId::from_str("ZZZZZZZZZZZZZZZZZZZZZZZZZZ"), Ok(ActivityId(u128::MAX)));
    assert_eq!(ActivityId::from_str("80000000000000000000000000"), Ok(ActivityId(0)));
}

#[test]
fn id_round_trip_through_text() {
    for bits in [0u128, 1, 31, 32, 1 << 64, 1 << 127, u128::MAX, 0x0123_4567_89ab_cdef] {
        let id = ActivityId(bits);
        assert_eq!(ActivityId::from_str(&id.to_string()), Ok(id));
        assert_eq!(id.into_inner(), bits);
        assert_eq!(ActivityId::from(bits), id);
    }
}

#[test]
fn texts_sort_as_the_identifiers_do() {
    let mut ids = vec![
        ActivityId(u128::MAX),
        ActivityId(0),
        ActivityId(1 << 125),
        ActivityId((1 << 125) - 1),
        ActivityId(32),
        ActivityId(31),
        ActivityId(0x0190_0000_0000 << 80),
        ActivityId((0x0190_0000_0000 << 80) - 1),
        ActivityId(9),
        ActivityId(10),
    ];
    let mut texts: Vec<String> = ids.iter().map(|id| id.to_string()).collect();
    ids.sort();
    texts.sort();
    let sorted: Vec<String> = ids.iter().map(|id| id.to_string()).collect();
    assert_eq!(texts, sorted);
    assert!(ActivityId(9).to_string() < ActivityId(10).to_string());
    assert_eq!(ActivityId(10).to_string(), "0000000000000000000000000A");
}

#[test]
fn fresh_ids_have_a_text_that_reads_back() {
    let a = ActivityId::new();
    let b = ActivityId::new();
    assert_eq!(a.to_string().len(), 26);
    assert_eq!(ActivityId::from_str(&a.to_string()), Ok(a));
    assert_ne!(a, b);
    // The upper 48 bits are the time in milliseconds: not before 2020.
    assert!(a.into_inner() >> 80 > 1_577_836_800_000);
}

#[test]
fn subjects_of_the_kinds() {
    assert_eq!(ActivityPayloadDiscriminants::RebaseRequest.to_subject(), "rebase.request");
    assert_eq!(ActivityPayloadDiscriminants::RebaseFinished.to_subject(), "rebase.finished");
    assert_eq!(ActivityPayloadDiscriminants::IntegrationTest.to_subject(), "integration_test.test");
    assert_eq!(
        ActivityPayloadDiscriminants::IntegrationTestAlt.to_subject(),
        "integration_test.alt"
    );
}

#[test]
fn subject_of_a_payload_is_that_of_its_kind() {
    let payloads = [
        ActivityPayload::RebaseRequest(sample_request()),
        ActivityPayload::RebaseFinished(RebaseFinished::new(
            RebaseStatus::Success { updates_performed: 3 },
            1,
            "b3a1".to_string(),
        )),
        ActivityPayload::IntegrationTest(IntegrationTest::new("a".to_string())),
        ActivityPayload::IntegrationTestAlt(IntegrationTestAlt::new("b".to_string())),
    ];
    let expected =
        ["rebase.request", "rebase.finished", "integration_test.test", "integration_test.alt"];
    for (payload, subject) in payloads.iter().zip(expected) {
        assert_eq!(payload.to_subject(), subject);
        assert_eq!(payload.discriminant().to_subject(), subject);
    }
}

#[test]
fn subject_with_and_without_prefix() {
    let activity = Activity::rebase(sample_request(), sample_metadata());
    assert_eq!(for_activity(None, &activity), "rebase.request");
    assert_eq!(for_activity(Some("fleet-7"), &activity), "fleet-7.rebase.request");
    assert_eq!(
        for_activity_discriminate(Some("fleet-7"), ActivityPayloadDiscriminants::IntegrationTestAlt),
        "fleet-7.integration_test.alt"
    );
    assert_eq!(
        for_activity_discriminate(None, ActivityPayloadDiscriminants::RebaseFinished),
        "rebase.finished"
    );
    assert_eq!(prefixed_subject(Some(""), "x"), ".x");
}

#[test]
fn different_kinds_never_share_a_subject() {
    let kinds = [
        ActivityPayloadDiscriminants::RebaseRequest,
        ActivityPayloadDiscriminants::RebaseFinished,
        ActivityPayloadDiscriminants::IntegrationTest,
        ActivityPayloadDiscriminants::IntegrationTestAlt,
    ];
    for a in kinds {
        for b in kinds {
            let same = for_activity_discriminate(Some("p"), a)
                == for_activity_discriminate(Some("p"), b);
            assert_eq!(same, a == b);
        }
    }
}

#[test]
fn new_activity_keeps_its_fields() {
    let parent = ActivityId(99);
    let payload = ActivityPayload::IntegrationTest(IntegrationTest::new("probe".to_string()));
    let activity = Activity::new(payload.clone(), sample_metadata(), Some(parent));
    assert_eq!(activity.payload, payload);
    assert_eq!(activity.metadata, sample_metadata());
    assert_eq!(activity.parent_activity_id, Some(parent));
}

#[test]
fn rebase_has_no_parent() {
    let activity = Activity::rebase(sample_request(), sample_metadata());
    assert_eq!(activity.payload, ActivityPayload::RebaseRequest(sample_request()));
    assert_eq!(activity.metadata, sample_metadata());
    assert_eq!(activity.parent_activity_id, None);
}

#[test]
fn rebase_finished_links_back_to_the_request() {
    let request = Activity::rebase(sample_request(), sample_metadata());
    let finished = RebaseFinished::new(
        RebaseStatus::Error { message: "no such change set".to_string() },
        1,
        "b3a1".to_string(),
    );
    let answer = Activity::rebase_finished(finished.clone(), sample_metadata(), request.id);
    assert_eq!(answer.payload, ActivityPayload::RebaseFinished(finished));
    assert_eq!(answer.parent_activity_id, Some(request.id));
    assert_ne!(answer.id, request.id);
}

#[test]
fn rebase_finished_getters() {
    let finished = RebaseFinished::new(
        RebaseStatus::ConflictsFound { conflicts_found: 2, updates_found_and_skipped: 5 },
        77,
        "addr".to_string(),
    );
    assert_eq!(
        finished.status(),
        &RebaseStatus::ConflictsFound { conflicts_found: 2, updates_found_and_skipped: 5 }
    );
    assert_eq!(finished.to_rebase_change_set_id(), 77);
    assert_eq!(finished.onto_workspace_snapshot_address(), "addr");
}

#[test]
fn narrowing_keeps_a_rebase_request() {
    let activity = Activity::new(
        ActivityPayload::RebaseRequest(sample_request()),
        sample_metadata(),
        Some(ActivityId(5)),
    );
    let id = activity.id;
    let narrowed = ActivityRebaseRequest::try_from(activity);
    assert_eq!(
        narrowed,
        Ok(ActivityRebaseRequest {
            id,
            payload: sample_request(),
            metadata: sample_metadata(),
            parent_activity_id: Some(ActivityId(5)),
        })
    );
}

#[test]
fn narrowing_refuses_every_other_kind() {
    let others = [
        ActivityPayload::RebaseFinished(RebaseFinished::new(
            RebaseStatus::Success { updates_performed: 0 },
            1,
            String::new(),
        )),
        ActivityPayload::IntegrationTest(IntegrationTest::new("a".to_string())),
        ActivityPayload::IntegrationTestAlt(IntegrationTestAlt::new("b".to_string())),
    ];
    for payload in others {
        let activity = Activity::new(payload, sample_metadata(), None);
        assert_eq!(ActivityRebaseRequest::try_from(activity), Err(LayerDbError::ActivityRebase));
    }
}
