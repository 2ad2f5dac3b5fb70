use si_layer_cache::job::SyncProcessor;
use si_layer_cache::service::{
    AddActionRequest, ErrorResponse, FixError, LabelEntry, ListOpenChangeSetsResponse, Visibility,
    WorkflowResolveRequest, WorkflowResolveResponse,
};

#[test]
fn sync_processor_has_no_queue() {
    let processor = SyncProcessor::new();
    assert_eq!(processor.process_queue(), Ok(()));
    assert_eq!(processor.clone().process_queue(), Ok(()));
}

#[test]
fn fix_error_carries_a_message() {
    assert_eq!(FixError::Transactions("rolled back".to_string()).to_string(), "rolled back");
    assert_eq!(FixError::FixExecution(String::new()).to_string(), "");
    assert_eq!(FixError::Component("c".to_string()).to_string(), "c");
}

#[test]
fn fix_error_names_what_was_not_found() {
    let id = 0x4141_4141_4141_4141_4141_4141_4141_4141;
    assert_eq!(
        FixError::ConfirmationPrototypeNotFound(id).to_string(),
        "confirmation prototype 21850M2GA1850M2GA1850M2GA1 not found"
    );
    assert_eq!(
        FixError::ComponentNotFound(id).to_string(),
        "component 21850M2GA1850M2GA1850M2GA1 not found"
    );
    assert_eq!(
        FixError::NoSchemaForComponent(0).to_string(),
        "no schema found for component 00000000000000000000000000"
    );
    assert_eq!(
        FixError::NoSchemaVariantForComponent(1).to_string(),
        "no schema variant found for component 00000000000000000000000001"
    );
}

#[test]
fn fix_error_is_an_internal_server_error() {
    assert_eq!(
        FixError::ComponentNotFound(0).into_response(),
        ErrorResponse {
            status_code: 500,
            code: 42,
            message: "component 00000000000000000000000000 not found".to_string(),
        }
    );
    assert_eq!(
        FixError::StandardModel("gone".to_string()).into_response(),
        ErrorResponse { status_code: 500, code: 42, message: "gone".to_string() }
    );
}

#[test]
fn requests_hold_their_fields() {
    let visibility = Visibility { change_set_pk: 9, deleted_at: None };
    let add = AddActionRequest { prototype_id: 1, component_id: 2, visibility };
    assert_eq!(add.visibility.change_set_pk, 9);
    let resolve = WorkflowResolveRequest { id: 3, component_id: 2, visibility };
    assert_eq!(resolve.component_id, add.component_id);
    let response = WorkflowResolveResponse::new("{}".to_string());
    assert_eq!(response.as_json(), "{}");
    let list = ListOpenChangeSetsResponse {
        list: vec![LabelEntry { label: "main".to_string(), value: 9 }],
    };
    assert_eq!(list.list[0].label, "main");
}
