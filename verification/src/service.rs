//! The plain values of a few service requests and answers, and the error of
//! the fix service.

use vstd::prelude::*;

use crate::base32;

verus! {

/// The change set that a request looks at, and whether it looks at what was
/// deleted in it. Identifiers are given by their 128 bits, times in
/// milliseconds since the Unix epoch.
#[derive(Clone, Copy, Debug, PartialEq, Eq, Structural)]
pub struct Visibility {
    pub change_set_pk: u128,
    pub deleted_at: Option<u64>,
}

/// A request to add an action for a component to a change set.
#[derive(Clone, Copy, Debug, PartialEq, Eq, Structural)]
pub struct AddActionRequest {
    pub prototype_id: u128,
    pub component_id: u128,
    pub visibility: Visibility,
}

/// One entry of a list to choose from.
#[derive(Clone, Debug, PartialEq, Eq)]
pub struct LabelEntry {
    pub label: String,
    pub value: u128,
}

/// The open change sets, each with its name.
#[derive(Clone, Debug, PartialEq, Eq)]
pub struct ListOpenChangeSetsResponse {
    pub list: Vec<LabelEntry>,
}

/// A request to resolve a workflow for a component.
#[derive(Clone, Copy, Debug, PartialEq, Eq, Structural)]
pub struct WorkflowResolveRequest {
    pub id: u128,
    pub component_id: u128,
    pub visibility: Visibility,
}

/// The resolved workflow, as JSON text.
#[derive(Clone, Debug, PartialEq, Eq)]
pub struct WorkflowResolveResponse {
    json: String,
}

impl WorkflowResolveResponse {
    /// The answer that holds `json`.
    pub fn new(json: String) -> (r: WorkflowResolveResponse)
        ensures
            r.json()@ == json@,
    {
        WorkflowResolveResponse { json }
    }

    /// The JSON text.
    pub closed spec fn json(&self) -> String {
        self.json
    }

    /// The JSON text.
    pub fn as_json(&self) -> (json: &String)
        ensures
            json@ == self.json()@,
    {
        &self.json
    }
}

/// An error of the fix service. An error that another part of the system
/// raised is carried as its message.
#[derive(Clone, Debug, PartialEq, Eq)]
pub enum FixError {
    Transactions(String),
    StandardModel(String),
    Component(String),
    ConfirmationResolver(String),
    ConfirmationResolverTree(String),
    ConfirmationPrototype(String),
    FixResolver(String),
    FixExecution(String),
    ConfirmationPrototypeNotFound(u128),
    ComponentNotFound(u128),
    NoSchemaForComponent(u128),
    NoSchemaVariantForComponent(u128),
}

/// What a caller of the service is told about an error.
#[derive(Clone, Debug, PartialEq, Eq)]
pub struct ErrorResponse {
    /// The HTTP status.
    pub status_code: u16,
    /// The code of the error within the service.
    pub code: u32,
    /// The message of the error.
    pub message: String,
}

impl FixError {
    /// The message of the error. A carried error speaks for itself; the
    /// others name the identifier that was not found, in its text form.
    pub open spec fn message(self) -> Seq<char> {
        match self {
            FixError::Transactions(m) => m@,
            FixError::StandardModel(m) => m@,
            FixError::Component(m) => m@,
            FixError::ConfirmationResolver(m) => m@,
            FixError::ConfirmationResolverTree(m) => m@,
            FixError::ConfirmationPrototype(m) => m@,
            FixError::FixResolver(m) => m@,
            FixError::FixExecution(m) => m@,
            FixError::ConfirmationPrototypeNotFound(id) => "confirmation prototype "@
                + base32::text_of(id) + " not found"@,
            FixError::ComponentNotFound(id) => "component "@ + base32::text_of(id)
                + " not found"@,
            FixError::NoSchemaForComponent(id) => "no schema found for component "@
                + base32::text_of(id),
            FixError::NoSchemaVariantForComponent(id) => "no schema variant found for component "@
                + base32::text_of(id),
        }
    }

    /// The message of the error.
    pub fn to_string(&self) -> (text: String)
        ensures
            text@ == self.message(),
    {
        match self {
            FixError::Transactions(m) => m.clone(),
            FixError::StandardModel(m) => m.clone(),
            FixError::Component(m) => m.clone(),
            FixError::ConfirmationResolver(m) => m.clone(),
            FixError::ConfirmationResolverTree(m) => m.clone(),
            FixError::ConfirmationPrototype(m) => m.clone(),
            FixError::FixResolver(m) => m.clone(),
            FixError::FixExecution(m) => m.clone(),
            FixError::ConfirmationPrototypeNotFound(id) => {
                let text = base32::encode(*id);
                "confirmation prototype ".to_owned().concat(text.as_str()).concat(" not found")
            },
            FixError::ComponentNotFound(id) => {
                let text = base32::encode(*id);
                "component ".to_owned().concat(text.as_str()).concat(" not found")
            },
            FixError::NoSchemaForComponent(id) => {
                let text = base32::encode(*id);
                "no schema found for component ".to_owned().concat(text.as_str())
            },
            FixError::NoSchemaVariantForComponent(id) => {
                let text = base32::encode(*id);
                "no schema variant found for component ".to_owned().concat(text.as_str())
            },
        }
    }

    /// What a caller is told: every error of this service is an internal
    /// server error, status 500, with code 42 and the error's message.
    pub fn into_response(self) -> (response: ErrorResponse)
        ensures
            response.status_code == 500,
            response.code == 42,
            response.message@ == self.message(),
    {
        let message = self.to_string();
        ErrorResponse { status_code: 500, code: 42, message }
    }
}

} // verus!
