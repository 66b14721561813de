//! The plain value types of the command surface: responses and the
//! structured inputs commands are invoked with.

use vstd::prelude::*;
use vstd::string::StringExecFns;

verus! {

/// A command's outcome: either data or an error message.
#[derive(Debug)]
pub struct CommandResponse<T> {
    pub success: bool,
    pub data: Option<T>,
    pub error: Option<String>,
}

impl<T> CommandResponse<T> {
    /// A successful response carrying data.
    pub fn ok(data: T) -> (r: CommandResponse<T>)
        ensures
            r.success,
            r.data == Some(data),
            r.error is None,
    {
        CommandResponse { success: true, data: Some(data), error: None }
    }

    /// A failed response carrying an error message.
    pub fn err(error: &str) -> (r: CommandResponse<T>)
        ensures
            !r.success,
            r.data is None,
            r.error matches Some(e) && e@ == error@,
    {
        CommandResponse { success: false, data: None, error: Some(String::from_str(error)) }
    }
}

/// Input for ingesting a document as evidence.
#[derive(Debug)]
pub struct IngestDocumentInput {
    pub path: String,
    pub evidence_type: String,
}

/// Input for extracting claims from a piece of evidence.
#[derive(Debug)]
pub struct ExtractClaimsInput {
    pub evidence_id: String,
    pub product_id: String,
}

/// Input for creating a commitment over a set of claims.
#[derive(Debug)]
pub struct CreateCommitmentInput {
    pub claim_ids: Vec<String>,
    pub valid_days: Option<i64>,
}

/// A keypair as reported to the caller: no secret material.
#[derive(Debug)]
pub struct KeypairInfo {
    pub id: String,
    pub public_key: String,
    pub created_at: String,
}

/// The application's configurable settings.
#[derive(Debug)]
pub struct AppSettings {
    pub supplier_id: Option<String>,
    pub supplier_name: Option<String>,
    pub ollama_url: Option<String>,
    pub ollama_model: Option<String>,
}

} // verus!
