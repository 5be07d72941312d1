//! Values that the servers answer with.
use vstd::prelude::*;

verus! {

/// A plain answer: which request it answers, a message and details.
#[derive(Debug)]
pub struct GenericResponse {
    pub request_id: String,
    pub message: String,
    pub detail: String,
}

impl GenericResponse {
    /// The answer to request `request_id` once image `id` is imported;
    /// `detail` is what the import tool wrote.
    pub fn import_done(request_id: String, id: &str, detail: String) -> (r: GenericResponse)
        ensures
            r.request_id == request_id,
            r.message@ == "Image "@ + id@ + " has been imported and is ready to use."@,
            r.detail == detail,
    {
        let message = String::from_str("Image ").concat(id).concat(
            " has been imported and is ready to use.",
        );
        GenericResponse { request_id, message, detail }
    }
}

/// Whether the servers behind the user interface answer.
#[derive(Debug)]
pub struct PingResponse {
    /// Whether the executor answered with a success.
    pub executor: bool,
    /// Whether vminfod answered with a success.
    pub vminfod: bool,
}

} // verus!
