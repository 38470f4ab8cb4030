//! The error taxonomy of the client.

use vstd::prelude::*;

verus! {

/// Everything that can go wrong in the client, from missing input to a
/// rejection by the remote service.
#[derive(Debug, Clone, PartialEq, Eq)]
pub enum SamsonrError {
    /// No authorization token was supplied on the command line or found
    /// in the configuration.
    MissingToken,
    /// A command needed a project id and none was supplied on the
    /// command line or found in the configuration.
    MissingProjectId,
    /// No reference was supplied on the command line and no local
    /// branch name was available.
    MissingReference,
    /// The token could not be encoded into a request header, so no
    /// client could be built.
    ClientBuild,
    /// The request never produced an HTTP response; the payload is a
    /// description of the underlying network failure.
    Transport(String),
    /// The service answered with a body that does not match the
    /// expected schema; the payload is the raw body, kept for
    /// diagnostics.
    ResponseFormat(String),
    /// The service explicitly rejected the request; status and message
    /// are taken verbatim from the error body.
    RemoteRejection { status: i32, message: String },
}

/// The mathematical model of a `SamsonrError`.
pub enum ErrorModel {
    MissingToken,
    MissingProjectId,
    MissingReference,
    ClientBuild,
    Transport(Seq<char>),
    ResponseFormat(Seq<char>),
    RemoteRejection { status: int, message: Seq<char> },
}

impl View for SamsonrError {
    type V = ErrorModel;

    open spec fn view(&self) -> ErrorModel {
        match self {
            SamsonrError::MissingToken => ErrorModel::MissingToken,
            SamsonrError::MissingProjectId => ErrorModel::MissingProjectId,
            SamsonrError::MissingReference => ErrorModel::MissingReference,
            SamsonrError::ClientBuild => ErrorModel::ClientBuild,
            SamsonrError::Transport(s) => ErrorModel::Transport(s@),
            SamsonrError::ResponseFormat(s) => ErrorModel::ResponseFormat(s@),
            SamsonrError::RemoteRejection { status, message } => ErrorModel::RemoteRejection {
                status: *status as int,
                message: message@,
            },
        }
    }
}

impl SamsonrError {
    /// A human-readable description, rendered by the process exit
    /// path; a rejection shows the service's status and message
    /// verbatim.
    pub fn message(&self) -> (r: String)
        ensures
            self@ == ErrorModel::MissingToken ==> r@ == "Missing authorization token"@,
            self@ == ErrorModel::MissingProjectId ==> r@ == "Missing project ID"@,
            self@ == ErrorModel::MissingReference ==> r@ == "No branch reference provided"@,
            self@ == ErrorModel::ClientBuild ==> r@ == "Failed to build client"@,
            self@ matches ErrorModel::Transport(s) ==> r@ == "Transport error: "@ + s,
            self@ matches ErrorModel::ResponseFormat(s) ==> r@ == "Unexpected response body: "@ + s,
            self@ matches ErrorModel::RemoteRejection { status, message } ==> r@ == crate::chars::dec_i32(
                status,
            ) + " - "@ + message,
    {
        match self {
            SamsonrError::MissingToken => String::from_str("Missing authorization token"),
            SamsonrError::MissingProjectId => String::from_str("Missing project ID"),
            SamsonrError::MissingReference => String::from_str("No branch reference provided"),
            SamsonrError::ClientBuild => String::from_str("Failed to build client"),
            SamsonrError::Transport(s) => String::from_str("Transport error: ").concat(
                s.as_str(),
            ),
            SamsonrError::ResponseFormat(s) => String::from_str("Unexpected response body: ")
                .concat(s.as_str()),
            SamsonrError::RemoteRejection { status, message } => {
                let r = crate::chars::fmt_i32(*status).concat(" - ").concat(message.as_str());
                proof {
                    assert(r@ =~= crate::chars::dec_i32(*status as int) + " - "@ + message@);
                }
                r
            },
        }
    }
}

} // verus!
