//! Merging configuration values with command-line overrides.

use vstd::prelude::*;

use crate::errors::SamsonrError;

verus! {

/// The values a configuration file can contribute: an authorization
/// token and a default project id. An absent file yields all-absent
/// values rather than an error; reading the file itself happens outside
/// the library.
#[derive(Debug, Clone)]
pub struct Configuration {
    pub token: Option<String>,
    pub project_id: Option<i32>,
}

impl Configuration {
    /// A configuration with no values, as an absent file yields.
    pub fn empty() -> (r: Configuration)
        ensures
            r.token is None,
            r.project_id is None,
    {
        Configuration { token: None, project_id: None }
    }
}

/// What token resolution yields: the command-line value wins over the
/// configuration; with neither present it fails.
pub open spec fn spec_resolved_token(cli: Option<String>, config: Option<String>) -> Result<
    String,
    SamsonrError,
> {
    match cli {
        Some(t) => Ok(t),
        None => match config {
            Some(t) => Ok(t),
            None => Err(SamsonrError::MissingToken),
        },
    }
}

/// What project-id resolution yields: the command-line value wins over
/// the configuration; with neither present it fails.
pub open spec fn spec_resolved_project(cli: Option<i32>, config: Option<i32>) -> Result<
    i32,
    SamsonrError,
> {
    match cli {
        Some(p) => Ok(p),
        None => match config {
            Some(p) => Ok(p),
            None => Err(SamsonrError::MissingProjectId),
        },
    }
}

/// What reference resolution yields: the command-line value wins
/// verbatim; otherwise the current local branch is used, where a failed
/// or empty branch query counts as no branch at all.
pub open spec fn spec_resolved_reference(cli: Option<String>, branch: Option<String>) -> Result<
    String,
    SamsonrError,
> {
    match cli {
        Some(c) => Ok(c),
        None => match branch {
            Some(b) => if b@.len() > 0 {
                Ok(b)
            } else {
                Err(SamsonrError::MissingReference)
            },
            None => Err(SamsonrError::MissingReference),
        },
    }
}

/// Picks the authorization token from the command line and the
/// configuration.
pub fn resolve_token(cli_token: Option<String>, configuration: &Configuration) -> (r: Result<
    String,
    SamsonrError,
>)
    ensures
        r == spec_resolved_token(cli_token, configuration.token),
{
    match cli_token {
        Some(t) => Ok(t),
        None => match &configuration.token {
            Some(t) => Ok(t.clone()),
            None => Err(SamsonrError::MissingToken),
        },
    }
}

/// Picks the project id from the command line and the configuration.
pub fn resolve_project_id(cli_project_id: Option<i32>, configuration: &Configuration) -> (r:
    Result<i32, SamsonrError>)
    ensures
        r == spec_resolved_project(cli_project_id, configuration.project_id),
{
    match cli_project_id {
        Some(p) => Ok(p),
        None => match configuration.project_id {
            Some(p) => Ok(p),
            None => Err(SamsonrError::MissingProjectId),
        },
    }
}

/// Picks the reference to deploy from the command line and the current
/// local branch.
pub fn resolve_reference(cli_reference: Option<String>, current_branch: Option<String>) -> (r:
    Result<String, SamsonrError>)
    ensures
        r == spec_resolved_reference(cli_reference, current_branch),
{
    match cli_reference {
        Some(c) => Ok(c),
        None => match current_branch {
            Some(b) => if b.as_str().is_empty() {
                Err(SamsonrError::MissingReference)
            } else {
                Ok(b)
            },
            None => Err(SamsonrError::MissingReference),
        },
    }
}

} // verus!
