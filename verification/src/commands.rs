//! The three commands and the decisions they make before calling the
//! service. Rendering the results and performing the calls happen
//! outside the library.

use vstd::prelude::*;

use crate::configuration::{
    resolve_project_id, resolve_reference, spec_resolved_project, spec_resolved_reference,
    Configuration,
};
use crate::errors::SamsonrError;

verus! {

/// Lists all available projects.
#[derive(Debug, Clone)]
pub struct ProjectsCommand {}

/// Lists all available stages of one project.
#[derive(Debug, Clone)]
pub struct StagesCommand {
    /// The project to list stages for; absent means the configured
    /// default project.
    pub project_id: Option<i32>,
}

/// Deploys a reference to one stage of a project.
#[derive(Debug, Clone)]
pub struct DeployCommand {
    /// The project to deploy; absent means the configured default
    /// project.
    pub project_id: Option<i32>,
    /// The stage to deploy to.
    pub stage_id: i32,
    /// The reference to deploy; absent means the currently checked-out
    /// local branch.
    pub reference: Option<String>,
}

impl StagesCommand {
    /// Settles which project the command speaks of: the command-line
    /// value wins over the configured default.
    pub fn resolve_project(&self, configuration: &Configuration) -> (r: Result<i32, SamsonrError>)
        ensures
            r == spec_resolved_project(self.project_id, configuration.project_id),
    {
        resolve_project_id(self.project_id, configuration)
    }
}

impl DeployCommand {
    /// Settles which project to deploy and which reference, from the
    /// command line, the configuration and the current local branch.
    pub fn resolve_inputs(&self, configuration: &Configuration, current_branch: Option<String>)
        -> (r: Result<(i32, String), SamsonrError>)
        ensures
            r == match spec_resolved_project(self.project_id, configuration.project_id) {
                Ok(p) => match spec_resolved_reference(self.reference, current_branch) {
                    Ok(rf) => Ok::<(i32, String), SamsonrError>((p, rf)),
                    Err(e) => Err(e),
                },
                Err(e) => Err(e),
            },
    {
        let project_id = resolve_project_id(self.project_id, configuration)?;
        let reference = resolve_reference(self.reference.clone(), current_branch)?;
        Ok((project_id, reference))
    }
}

/// How loud the logger should be, derived from the number of times the
/// verbosity flag is repeated.
#[derive(Debug, Clone, Copy, PartialEq, Eq, Structural)]
pub enum LogLevel {
    Error,
    Info,
    Debug,
    Trace,
}

/// Maps the repeated verbosity flag to a log level; outside the known
/// range no logger is set up at all.
pub fn log_level(verbose: i32) -> (r: Option<LogLevel>)
    ensures
        verbose == 1 ==> r == Some(LogLevel::Error),
        verbose == 2 ==> r == Some(LogLevel::Info),
        verbose == 3 ==> r == Some(LogLevel::Debug),
        verbose == 4 ==> r == Some(LogLevel::Trace),
        !(1 <= verbose <= 4) ==> r is None,
{
    match verbose {
        1 => Some(LogLevel::Error),
        2 => Some(LogLevel::Info),
        3 => Some(LogLevel::Debug),
        4 => Some(LogLevel::Trace),
        _ => None,
    }
}

} // verus!
