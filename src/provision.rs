//! Installing the bundled helper server into the application-data directory.
//! The decisions are made here, one event at a time; the caller performs each
//! action on the file system and reports what happened.

use vstd::prelude::*;
use crate::paths::{bundled_server_of, bundled_server_path, dir_failure, dir_failure_of, server_path, server_path_of};

verus! {

/// Where the helper server is taken from and installed to.
pub struct ProvisionPlan {
    pub data_dir: String,
    pub source: String,
    pub dest: String,
}

/// What the caller is asked to do next.
pub enum ProvisionAction {
    /// Report whether the file at this path exists.
    CheckSource(String),
    /// Create this directory and its parents.
    CreateDir(String),
    /// Copy a file over whatever is at the destination.
    CopyFile { from: String, to: String },
    /// Provisioning is over: the installed path, or why it failed.
    Finish(Result<String, String>),
}

/// What the caller reports.
pub enum ProvisionEvent {
    Started,
    SourceChecked(bool),
    DirCreated(Result<(), String>),
    Copied(Result<(), String>),
}

/// Resolves where the server comes from and goes to, from the directories
/// that the host supplied or the reasons it could not.
pub fn plan_provision(app_data_dir: Result<String, String>, resource_dir: Result<String, String>) -> (r:
    Result<ProvisionPlan, String>)
    ensures
        match (app_data_dir, resource_dir, r) {
            (Err(e), _, Err(m)) => m@ == dir_failure_of("app data"@, e@),
            (Ok(_), Err(e), Err(m)) => m@ == dir_failure_of("resource"@, e@),
            (Ok(d), Ok(res), Ok(p)) => p.data_dir@ == d@ && p.source@ == bundled_server_of(res@)
                && p.dest@ == server_path_of(d@),
            _ => false,
        },
{
    match app_data_dir {
        Err(e) => Err(dir_failure("app data", e.as_str())),
        Ok(d) => match resource_dir {
            Err(e) => Err(dir_failure("resource", e.as_str())),
            Ok(res) => {
                let source = bundled_server_path(res.as_str());
                let dest = server_path(d.as_str());
                Ok(ProvisionPlan { data_dir: d, source, dest })
            },
        },
    }
}

/// `m` is `prefix` followed by `cause`.
pub open spec fn failure(prefix: Seq<char>, cause: String, m: String) -> bool {
    m@ == prefix + cause@
}

fn prefixed(prefix: &str, cause: &String) -> (r: String)
    ensures
        r@ == prefix@ + cause@,
{
    let mut m = String::from_str(prefix);
    m.append(cause.as_str());
    m
}

/// The next action after `event`. A present source is always copied over
/// the destination, whatever is there; an absent one is no failure, and the
/// destination path is still the result.
pub fn provision_step(plan: &ProvisionPlan, event: ProvisionEvent) -> (r: ProvisionAction)
    ensures
        match (event, r) {
            (ProvisionEvent::Started, ProvisionAction::CheckSource(p)) => p == plan.source,
            (ProvisionEvent::SourceChecked(true), ProvisionAction::CreateDir(d)) => d == plan.data_dir,
            (ProvisionEvent::SourceChecked(false), ProvisionAction::Finish(Ok(p))) => p == plan.dest,
            (ProvisionEvent::DirCreated(Ok(())), ProvisionAction::CopyFile { from, to }) => from
                == plan.source && to == plan.dest,
            (ProvisionEvent::DirCreated(Err(e)), ProvisionAction::Finish(Err(m))) => failure(
                "Failed to create data dir: "@,
                e,
                m,
            ),
            (ProvisionEvent::Copied(Ok(())), ProvisionAction::Finish(Ok(p))) => p == plan.dest,
            (ProvisionEvent::Copied(Err(e)), ProvisionAction::Finish(Err(m))) => failure(
                "Failed to copy server: "@,
                e,
                m,
            ),
            _ => false,
        },
{
    match event {
        ProvisionEvent::Started => ProvisionAction::CheckSource(plan.source.clone()),
        ProvisionEvent::SourceChecked(true) => ProvisionAction::CreateDir(plan.data_dir.clone()),
        ProvisionEvent::SourceChecked(false) => ProvisionAction::Finish(Ok(plan.dest.clone())),
        ProvisionEvent::DirCreated(Ok(())) => ProvisionAction::CopyFile {
            from: plan.source.clone(),
            to: plan.dest.clone(),
        },
        ProvisionEvent::DirCreated(Err(e)) => ProvisionAction::Finish(
            Err(prefixed("Failed to create data dir: ", &e)),
        ),
        ProvisionEvent::Copied(Ok(())) => ProvisionAction::Finish(Ok(plan.dest.clone())),
        ProvisionEvent::Copied(Err(e)) => ProvisionAction::Finish(
            Err(prefixed("Failed to copy server: ", &e)),
        ),
    }
}

} // verus!
