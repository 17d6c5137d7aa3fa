//! `pit config show`: the resolved manifest and plan as the CLI prints
//! them. The TOML rendering of the manifest between the two parts is the
//! caller's.

use vstd::prelude::*;
use vstd::string::StringExecFns;

use crate::commands::plan::{line2, push_service_lines, texts};
use crate::manifest::{services_view, ApplicationPlan, ResolvedServiceView};

verus! {

#[derive(Debug)]
pub enum ConfigCommand {
    /// Resolve, validate, and print the normalized Pit Manifest.
    Show(ConfigShowArgs),
}

#[derive(Debug)]
pub struct ConfigShowArgs {
    pub file: Option<String>,
}

/// What `pit config show` prints before the manifest's TOML.
pub fn config_show_head(plan: &ApplicationPlan) -> (lines: Vec<String>)
    ensures
        texts(lines@) == seq!["Manifest: "@ + plan.manifest.path@, "Digest: "@ + plan.manifest.digest@],
{
    let mut lines: Vec<String> = Vec::new();
    lines.push(line2("Manifest: ", plan.manifest.path.as_str()));
    lines.push(line2("Digest: ", plan.manifest.digest.as_str()));
    assert(texts(lines@) =~= seq!["Manifest: "@ + plan.manifest.path@, "Digest: "@ + plan.manifest.digest@]);
    lines
}

/// What `pit config show` prints after the manifest's TOML: the
/// application and where each service's project is.
pub fn config_show_tail(plan: &ApplicationPlan) -> (lines: Vec<String>)
    ensures
        texts(lines@) == seq!["Plan\n  application: "@ + plan.application_name@] + services_view(
            plan.services@,
        ).map_values(|s: ResolvedServiceView| "  service "@ + s.id + " → "@ + s.project_dir),
{
    let mut lines: Vec<String> = Vec::new();
    lines.push(line2("Plan\n  application: ", plan.application_name.as_str()));
    push_service_lines(&mut lines, plan, "  service ", " → ");
    lines
}

} // verus!
