//! `pit diagnostics`: what the support document says of the manifest and
//! the toolchains. It names services, routes and resource ids, never a
//! resource's source, an environment value or a credential. Running the
//! probes, encoding the document and writing it are the caller's.

use vstd::prelude::*;
use vstd::string::StringExecFns;

use crate::manifest::{copy_opt_text, copy_text, opt_view, ApplicationPlan, Route};
use crate::text::{chars_of, string_of, trim, trim_chars};

verus! {

#[derive(Debug)]
pub struct DiagnosticsArgs {
    /// Write the diagnostic document to this path instead of stdout.
    pub output: Option<String>,
    /// Select a Pit Manifest explicitly.
    pub file: Option<String>,
}

/// The toolchains probed, each with the arguments that print its version.
pub open spec fn toolchain_probes_spec() -> Seq<(Seq<char>, Seq<char>)> {
    seq![
        ("node"@, "--version"@),
        ("npm"@, "--version"@),
        ("pnpm"@, "--version"@),
        ("cargo"@, "--version"@),
        ("go"@, "version"@),
        ("python3"@, "--version"@),
    ]
}

pub fn toolchain_probes() -> (r: Vec<(&'static str, &'static str)>)
    ensures
        r@.map_values(|p: (&'static str, &'static str)| (p.0@, p.1@)) == toolchain_probes_spec(),
{
    let r = vec![
        ("node", "--version"),
        ("npm", "--version"),
        ("pnpm", "--version"),
        ("cargo", "--version"),
        ("go", "version"),
        ("python3", "--version"),
    ];
    assert(r@.map_values(|p: (&'static str, &'static str)| (p.0@, p.1@)) =~= toolchain_probes_spec());
    r
}

/// The version a probe reports: nothing when the command failed, else its
/// standard output, or its standard error when the output is empty,
/// trimmed.
pub open spec fn probe_version_spec(success: bool, stdout: Seq<char>, stderr: Seq<char>) -> Option<Seq<char>> {
    if !success {
        None
    } else if stdout.len() == 0 {
        Some(trim(stderr))
    } else {
        Some(trim(stdout))
    }
}

pub fn probe_version(success: bool, stdout: &str, stderr: &str) -> (r: Option<String>)
    ensures
        opt_view(r) == probe_version_spec(success, stdout@, stderr@),
{
    if !success {
        return None;
    }
    let out = chars_of(stdout);
    if out.len() == 0 {
        Some(string_of(&trim_chars(&chars_of(stderr))))
    } else {
        Some(string_of(&trim_chars(&out)))
    }
}

/// A service as the document describes it.
#[derive(Debug)]
pub struct DiagnosticService {
    pub id: String,
    pub project: String,
    pub language: Option<String>,
    pub interface: Option<String>,
    pub adapter: Option<String>,
    pub has_artifact_override: bool,
}

/// The manifest section of the document. Resources appear by id only.
#[derive(Debug)]
pub struct DiagnosticManifest {
    pub selected: bool,
    pub path: Option<String>,
    pub schema: Option<u32>,
    pub application: Option<String>,
    pub services: Vec<DiagnosticService>,
    pub routes: Vec<Route>,
    pub resources: Vec<String>,
}

/// The manifest section for a plan that resolved, or for none.
pub fn diagnostic_manifest(plan: Option<&ApplicationPlan>) -> (d: DiagnosticManifest)
    ensures
        d.selected == plan is Some,
        match plan {
            None => d.path is None && d.schema is None && d.application is None
                && d.services@.len() == 0 && d.routes@.len() == 0 && d.resources@.len() == 0,
            Some(p) => {
                &&& opt_view(d.path) == Some(p.manifest.path@)
                &&& d.schema == Some(p.manifest.manifest.schema)
                &&& opt_view(d.application) == Some(p.application_name@)
                &&& d.services@.len() == p.services@.len()
                &&& forall|i: int| 0 <= i < p.services@.len() ==> {
                    let s = #[trigger] d.services@[i];
                    let r = p.services@[i];
                    &&& s.id@ == r.id@
                    &&& s.project@ == r.project_dir@
                    &&& opt_view(s.language) == opt_view(r.spec.language)
                    &&& opt_view(s.interface) == opt_view(r.spec.interface)
                    &&& opt_view(s.adapter) == opt_view(r.spec.adapter)
                    &&& s.has_artifact_override == r.artifact_path is Some
                }
                &&& crate::manifest::routes_view(d.routes@) == crate::manifest::routes_view(p.routes@)
                &&& d.resources@.len() == p.resources@.len()
                &&& forall|i: int| 0 <= i < p.resources@.len() ==> (#[trigger] d.resources@[i])@ == p.resources@[i].id@
            },
        },
{
    match plan {
        None => DiagnosticManifest {
            selected: false,
            path: None,
            schema: None,
            application: None,
            services: Vec::new(),
            routes: Vec::new(),
            resources: Vec::new(),
        },
        Some(p) => {
            let mut services: Vec<DiagnosticService> = Vec::new();
            let mut i: usize = 0;
            while i < p.services.len()
                invariant
                    i <= p.services@.len(),
                    services@.len() == i,
                    forall|k: int| 0 <= k < i ==> {
                        let s = #[trigger] services@[k];
                        let r = p.services@[k];
                        &&& s.id@ == r.id@
                        &&& s.project@ == r.project_dir@
                        &&& opt_view(s.language) == opt_view(r.spec.language)
                        &&& opt_view(s.interface) == opt_view(r.spec.interface)
                        &&& opt_view(s.adapter) == opt_view(r.spec.adapter)
                        &&& s.has_artifact_override == r.artifact_path is Some
                    },
                decreases p.services.len() - i,
            {
                let r = &p.services[i];
                services.push(
                    DiagnosticService {
                        id: copy_text(&r.id),
                        project: copy_text(&r.project_dir),
                        language: copy_opt_text(&r.spec.language),
                        interface: copy_opt_text(&r.spec.interface),
                        adapter: copy_opt_text(&r.spec.adapter),
                        has_artifact_override: r.artifact_path.is_some(),
                    },
                );
                i = i + 1;
            }
            let mut routes: Vec<Route> = Vec::new();
            let mut j: usize = 0;
            while j < p.routes.len()
                invariant
                    j <= p.routes@.len(),
                    crate::manifest::routes_view(routes@) =~= crate::manifest::routes_view(p.routes@).take(j as int),
                decreases p.routes.len() - j,
            {
                let r = Route { path: copy_text(&p.routes[j].path), service: copy_text(&p.routes[j].service) };
                let ghost before = routes@;
                routes.push(r);
                assert(crate::manifest::routes_view(routes@) =~= crate::manifest::routes_view(before).push(r@));
                j = j + 1;
            }
            assert(crate::manifest::routes_view(p.routes@).take(j as int) =~= crate::manifest::routes_view(p.routes@));
            let mut resources: Vec<String> = Vec::new();
            let mut k: usize = 0;
            while k < p.resources.len()
                invariant
                    k <= p.resources@.len(),
                    resources@.len() == k,
                    forall|m: int| 0 <= m < k ==> (#[trigger] resources@[m])@ == p.resources@[m].id@,
                decreases p.resources.len() - k,
            {
                resources.push(copy_text(&p.resources[k].id));
                k = k + 1;
            }
            DiagnosticManifest {
                selected: true,
                path: Some(copy_text(&p.manifest.path)),
                schema: Some(p.manifest.manifest.schema),
                application: Some(copy_text(&p.application_name)),
                services,
                routes,
                resources,
            }
        },
    }
}

} // verus!
