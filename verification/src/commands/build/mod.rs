//! `pit build`: which services a build covers and the settings each build
//! runs with, merged from the command line, the Pit Manifest and `pit.toml`.
//! Running the language builders is the caller's.

use vstd::prelude::*;
use vstd::string::StringExecFns;

use crate::manifest::{
    copy_opt_text, execution_defaults_spec, opt_view, ApplicationPlan, ExecutionDefaults,
    ResolvedService,
};
use crate::project::{execution_defaults, ProjectConfig};
use crate::text::{push_str, string_of};
use crate::units::UnitError;

verus! {

#[derive(Debug)]
pub struct BuildArgs {
    /// Optional service identity from a resolved Pit Manifest.
    pub service: Option<String>,
    /// The Pit Manifest to use; without it, `*.pit` discovery is used.
    pub file: Option<String>,
    /// The source language, overriding `pit.toml` and detection.
    pub language: Option<String>,
    /// The application interface, for example asgi or wasi-http.
    pub interface: Option<String>,
    /// Application entrypoint, for example `main:app`.
    pub entry: Option<String>,
    /// A built-in adapter id or a project-local adapter directory.
    pub adapter: Option<String>,
    /// An already-built compatible WASM Component to validate and package.
    pub artifact: Option<String>,
    /// The binary target when the project has more than one.
    pub bin: Option<String>,
    /// Cargo's debug profile instead of the default release profile.
    pub debug: bool,
    /// Rebuild even when the cached build inputs and artifact are valid.
    pub force: bool,
    /// The WASI ABI; defaults to `pit.toml` or wasi-preview2.
    pub abi: Option<String>,
    /// The standard P2 component world.
    pub world: Option<String>,
}

/// The builder profile.
#[derive(Debug, Clone, Copy, PartialEq, Eq, Structural)]
pub enum BuildProfile {
    Debug,
    Release,
}

pub fn profile_for(debug: bool) -> (p: BuildProfile)
    ensures
        p == (if debug { BuildProfile::Debug } else { BuildProfile::Release }),
{
    if debug {
        BuildProfile::Debug
    } else {
        BuildProfile::Release
    }
}

/// What one build runs with. An absent ABI means the default,
/// wasi-preview2.
#[derive(Debug)]
pub struct BuildSettings {
    pub project_dir: String,
    pub bin: Option<String>,
    pub profile: BuildProfile,
    pub abi: Option<String>,
    pub world: Option<String>,
    pub execution_defaults: ExecutionDefaults,
    pub force: bool,
    pub language: Option<String>,
    pub interface: Option<String>,
    pub entry: Option<String>,
    pub adapter: Option<String>,
    pub raw_artifact: Option<String>,
}

/// The first of two optional texts that is present.
pub open spec fn either(a: Option<Seq<char>>, b: Option<Seq<char>>) -> Option<Seq<char>> {
    match a {
        Some(x) => Some(x),
        None => b,
    }
}

fn either_text(a: &Option<String>, b: &Option<String>) -> (r: Option<String>)
    ensures
        opt_view(r) == either(opt_view(*a), opt_view(*b)),
{
    match a {
        Some(_) => copy_opt_text(a),
        None => copy_opt_text(b),
    }
}

/// A manifest's `[execution]` table takes over from `pit.toml` when it sets
/// either limit.
pub open spec fn service_limits_spec(plan: ApplicationPlan, config: ProjectConfig) -> Result<
    ExecutionDefaults,
    UnitError,
> {
    if plan.manifest.manifest.execution.timeout is Some
        || plan.manifest.manifest.execution.memory is Some {
        Ok(plan.execution)
    } else {
        execution_defaults_spec(opt_view(config.execution.timeout), opt_view(config.execution.memory))
    }
}

/// The settings for building one service of a plan: the service's own
/// manifest entries first, then its project's `pit.toml` (`config`).
pub fn request_for_service(
    plan: &ApplicationPlan,
    service: &ResolvedService,
    config: &ProjectConfig,
    profile: BuildProfile,
    force: bool,
) -> (r: Result<BuildSettings, UnitError>)
    ensures
        match r {
            Ok(s) => {
                &&& service_limits_spec(*plan, *config) == Ok::<ExecutionDefaults, UnitError>(s.execution_defaults)
                &&& s.project_dir@ == service.project_dir@
                &&& opt_view(s.bin) == opt_view(config.build.bin)
                &&& s.profile == profile
                &&& opt_view(s.abi) == either(opt_view(service.spec.abi), opt_view(config.build.abi))
                &&& opt_view(s.world) == either(opt_view(service.spec.world), opt_view(config.build.world))
                &&& s.force == force
                &&& opt_view(s.language) == either(opt_view(service.spec.language), opt_view(config.build.language))
                &&& opt_view(s.interface) == either(opt_view(service.spec.interface), opt_view(config.build.interface))
                &&& opt_view(s.entry) == either(opt_view(service.spec.entry), opt_view(config.build.entry))
                &&& opt_view(s.adapter) == either(opt_view(service.spec.adapter), opt_view(config.build.adapter))
                &&& opt_view(s.raw_artifact) == opt_view(service.artifact_path)
            },
            Err(e) => service_limits_spec(*plan, *config) == Err::<ExecutionDefaults, UnitError>(e),
        },
{
    let defaults = if plan.manifest.manifest.execution.timeout.is_some()
        || plan.manifest.manifest.execution.memory.is_some() {
        plan.execution
    } else {
        execution_defaults(config)?
    };
    Ok(
        BuildSettings {
            project_dir: service.project_dir.clone(),
            bin: copy_opt_text(&config.build.bin),
            profile,
            abi: either_text(&service.spec.abi, &config.build.abi),
            world: either_text(&service.spec.world, &config.build.world),
            execution_defaults: defaults,
            force,
            language: either_text(&service.spec.language, &config.build.language),
            interface: either_text(&service.spec.interface, &config.build.interface),
            entry: either_text(&service.spec.entry, &config.build.entry),
            adapter: either_text(&service.spec.adapter, &config.build.adapter),
            raw_artifact: copy_opt_text(&service.artifact_path),
        },
    )
}

/// The settings for building the current directory's project from
/// `pit.toml` alone: each command-line option takes precedence.
pub fn project_build_settings(project_dir: &str, args: &BuildArgs, config: &ProjectConfig) -> (r:
    Result<BuildSettings, UnitError>)
    ensures
        match r {
            Ok(s) => {
                &&& execution_defaults_spec(opt_view(config.execution.timeout), opt_view(config.execution.memory))
                    == Ok::<ExecutionDefaults, UnitError>(s.execution_defaults)
                &&& s.project_dir@ == project_dir@
                &&& opt_view(s.bin) == either(opt_view(args.bin), opt_view(config.build.bin))
                &&& s.profile == (if args.debug { BuildProfile::Debug } else { BuildProfile::Release })
                &&& opt_view(s.abi) == either(opt_view(args.abi), opt_view(config.build.abi))
                &&& opt_view(s.world) == either(opt_view(args.world), opt_view(config.build.world))
                &&& s.force == args.force
                &&& opt_view(s.language) == either(opt_view(args.language), opt_view(config.build.language))
                &&& opt_view(s.interface) == either(opt_view(args.interface), opt_view(config.build.interface))
                &&& opt_view(s.entry) == either(opt_view(args.entry), opt_view(config.build.entry))
                &&& opt_view(s.adapter) == either(opt_view(args.adapter), opt_view(config.build.adapter))
                &&& opt_view(s.raw_artifact) == opt_view(args.artifact)
            },
            Err(e) => execution_defaults_spec(opt_view(config.execution.timeout), opt_view(config.execution.memory))
                == Err::<ExecutionDefaults, UnitError>(e),
        },
{
    let defaults = execution_defaults(config)?;
    Ok(
        BuildSettings {
            project_dir: String::from_str(project_dir),
            bin: either_text(&args.bin, &config.build.bin),
            profile: profile_for(args.debug),
            abi: either_text(&args.abi, &config.build.abi),
            world: either_text(&args.world, &config.build.world),
            execution_defaults: defaults,
            force: args.force,
            language: either_text(&args.language, &config.build.language),
            interface: either_text(&args.interface, &config.build.interface),
            entry: either_text(&args.entry, &config.build.entry),
            adapter: either_text(&args.adapter, &config.build.adapter),
            raw_artifact: copy_opt_text(&args.artifact),
        },
    )
}

/// A build that cannot proceed.
#[derive(Debug)]
pub struct BuildError {
    pub message: String,
}

/// Without a Pit Manifest, a service cannot be selected.
pub fn check_service_selection(args: &BuildArgs) -> (r: Result<(), BuildError>)
    ensures
        r is Ok <==> args.service is None,
        r matches Err(e) ==> e.message@
            == "service selection requires a Pit Manifest; pass --file or create *.pit"@,
{
    if args.service.is_some() {
        return Err(
            BuildError {
                message: String::from_str(
                    "service selection requires a Pit Manifest; pass --file or create *.pit",
                ),
            },
        );
    }
    Ok(())
}

/// The first service of the plan with the id asked for.
fn find_service(plan: &ApplicationPlan, id: &String) -> (r: Option<usize>)
    ensures
        match r {
            Some(i) => i < plan.services@.len() && plan.services@[i as int].id@ == id@
                && forall|k: int| 0 <= k < i ==> plan.services@[k].id@ != id@,
            None => forall|k: int| 0 <= k < plan.services@.len() ==> plan.services@[k].id@ != id@,
        },
{
    let mut i: usize = 0;
    while i < plan.services.len()
        invariant
            i <= plan.services@.len(),
            forall|k: int| 0 <= k < i ==> plan.services@[k].id@ != id@,
        decreases plan.services.len() - i,
    {
        if plan.services[i].id == *id {
            return Some(i);
        }
        i = i + 1;
    }
    None
}

/// The services a manifest build covers, by index into the plan: the one
/// selected by id, or all of them in order.
pub fn selected_services(plan: &ApplicationPlan, selected: &Option<String>) -> (r: Result<
    Vec<usize>,
    BuildError,
>)
    ensures
        match selected {
            Some(id) => match r {
                Ok(v) => v@.len() == 1 && v@[0] < plan.services@.len()
                    && plan.services@[v@[0] as int].id@ == id@
                    && forall|k: int| 0 <= k < v@[0] ==> plan.services@[k].id@ != id@,
                Err(e) => (forall|k: int| 0 <= k < plan.services@.len() ==> plan.services@[k].id@ != id@)
                    && e.message@ == "manifest has no service '"@ + id@ + "'"@,
            },
            None => match r {
                Ok(v) => v@.len() == plan.services@.len() && forall|k: int| 0 <= k < v@.len() ==> v@[k] == k,
                Err(_) => false,
            },
        },
{
    match selected {
        Some(id) => match find_service(plan, id) {
            Some(i) => {
                let mut v: Vec<usize> = Vec::new();
                v.push(i);
                Ok(v)
            },
            None => {
                let mut m: Vec<char> = Vec::new();
                push_str(&mut m, "manifest has no service '");
                push_str(&mut m, id.as_str());
                push_str(&mut m, "'");
                Err(BuildError { message: string_of(&m) })
            },
        },
        None => {
            let mut v: Vec<usize> = Vec::new();
            let mut i: usize = 0;
            while i < plan.services.len()
                invariant
                    i <= plan.services@.len(),
                    v@.len() == i,
                    forall|k: int| 0 <= k < i ==> v@[k] == k,
                decreases plan.services.len() - i,
            {
                v.push(i);
                i = i + 1;
            }
            Ok(v)
        },
    }
}

/// `cached` for a reused artifact, `built` for a fresh one.
pub open spec fn build_state(reused: bool) -> Seq<char> {
    if reused {
        "cached"@
    } else {
        "built"@
    }
}

/// The interface a build reports, `native` when it has none.
pub open spec fn interface_text(interface: Option<Seq<char>>) -> Seq<char> {
    match interface {
        Some(i) => i,
        None => "native"@,
    }
}

/// The line a manifest build prints for one service.
pub fn service_build_line(id: &str, language: &str, interface: &Option<String>, reused: bool) -> (r:
    String)
    ensures
        r@ == "  "@ + id@ + "  "@ + language@ + " / "@ + interface_text(opt_view(*interface))
            + "  "@ + build_state(reused),
{
    let mut out: Vec<char> = Vec::new();
    push_str(&mut out, "  ");
    push_str(&mut out, id);
    push_str(&mut out, "  ");
    push_str(&mut out, language);
    push_str(&mut out, " / ");
    match interface {
        Some(i) => push_str(&mut out, i.as_str()),
        None => push_str(&mut out, "native"),
    }
    push_str(&mut out, "  ");
    if reused {
        push_str(&mut out, "cached");
    } else {
        push_str(&mut out, "built");
    }
    string_of(&out)
}

} // verus!
