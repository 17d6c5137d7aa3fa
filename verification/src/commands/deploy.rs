//! `pit deploy`, `pit rollback`, `pit undeploy` and the service views:
//! which revision a rollback targets and how deployments are listed. The
//! HTTP exchange with PitLane's control endpoint is the caller's.

use vstd::prelude::*;
use vstd::string::StringExecFns;

use crate::text::{decimal, push_decimal, push_str, string_of};

verus! {

#[derive(Debug)]
pub struct DeployArgs {
    pub service: String,
    /// Paddock ref or sha256 digest; absent with `--local`.
    pub selector: Option<String>,
    /// Deploy the current project's verified `.pit/artifact.json`.
    pub local: bool,
    pub paddock_dir: Option<String>,
    /// Named Paddock from `pit.toml` or user configuration.
    pub paddock: Option<String>,
    pub artifact_store: Option<String>,
    pub control_endpoint: String,
    pub expected_generation: Option<u64>,
    pub force: bool,
}

#[derive(Debug)]
pub struct RollbackArgs {
    pub service: String,
    pub generation: Option<u64>,
    pub to: Option<String>,
    pub control_endpoint: String,
    pub artifact_store: Option<String>,
    /// Named Paddock used to reacquire a historical digest.
    pub paddock: Option<String>,
    pub paddock_dir: Option<String>,
    pub expected_generation: Option<u64>,
    pub force: bool,
}

#[derive(Debug)]
pub struct UndeployArgs {
    pub service: String,
    pub control_endpoint: String,
    pub expected_generation: Option<u64>,
    pub force: bool,
}

#[derive(Debug)]
pub struct HistoryArgs {
    pub id: String,
    pub control_endpoint: String,
}

#[derive(Debug)]
pub struct ServiceListArgs {
    pub control_endpoint: String,
}

#[derive(Debug)]
pub struct ServiceInspectArgs {
    pub id: String,
    pub control_endpoint: String,
}

/// A deployment failure decided before or after talking to PitLane.
#[derive(Debug)]
pub struct DeployError {
    pub message: String,
}

/// `pit deploy` takes exactly one of a selector and `--local`.
pub fn check_deploy_source(args: &DeployArgs) -> (r: Result<(), DeployError>)
    ensures
        r is Ok <==> args.local != args.selector is Some,
        r matches Err(e) ==> e.message@ == "provide exactly one of an artifact selector or --local"@,
{
    if args.local == args.selector.is_some() {
        return Err(
            DeployError {
                message: String::from_str("provide exactly one of an artifact selector or --local"),
            },
        );
    }
    Ok(())
}

/// Whether `pit deploy` first reads the service's current generation to
/// guard the deployment: not with `--force` nor an expected generation.
pub fn needs_current_generation(force: bool, expected_generation: Option<u64>) -> (r: bool)
    ensures
        r == (!force && expected_generation is None),
{
    !(force || expected_generation.is_some())
}

/// The ref a revision was deployed from.
#[derive(Debug)]
pub struct SourceRef {
    pub name: String,
    pub tag: String,
}

/// One revision in a service's deployment history.
#[derive(Debug)]
pub struct DeploymentRevision {
    pub generation: u64,
    /// The artifact digest in its canonical `sha256:…` text.
    pub digest: String,
    pub source_ref: Option<SourceRef>,
    pub source_paddock: Option<String>,
}

/// `name:tag` of a revision's source ref, or `-`.
pub open spec fn source_text(r: DeploymentRevision) -> Seq<char> {
    match r.source_ref {
        Some(s) => s.name@ + ":"@ + s.tag@,
        None => "-"@,
    }
}

pub fn source(revision: &DeploymentRevision) -> (r: String)
    ensures
        r@ == source_text(*revision),
{
    match &revision.source_ref {
        Some(s) => {
            let mut out: Vec<char> = Vec::new();
            push_str(&mut out, s.name.as_str());
            push_str(&mut out, ":");
            push_str(&mut out, s.tag.as_str());
            string_of(&out)
        },
        None => String::from_str("-"),
    }
}

/// `pit rollback` takes at most one of `--generation` and `--to`.
pub fn check_rollback_args(args: &RollbackArgs) -> (r: Result<(), DeployError>)
    ensures
        r is Ok <==> !(args.generation is Some && args.to is Some),
        r matches Err(e) ==> e.message@ == "use only one of --generation or --to"@,
{
    if args.generation.is_some() && args.to.is_some() {
        return Err(DeployError { message: String::from_str("use only one of --generation or --to") });
    }
    Ok(())
}

/// The first revision deployed from `digest`.
fn find_digest(history: &Vec<DeploymentRevision>, digest: &String) -> (r: Option<usize>)
    ensures
        match r {
            Some(i) => i < history@.len() && history@[i as int].digest@ == digest@
                && forall|k: int| 0 <= k < i ==> history@[k].digest@ != digest@,
            None => forall|k: int| 0 <= k < history@.len() ==> history@[k].digest@ != digest@,
        },
{
    let mut i: usize = 0;
    while i < history.len()
        invariant
            i <= history@.len(),
            forall|k: int| 0 <= k < i ==> history@[k].digest@ != digest@,
        decreases history.len() - i,
    {
        if history[i].digest == *digest {
            return Some(i);
        }
        i = i + 1;
    }
    None
}

/// The first revision with generation `g`.
fn find_generation(history: &Vec<DeploymentRevision>, g: u64) -> (r: Option<usize>)
    ensures
        match r {
            Some(i) => i < history@.len() && history@[i as int].generation == g
                && forall|k: int| 0 <= k < i ==> history@[k].generation != g,
            None => forall|k: int| 0 <= k < history@.len() ==> history@[k].generation != g,
        },
{
    let mut i: usize = 0;
    while i < history.len()
        invariant
            i <= history@.len(),
            forall|k: int| 0 <= k < i ==> history@[k].generation != g,
        decreases history.len() - i,
    {
        if history[i].generation == g {
            return Some(i);
        }
        i = i + 1;
    }
    None
}

/// Finds the revision a rollback activates: the first one deployed from
/// the digest given with `--to`, else the first with the generation given,
/// else the most recent previous revision (the first of the history).
pub fn rollback_target(history: &Vec<DeploymentRevision>, generation: Option<u64>, to: &Option<String>) -> (r: Result<usize, DeployError>)
    ensures
        match to {
            Some(d) => match r {
                Ok(i) => i < history@.len() && history@[i as int].digest@ == d@ && forall|k: int| 0 <= k < i ==> history@[k].digest@ != d@,
                Err(e) => (forall|k: int| 0 <= k < history@.len() ==> history@[k].digest@ != d@) && e.message@ == "digest is not in deployment history"@,
            },
            None => match generation {
                Some(g) => match r {
                    Ok(i) => i < history@.len() && history@[i as int].generation == g && forall|k: int| 0 <= k < i ==> history@[k].generation != g,
                    Err(e) => (forall|k: int| 0 <= k < history@.len() ==> history@[k].generation != g) && e.message@ == "deployment generation "@ + decimal(g as nat) + " is not in history"@,
                },
                None => match r {
                    Ok(i) => i == 0 && history@.len() > 0,
                    Err(e) => history@.len() == 0 && e.message@ == "no previous deployment revision exists"@,
                },
            },
        },
{
    match to {
        Some(d) => match find_digest(history, d) {
            Some(i) => Ok(i),
            None => Err(DeployError { message: String::from_str("digest is not in deployment history") }),
        },
        None => match generation {
            Some(g) => match find_generation(history, g) {
                Some(i) => Ok(i),
                None => {
                    let mut m: Vec<char> = Vec::new();
                    push_str(&mut m, "deployment generation ");
                    push_decimal(&mut m, g as u128);
                    push_str(&mut m, " is not in history");
                    Err(DeployError { message: string_of(&m) })
                },
            },
            None => {
                if history.len() > 0 {
                    Ok(0)
                } else {
                    Err(DeployError { message: String::from_str("no previous deployment revision exists") })
                }
            },
        },
    }
}

/// A `pit service list` row: id, status, generation, current digest (or
/// `-`) and its source ref, separated by tabs.
pub open spec fn service_row_spec(service_id: Seq<char>, status: Seq<char>, generation: u64, current: Option<DeploymentRevision>) -> Seq<char> {
    service_id + "\t"@ + status + "\t"@ + decimal(generation as nat) + "\t"@ + (match current {
        Some(c) => c.digest@,
        None => "-"@,
    }) + "\t"@ + (match current {
        Some(c) => source_text(c),
        None => "-"@,
    })
}

pub fn service_row(service_id: &str, status: &str, generation: u64, current: &Option<DeploymentRevision>) -> (r: String)
    ensures
        r@ == service_row_spec(service_id@, status@, generation, *current),
{
    let mut out: Vec<char> = Vec::new();
    push_str(&mut out, service_id);
    push_str(&mut out, "\t");
    push_str(&mut out, status);
    push_str(&mut out, "\t");
    push_decimal(&mut out, generation as u128);
    push_str(&mut out, "\t");
    match current {
        Some(c) => push_str(&mut out, c.digest.as_str()),
        None => push_str(&mut out, "-"),
    }
    push_str(&mut out, "\t");
    match current {
        Some(c) => {
            let s = source(c);
            push_str(&mut out, s.as_str());
        },
        None => push_str(&mut out, "-"),
    }
    string_of(&out)
}

/// A `pit service history` row: generation, `current` or nothing, digest
/// and source ref, separated by tabs.
pub open spec fn history_row_spec(r: DeploymentRevision, current: bool) -> Seq<char> {
    decimal(r.generation as nat) + (if current {
        "\tcurrent\t"@
    } else {
        "\t\t"@
    }) + r.digest@ + "\t"@ + source_text(r)
}

pub fn history_row(revision: &DeploymentRevision, current: bool) -> (r: String)
    ensures
        r@ == history_row_spec(*revision, current),
{
    let mut out: Vec<char> = Vec::new();
    push_decimal(&mut out, revision.generation as u128);
    if current {
        push_str(&mut out, "\tcurrent\t");
    } else {
        push_str(&mut out, "\t\t");
    }
    push_str(&mut out, revision.digest.as_str());
    push_str(&mut out, "\t");
    let s = source(revision);
    push_str(&mut out, s.as_str());
    string_of(&out)
}

/// The rows of `pit service history`: the header, the current revision
/// when there is one, then the history in order.
pub fn history_lines(current: &Option<DeploymentRevision>, history: &Vec<DeploymentRevision>) -> (lines: Vec<String>)
    ensures
        lines@.len() == 1 + (if current is Some { 1int } else { 0 }) + history@.len(),
        lines@[0]@ == "GEN\tSTATUS\tDIGEST\tSOURCE"@,
        current matches Some(c) ==> lines@[1]@ == history_row_spec(*c, true),
        forall|i: int| 0 <= i < history@.len() ==> lines@[1 + (if current is Some { 1int } else { 0 }) + i]@ == history_row_spec(#[trigger] history@[i], false),
{
    let mut lines: Vec<String> = Vec::new();
    lines.push(String::from_str("GEN\tSTATUS\tDIGEST\tSOURCE"));
    if let Some(c) = current {
        lines.push(history_row(c, true));
    }
    let ghost off: int = if current is Some { 2 } else { 1 };
    let mut i: usize = 0;
    while i < history.len()
        invariant
            i <= history@.len(),
            off == 1 + (if current is Some { 1int } else { 0 }),
            lines@.len() == off + i,
            lines@[0]@ == "GEN\tSTATUS\tDIGEST\tSOURCE"@,
            current matches Some(c) ==> lines@[1]@ == history_row_spec(*c, true),
            forall|k: int| 0 <= k < i ==> lines@[off + k]@ == history_row_spec(#[trigger] history@[k], false),
        decreases history.len() - i,
    {
        lines.push(history_row(&history[i], false));
        i = i + 1;
    }
    lines
}


pub open spec fn texts(v: Seq<String>) -> Seq<Seq<char>> {
    v.map_values(|s: String| s@)
}

fn line2(a: &str, b: &str) -> (r: String)
    ensures
        r@ == a@ + b@,
{
    let mut l: Vec<char> = Vec::new();
    push_str(&mut l, a);
    push_str(&mut l, b);
    string_of(&l)
}

fn line_number(a: &str, n: u128, b: &str) -> (r: String)
    ensures
        r@ == a@ + decimal(n as nat) + b@,
{
    let mut l: Vec<char> = Vec::new();
    push_str(&mut l, a);
    push_decimal(&mut l, n);
    push_str(&mut l, b);
    string_of(&l)
}

/// The generation a mutation guards on: the one given, else the one read
/// from PitLane.
pub fn guard_generation(given: Option<u64>, current: Option<u64>) -> (r: Option<u64>)
    ensures
        r == match given {
            Some(g) => Some(g),
            None => current,
        },
{
    match given {
        Some(g) => Some(g),
        None => current,
    }
}

/// The Paddock a deployment acquires from: `--paddock`, else (for a
/// rollback) the one the revision came from, else the configured default.
pub fn paddock_name(given: &Option<String>, source: &Option<String>, default_name: &str) -> (r: String)
    ensures
        r@ == match given {
            Some(g) => g@,
            None => match source {
                Some(s) => s@,
                None => default_name@,
            },
        },
{
    match given {
        Some(g) => g.clone(),
        None => match source {
            Some(s) => s.clone(),
            None => String::from_str(default_name),
        },
    }
}

/// How an artifact was acquired for a deployment.
#[derive(Debug)]
pub struct Acquisition {
    pub cache_hit: bool,
    pub bytes: u64,
}

/// PitLane's timing of a deployment's stages, in milliseconds.
#[derive(Debug, Clone, Copy)]
pub struct StageTimings {
    pub ref_resolution_ms: u128,
    pub artifact_acquisition_ms: u128,
    pub artifact_validation_ms: u128,
    pub local_install_ms: u128,
    pub artifact_preparation_ms: u128,
    pub state_commit_ms: u128,
    pub registry_activation_ms: u128,
    pub total_ms: u128,
}

pub open spec fn acquisition_lines(a: Option<Acquisition>, paddock: Seq<char>) -> Seq<Seq<char>> {
    match a {
        Some(a) => if a.cache_hit {
            seq!["✓ Artifact already available locally"@]
        } else {
            seq!["✓ Artifact acquired from "@ + paddock, "  "@ + decimal(a.bytes as nat) + " bytes"@]
        },
        None => Seq::empty(),
    }
}

pub open spec fn timing_lines(t: Option<StageTimings>) -> Seq<Seq<char>> {
    match t {
        Some(t) => seq![
            "\nTiming"@,
            "  Resolve:    "@ + decimal(t.ref_resolution_ms as nat) + " ms"@,
            "  Acquire:    "@ + decimal(t.artifact_acquisition_ms as nat) + " ms"@,
            "  Validate:   "@ + decimal(t.artifact_validation_ms as nat) + " ms"@,
            "  Install:    "@ + decimal(t.local_install_ms as nat) + " ms"@,
            "  Prepare:    "@ + decimal(t.artifact_preparation_ms as nat) + " ms"@,
            "  Commit:     "@ + decimal(t.state_commit_ms as nat) + " ms"@,
            "  Activate:   "@ + decimal(t.registry_activation_ms as nat) + " ms"@,
            "  Total:      "@ + decimal(t.total_ms as nat) + " ms"@,
        ],
        None => Seq::empty(),
    }
}

/// What `pit deploy` reports once PitLane activated the artifact.
pub open spec fn deploy_report_spec(
    service: Seq<char>,
    acquisition: Option<Acquisition>,
    paddock: Seq<char>,
    timings: Option<StageTimings>,
    generation: u64,
    digest: Seq<char>,
) -> Seq<Seq<char>> {
    seq!["PitFast Deployment\n"@, "Service: "@ + service] + acquisition_lines(acquisition, paddock) + seq![
        "✓ Artifact verified"@,
        "✓ Component prepared"@,
        "✓ Deployment state committed"@,
        "✓ Service activated"@,
    ] + timing_lines(timings) + seq![
        "\n"@ + service + "\ngeneration "@ + decimal(generation as nat) + "\n"@ + digest,
    ]
}

pub fn deploy_report(
    service: &str,
    acquisition: &Option<Acquisition>,
    paddock: &str,
    timings: &Option<StageTimings>,
    generation: u64,
    digest: &str,
) -> (lines: Vec<String>)
    ensures
        texts(lines@) == deploy_report_spec(
            service@,
            match acquisition {
                Some(a) => Some(Acquisition { cache_hit: a.cache_hit, bytes: a.bytes }),
                None => None,
            },
            paddock@,
            *timings,
            generation,
            digest@,
        ),
{
    let mut lines: Vec<String> = Vec::new();
    lines.push(String::from_str("PitFast Deployment\n"));
    lines.push(line2("Service: ", service));
    let ghost a0 = texts(lines@);
    match acquisition {
        Some(a) => {
            if a.cache_hit {
                lines.push(String::from_str("✓ Artifact already available locally"));
            } else {
                lines.push(line2("✓ Artifact acquired from ", paddock));
                lines.push(line_number("  ", a.bytes as u128, " bytes"));
            }
        },
        None => {},
    }
    let ghost a1 = texts(lines@);
    assert(a1 =~= a0 + acquisition_lines(
        match acquisition {
            Some(a) => Some(Acquisition { cache_hit: a.cache_hit, bytes: a.bytes }),
            None => None,
        },
        paddock@,
    ));
    lines.push(String::from_str("✓ Artifact verified"));
    lines.push(String::from_str("✓ Component prepared"));
    lines.push(String::from_str("✓ Deployment state committed"));
    lines.push(String::from_str("✓ Service activated"));
    let ghost a2 = texts(lines@);
    match timings {
        Some(t) => {
            lines.push(String::from_str("\nTiming"));
            lines.push(line_number("  Resolve:    ", t.ref_resolution_ms, " ms"));
            lines.push(line_number("  Acquire:    ", t.artifact_acquisition_ms, " ms"));
            lines.push(line_number("  Validate:   ", t.artifact_validation_ms, " ms"));
            lines.push(line_number("  Install:    ", t.local_install_ms, " ms"));
            lines.push(line_number("  Prepare:    ", t.artifact_preparation_ms, " ms"));
            lines.push(line_number("  Commit:     ", t.state_commit_ms, " ms"));
            lines.push(line_number("  Activate:   ", t.registry_activation_ms, " ms"));
            lines.push(line_number("  Total:      ", t.total_ms, " ms"));
        },
        None => {},
    }
    let ghost a3 = texts(lines@);
    assert(a3 =~= a2 + timing_lines(*timings));
    let mut last: Vec<char> = Vec::new();
    push_str(&mut last, "\n");
    push_str(&mut last, service);
    push_str(&mut last, "\ngeneration ");
    push_decimal(&mut last, generation as u128);
    push_str(&mut last, "\n");
    push_str(&mut last, digest);
    lines.push(string_of(&last));
    assert(texts(lines@) =~= deploy_report_spec(
        service@,
        match acquisition {
            Some(a) => Some(Acquisition { cache_hit: a.cache_hit, bytes: a.bytes }),
            None => None,
        },
        paddock@,
        *timings,
        generation,
        digest@,
    ));
    lines
}

/// What `pit rollback` reports: the historical artifact, the activated
/// generation and, when the service has a current revision, where it now
/// points.
pub fn rollback_report(digest: &str, generation: u64, current: &Option<(String, String)>) -> (lines: Vec<String>)
    ensures
        texts(lines@) == seq![
            "✓ Historical artifact "@ + digest@ + " available"@,
            "✓ Rollback activated generation "@ + decimal(generation as nat),
        ] + match current {
            Some(c) => seq![c.0@ + " → "@ + c.1@],
            None => Seq::empty(),
        },
{
    let mut lines: Vec<String> = Vec::new();
    let mut a: Vec<char> = Vec::new();
    push_str(&mut a, "✓ Historical artifact ");
    push_str(&mut a, digest);
    push_str(&mut a, " available");
    lines.push(string_of(&a));
    lines.push(line_number("✓ Rollback activated generation ", generation as u128, ""));
    proof {
        reveal_strlit("");
    }
    match current {
        Some(c) => {
            let mut l: Vec<char> = Vec::new();
            push_str(&mut l, c.0.as_str());
            push_str(&mut l, " → ");
            push_str(&mut l, c.1.as_str());
            lines.push(string_of(&l));
        },
        None => {},
    }
    assert(texts(lines@) =~= seq![
        "✓ Historical artifact "@ + digest@ + " available"@,
        "✓ Rollback activated generation "@ + decimal(generation as nat),
    ] + match current {
        Some(c) => seq![c.0@ + " → "@ + c.1@],
        None => Seq::<Seq<char>>::empty(),
    });
    lines
}

/// What `pit undeploy` reports.
pub fn undeploy_line(service: &str, generation: u64) -> (r: String)
    ensures
        r@ == "✓ Undeployed "@ + service@ + " at generation "@ + decimal(generation as nat),
{
    let mut l: Vec<char> = Vec::new();
    push_str(&mut l, "✓ Undeployed ");
    push_str(&mut l, service);
    push_str(&mut l, " at generation ");
    push_decimal(&mut l, generation as u128);
    string_of(&l)
}

pub open spec fn bool_text(b: bool) -> Seq<char> {
    if b {
        "true"@
    } else {
        "false"@
    }
}

/// A service's deployment as PitLane reports it; `status` is the name of
/// its status as its `Debug` form writes it.
#[derive(Debug)]
pub struct ServiceView {
    pub service_id: String,
    pub status: String,
    pub generation: u64,
    pub current: Option<DeploymentRevision>,
    pub artifact_local: bool,
    pub prepared: bool,
    pub unavailable_reason: Option<String>,
    pub resource_bindings: Vec<(String, String)>,
}

/// The lines of `pit service inspect`.
pub open spec fn service_inspect_spec(v: ServiceView) -> Seq<Seq<char>> {
    seq![
        "Service\n  ID: "@ + v.service_id@ + "\n  Status: "@ + v.status@ + "\n  Generation: "@
            + decimal(v.generation as nat),
    ] + (match v.current {
        Some(c) => seq!["\nDeployment\n  Digest: "@ + c.digest@ + "\n  Source ref: "@ + source_text(c)],
        None => Seq::empty(),
    }) + seq![
        "\nArtifact\n  Local: "@ + bool_text(v.artifact_local) + "\n  Prepared: "@ + bool_text(v.prepared),
    ] + (match v.unavailable_reason {
        Some(r) => seq!["  Reason: "@ + r@],
        None => Seq::empty(),
    }) + if v.resource_bindings@.len() == 0 {
        seq!["\nResources\n  none"@]
    } else {
        seq!["\nResources"@] + v.resource_bindings@.map_values(
            |b: (String, String)| "  "@ + b.0@ + " → "@ + b.1@,
        )
    }
}

fn push_bool(out: &mut Vec<char>, b: bool)
    ensures
        final(out)@ == old(out)@ + bool_text(b),
{
    if b {
        push_str(out, "true");
    } else {
        push_str(out, "false");
    }
}

pub fn service_inspect_report(v: &ServiceView) -> (lines: Vec<String>)
    ensures
        texts(lines@) == service_inspect_spec(*v),
{
    let mut lines: Vec<String> = Vec::new();
    let mut a: Vec<char> = Vec::new();
    push_str(&mut a, "Service\n  ID: ");
    push_str(&mut a, v.service_id.as_str());
    push_str(&mut a, "\n  Status: ");
    push_str(&mut a, v.status.as_str());
    push_str(&mut a, "\n  Generation: ");
    push_decimal(&mut a, v.generation as u128);
    lines.push(string_of(&a));
    let ghost s0 = texts(lines@);
    match &v.current {
        Some(c) => {
            let mut d: Vec<char> = Vec::new();
            push_str(&mut d, "\nDeployment\n  Digest: ");
            push_str(&mut d, c.digest.as_str());
            push_str(&mut d, "\n  Source ref: ");
            let src = source(c);
            push_str(&mut d, src.as_str());
            lines.push(string_of(&d));
        },
        None => {},
    }
    let ghost s1 = texts(lines@);
    assert(s1 =~= s0 + match v.current {
        Some(c) => seq!["\nDeployment\n  Digest: "@ + c.digest@ + "\n  Source ref: "@ + source_text(c)],
        None => Seq::<Seq<char>>::empty(),
    });
    let mut b: Vec<char> = Vec::new();
    push_str(&mut b, "\nArtifact\n  Local: ");
    push_bool(&mut b, v.artifact_local);
    push_str(&mut b, "\n  Prepared: ");
    push_bool(&mut b, v.prepared);
    lines.push(string_of(&b));
    let ghost s2 = texts(lines@);
    match &v.unavailable_reason {
        Some(r) => lines.push(line2("  Reason: ", r.as_str())),
        None => {},
    }
    let ghost s3 = texts(lines@);
    assert(s3 =~= s2 + match v.unavailable_reason {
        Some(r) => seq!["  Reason: "@ + r@],
        None => Seq::<Seq<char>>::empty(),
    });
    if v.resource_bindings.len() == 0 {
        lines.push(String::from_str("\nResources\n  none"));
    } else {
        lines.push(String::from_str("\nResources"));
        let ghost want = v.resource_bindings@.map_values(|b: (String, String)| "  "@ + b.0@ + " → "@ + b.1@);
        let mut i: usize = 0;
        while i < v.resource_bindings.len()
            invariant
                i <= v.resource_bindings@.len(),
                want == v.resource_bindings@.map_values(|b: (String, String)| "  "@ + b.0@ + " → "@ + b.1@),
                texts(lines@) =~= s3 + seq!["\nResources"@] + want.take(i as int),
            decreases v.resource_bindings.len() - i,
        {
            let mut l: Vec<char> = Vec::new();
            push_str(&mut l, "  ");
            push_str(&mut l, v.resource_bindings[i].0.as_str());
            push_str(&mut l, " → ");
            push_str(&mut l, v.resource_bindings[i].1.as_str());
            let row = string_of(&l);
            assert(want[i as int] == row@);
            let ghost before = lines@;
            lines.push(row);
            assert(texts(lines@) =~= texts(before).push(row@));
            i = i + 1;
            assert(texts(lines@) =~= s3 + seq!["\nResources"@] + want.take(i as int));
        }
        assert(want.take(i as int) =~= want);
    }
    assert(texts(lines@) =~= service_inspect_spec(*v));
    lines
}

/// What `pit rollback` asks PitLane to activate: the target revision's own
/// digest (its source tag is never resolved again), guarded by the
/// generation given or else the service's current one.
#[derive(Debug)]
pub struct RollbackRequest {
    pub service_id: String,
    pub target_generation: Option<u64>,
    pub target_digest: String,
    pub expected_generation: Option<u64>,
    pub force: bool,
}

pub fn rollback_request(args: &RollbackArgs, target: &DeploymentRevision, current_generation: u64) -> (r:
    RollbackRequest)
    ensures
        r.service_id@ == args.service@,
        r.target_generation == args.generation,
        r.target_digest@ == target.digest@,
        r.expected_generation == match args.expected_generation {
            Some(g) => Some(g),
            None => Some(current_generation),
        },
        r.force == args.force,
{
    RollbackRequest {
        service_id: args.service.clone(),
        target_generation: args.generation,
        target_digest: target.digest.clone(),
        expected_generation: guard_generation(args.expected_generation, Some(current_generation)),
        force: args.force,
    }
}
} // verus!
