//! `pit up`: the report of an application's activation, the release it
//! asks PitLane for, and the decisions around starting a bundled local
//! PitLane. Building, the HTTP exchange, processes and files are the
//! caller's.

use vstd::prelude::*;
use vstd::string::StringExecFns;

use crate::manifest::{
    bindings_view, copy_bindings, copy_text, opt_view, resources_view, routes_view,
    ApplicationPlan, ResourceBinding, Route,
};
use crate::paths::{join_path, joined};
use crate::text::{
    chars_of, decimal, pad_right, push_decimal, push_padded_right, push_str, string_of, trim,
    trim_chars,
};
use crate::units::{parse_u64, parse_u64_spec};
use crate::commands::cockpit::joined_by;

verus! {

#[derive(Debug)]
pub struct UpArgs {
    /// The Pit Manifest; without it, the directory's only `*.pit` file (or
    /// `app.pit`) is used.
    pub file: Option<String>,
    /// Existing local PitLane deployment control endpoint.
    pub control_endpoint: String,
    /// Host-local verified artifact store used by deployment.
    pub artifact_store: Option<String>,
    /// Re-activate even when the service generation has changed.
    pub force: bool,
    /// Use Cargo debug/source builder profiles where applicable.
    pub debug: bool,
    /// Print a control-plane timing breakdown for this activation.
    pub timings: bool,
}

/// The control endpoint a distribution bundle's PitLane listens on.
pub const DEFAULT_CONTROL_ENDPOINT: &'static str = "http://127.0.0.1:7081";

pub open spec fn texts(v: Seq<String>) -> Seq<Seq<char>> {
    v.map_values(|s: String| s@)
}

/// The opening of the `pit up` report: the manifest and its digest, the
/// application, and the heading of the services.
pub fn up_header(plan: &ApplicationPlan) -> (lines: Vec<String>)
    ensures
        texts(lines@) == seq![
            "PitFast\n\nManifest\n  "@ + plan.manifest.path@ + "\n  digest "@ + plan.manifest.digest@,
            "\nApplication\n  "@ + plan.application_name@,
            "\nServices"@,
        ],
{
    let mut lines: Vec<String> = Vec::new();
    let mut a: Vec<char> = Vec::new();
    push_str(&mut a, "PitFast\n\nManifest\n  ");
    push_str(&mut a, plan.manifest.path.as_str());
    push_str(&mut a, "\n  digest ");
    push_str(&mut a, plan.manifest.digest.as_str());
    lines.push(string_of(&a));
    let mut b: Vec<char> = Vec::new();
    push_str(&mut b, "\nApplication\n  ");
    push_str(&mut b, plan.application_name.as_str());
    lines.push(string_of(&b));
    lines.push(String::from_str("\nServices"));
    assert(texts(lines@) =~= seq![
        "PitFast\n\nManifest\n  "@ + plan.manifest.path@ + "\n  digest "@ + plan.manifest.digest@,
        "\nApplication\n  "@ + plan.application_name@,
        "\nServices"@,
    ]);
    lines
}

/// One finding of a compatibility check.
#[derive(Debug)]
pub struct Finding {
    pub category: String,
    pub reason: String,
    pub recommendation: String,
    pub blocks_build: bool,
}

/// A finding as `  [category] reason`.
pub open spec fn finding_line(f: Finding) -> Seq<char> {
    "  ["@ + f.category@ + "] "@ + f.reason@
}

/// The lines of the findings that block a build, in order.
pub open spec fn blocking_lines(findings: Seq<Finding>) -> Seq<Seq<char>>
    decreases findings.len(),
{
    if findings.len() == 0 {
        Seq::empty()
    } else if findings.last().blocks_build {
        blocking_lines(findings.drop_last()).push(finding_line(findings.last()))
    } else {
        blocking_lines(findings.drop_last())
    }
}

/// The failure `pit up` reports, before any side effect, for a service
/// whose compatibility check blocks its build: the blocking findings, one
/// per line.
pub fn compatibility_failure(service_id: &str, findings: &Vec<Finding>) -> (r: String)
    ensures
        r@ == "service '"@ + service_id@ + "' compatibility check failed before side effects:\n"@
            + joined_by(blocking_lines(findings@), "\n"@),
{
    let mut out: Vec<char> = Vec::new();
    push_str(&mut out, "service '");
    push_str(&mut out, service_id);
    push_str(&mut out, "' compatibility check failed before side effects:\n");
    let ghost head = out@;
    let mut any = false;
    let mut i: usize = 0;
    while i < findings.len()
        invariant
            i <= findings@.len(),
            any == (blocking_lines(findings@.take(i as int)).len() > 0),
            out@ == head + joined_by(blocking_lines(findings@.take(i as int)), "\n"@),
        decreases findings.len() - i,
    {
        let ghost pre = findings@.take(i as int);
        let ghost next = findings@.take(i + 1);
        assert(next.drop_last() =~= pre);
        assert(next.last() == findings@[i as int]);
        let f = &findings[i];
        if f.blocks_build {
            if any {
                push_str(&mut out, "\n");
            }
            push_str(&mut out, "  [");
            push_str(&mut out, f.category.as_str());
            push_str(&mut out, "] ");
            push_str(&mut out, f.reason.as_str());
            proof {
                let bl = blocking_lines(next);
                assert(bl == blocking_lines(pre).push(finding_line(*f)));
                assert(bl.drop_last() =~= blocking_lines(pre));
                if !any {
                    assert(bl.len() == 1);
                }
            }
            any = true;
        }
        assert(out@ =~= head + joined_by(blocking_lines(next), "\n"@));
        i = i + 1;
    }
    assert(findings@.take(i as int) =~= findings@);
    string_of(&out)
}

/// The line `pit up` prints for a built service: its id and interface
/// (`native` when none) padded to columns, `cached` or `built`, and the
/// artifact's sha256.
pub fn service_ready_line(id: &str, interface: &Option<String>, reused: bool, sha256: &str) -> (r:
    String)
    ensures
        r@ == "  ✓ "@ + pad_right(id@, 12) + " "@ + pad_right(
            crate::commands::build::interface_text(opt_view(*interface)),
            14,
        ) + " "@ + pad_right(crate::commands::build::build_state(reused), 8) + " "@ + sha256@,
{
    let mut out: Vec<char> = Vec::new();
    push_str(&mut out, "  ✓ ");
    push_padded_right(&mut out, &chars_of(id), 12);
    push_str(&mut out, " ");
    let interface_chars = match interface {
        Some(i) => chars_of(i.as_str()),
        None => chars_of("native"),
    };
    push_padded_right(&mut out, &interface_chars, 14);
    push_str(&mut out, " ");
    let state = if reused {
        chars_of("cached")
    } else {
        chars_of("built")
    };
    push_padded_right(&mut out, &state, 8);
    push_str(&mut out, " ");
    push_str(&mut out, sha256);
    string_of(&out)
}

/// Why `pit up` stopped.
#[derive(Debug)]
pub struct UpError {
    pub message: String,
}

/// `pit up` deploys only `wasi:http/proxy` components.
pub fn check_http_world(service_id: &str, is_http_proxy: bool, entrypoint: &str) -> (r: Result<
    (),
    UpError,
>)
    ensures
        r is Ok <==> is_http_proxy,
        r matches Err(e) ==> e.message@ == "service '"@ + service_id@ + "' built as "@ + entrypoint@
            + ", but pit up deployment currently requires wasi:http/proxy"@,
{
    if is_http_proxy {
        return Ok(());
    }
    let mut m: Vec<char> = Vec::new();
    push_str(&mut m, "service '");
    push_str(&mut m, service_id);
    push_str(&mut m, "' built as ");
    push_str(&mut m, entrypoint);
    push_str(&mut m, ", but pit up deployment currently requires wasi:http/proxy");
    Err(UpError { message: string_of(&m) })
}

/// The resource and route sections of the report, each present only when
/// the plan has entries.
pub open spec fn plan_sections_spec(
    resources: Seq<(Seq<char>, (Seq<char>, Seq<char>))>,
    routes: Seq<(Seq<char>, Seq<char>)>,
) -> Seq<Seq<char>> {
    (if resources.len() == 0 {
        Seq::empty()
    } else {
        seq!["\nResources"@] + resources.map_values(
            |r: (Seq<char>, (Seq<char>, Seq<char>))| "  ✓ "@ + r.0 + "  "@ + r.1.0 + " <- "@ + r.1.1,
        )
    }) + (if routes.len() == 0 {
        Seq::empty()
    } else {
        seq!["\nRoutes"@] + routes.map_values(|r: (Seq<char>, Seq<char>)| "  "@ + r.0 + " → "@ + r.1)
    })
}

pub fn plan_sections(plan: &ApplicationPlan) -> (lines: Vec<String>)
    ensures
        texts(lines@) == plan_sections_spec(resources_view(plan.resources@), routes_view(plan.routes@)),
{
    let ghost rs = resources_view(plan.resources@);
    let ghost ts = routes_view(plan.routes@);
    let ghost rrows = rs.map_values(
        |r: (Seq<char>, (Seq<char>, Seq<char>))| "  ✓ "@ + r.0 + "  "@ + r.1.0 + " <- "@ + r.1.1,
    );
    let ghost trows = ts.map_values(|r: (Seq<char>, Seq<char>)| "  "@ + r.0 + " → "@ + r.1);
    let mut lines: Vec<String> = Vec::new();
    if plan.resources.len() > 0 {
        lines.push(String::from_str("\nResources"));
        let mut i: usize = 0;
        while i < plan.resources.len()
            invariant
                i <= plan.resources@.len(),
                rs == resources_view(plan.resources@),
                rrows == rs.map_values(
                    |r: (Seq<char>, (Seq<char>, Seq<char>))| "  ✓ "@ + r.0 + "  "@ + r.1.0 + " <- "@ + r.1.1,
                ),
                texts(lines@) =~= seq!["\nResources"@] + rrows.take(i as int),
            decreases plan.resources.len() - i,
        {
            let r = &plan.resources[i];
            let mut l: Vec<char> = Vec::new();
            push_str(&mut l, "  ✓ ");
            push_str(&mut l, r.id.as_str());
            push_str(&mut l, "  ");
            push_str(&mut l, r.spec.kind.as_str());
            push_str(&mut l, " <- ");
            push_str(&mut l, r.spec.source.as_str());
            let row = string_of(&l);
            assert(rs[i as int] == r@);
            assert(rrows[i as int] == row@);
            let ghost before = lines@;
            lines.push(row);
            assert(texts(lines@) =~= texts(before).push(row@));
            i = i + 1;
            assert(texts(lines@) =~= seq!["\nResources"@] + rrows.take(i as int));
        }
        assert(rrows.take(i as int) =~= rrows);
    }
    let ghost mid = texts(lines@);
    assert(mid =~= (if rs.len() == 0 {
        Seq::<Seq<char>>::empty()
    } else {
        seq!["\nResources"@] + rrows
    }));
    if plan.routes.len() > 0 {
        lines.push(String::from_str("\nRoutes"));
        let mut i: usize = 0;
        while i < plan.routes.len()
            invariant
                i <= plan.routes@.len(),
                ts == routes_view(plan.routes@),
                trows == ts.map_values(|r: (Seq<char>, Seq<char>)| "  "@ + r.0 + " → "@ + r.1),
                texts(lines@) =~= mid + seq!["\nRoutes"@] + trows.take(i as int),
            decreases plan.routes.len() - i,
        {
            let r = &plan.routes[i];
            let mut l: Vec<char> = Vec::new();
            push_str(&mut l, "  ");
            push_str(&mut l, r.path.as_str());
            push_str(&mut l, " → ");
            push_str(&mut l, r.service.as_str());
            let row = string_of(&l);
            assert(ts[i as int] == r@);
            assert(trows[i as int] == row@);
            let ghost before = lines@;
            lines.push(row);
            assert(texts(lines@) =~= texts(before).push(row@));
            i = i + 1;
            assert(texts(lines@) =~= mid + seq!["\nRoutes"@] + trows.take(i as int));
        }
        assert(trows.take(i as int) =~= trows);
    }
    assert(texts(lines@) =~= plan_sections_spec(rs, ts));
    lines
}

/// The application release `pit up` asks PitLane to activate: every
/// service of the plan, its routes, and each service's resource bindings.
#[derive(Debug)]
pub struct ReleaseRequest {
    pub application_id: String,
    pub manifest_digest: String,
    pub routes: Vec<Route>,
    /// Per service id, in plan order, its variable-to-resource bindings.
    pub resource_bindings: Vec<(String, Vec<ResourceBinding>)>,
}

pub open spec fn service_bindings_view(v: Seq<(String, Vec<ResourceBinding>)>) -> Seq<
    (Seq<char>, Seq<(Seq<char>, Seq<char>)>),
> {
    v.map_values(|e: (String, Vec<ResourceBinding>)| (e.0@, bindings_view(e.1@)))
}

pub fn release_request(plan: &ApplicationPlan) -> (r: ReleaseRequest)
    ensures
        r.application_id@ == plan.application_name@,
        r.manifest_digest@ == plan.manifest.digest@,
        routes_view(r.routes@) == routes_view(plan.routes@),
        service_bindings_view(r.resource_bindings@) == plan.services@.map_values(
            |s: crate::manifest::ResolvedService| (s.id@, bindings_view(s.spec.resources@)),
        ),
{
    let mut routes: Vec<Route> = Vec::new();
    let mut i: usize = 0;
    while i < plan.routes.len()
        invariant
            i <= plan.routes@.len(),
            routes_view(routes@) =~= routes_view(plan.routes@).take(i as int),
        decreases plan.routes.len() - i,
    {
        let r = Route { path: copy_text(&plan.routes[i].path), service: copy_text(&plan.routes[i].service) };
        let ghost before = routes@;
        routes.push(r);
        assert(routes_view(routes@) =~= routes_view(before).push(r@));
        i = i + 1;
    }
    assert(routes_view(plan.routes@).take(i as int) =~= routes_view(plan.routes@));
    let ghost want = plan.services@.map_values(
        |s: crate::manifest::ResolvedService| (s.id@, bindings_view(s.spec.resources@)),
    );
    let mut bindings: Vec<(String, Vec<ResourceBinding>)> = Vec::new();
    let mut j: usize = 0;
    while j < plan.services.len()
        invariant
            j <= plan.services@.len(),
            want == plan.services@.map_values(
                |s: crate::manifest::ResolvedService| (s.id@, bindings_view(s.spec.resources@)),
            ),
            service_bindings_view(bindings@) =~= want.take(j as int),
        decreases plan.services.len() - j,
    {
        let s = &plan.services[j];
        let e = (copy_text(&s.id), copy_bindings(&s.spec.resources));
        let ghost before = bindings@;
        bindings.push(e);
        assert(service_bindings_view(bindings@) =~= service_bindings_view(before).push(
            (e.0@, bindings_view(e.1@)),
        ));
        j = j + 1;
    }
    assert(want.take(j as int) =~= want);
    ReleaseRequest {
        application_id: copy_text(&plan.application_name),
        manifest_digest: copy_text(&plan.manifest.digest),
        routes,
        resource_bindings: bindings,
    }
}

/// Only the default control endpoint may be served by a bundled PitLane.
pub fn bundled_endpoint(control_endpoint: &String) -> (r: bool)
    ensures
        r == (control_endpoint@ == DEFAULT_CONTROL_ENDPOINT@),
{
    let d = String::from_str(DEFAULT_CONTROL_ENDPOINT);
    *control_endpoint == d
}

/// The directory a bundled PitLane keeps its state in: `pitfast` under
/// `$XDG_STATE_HOME`, else under `$HOME/.local/state`.
pub open spec fn state_dir_spec(xdg_state_home: Option<Seq<char>>, home: Option<Seq<char>>) -> Option<
    Seq<char>,
> {
    match xdg_state_home {
        Some(x) => Some(joined(x, "pitfast"@)),
        None => match home {
            Some(h) => Some(joined(joined(h, ".local/state"@), "pitfast"@)),
            None => None,
        },
    }
}

pub fn state_dir(xdg_state_home: &Option<String>, home: &Option<String>) -> (r: Result<String, UpError>)
    ensures
        match r {
            Ok(d) => state_dir_spec(opt_view(*xdg_state_home), opt_view(*home)) == Some(d@),
            Err(e) => state_dir_spec(opt_view(*xdg_state_home), opt_view(*home)) is None
                && e.message@ == "cannot locate a user state directory for local PitLane"@,
        },
{
    match xdg_state_home {
        Some(x) => Ok(join_path(x.as_str(), "pitfast")),
        None => match home {
            Some(h) => {
                let base = join_path(h.as_str(), ".local/state");
                Ok(join_path(base.as_str(), "pitfast"))
            },
            None => Err(
                UpError {
                    message: String::from_str("cannot locate a user state directory for local PitLane"),
                },
            ),
        },
    }
}

/// The process id a pid file records: its trimmed text as a `u32`.
pub open spec fn recorded_pid_spec(contents: Seq<char>) -> Option<u32> {
    match parse_u64_spec(trim(contents)) {
        Some(v) => if v <= u32::MAX {
            Some(v as u32)
        } else {
            None
        },
        None => None,
    }
}

pub fn recorded_pid(contents: &str) -> (r: Option<u32>)
    ensures
        r == recorded_pid_spec(contents@),
{
    let t = trim_chars(&chars_of(contents));
    match parse_u64(&t) {
        Some(v) => if v <= 4294967295u64 {
            Some(v as u32)
        } else {
            None
        },
        None => None,
    }
}

/// The arguments a bundled PitLane is started with.
pub fn pit_lane_args(artifact_store: &Option<String>) -> (r: Vec<String>)
    ensures
        texts(r@) == seq!["--listen"@, "127.0.0.1:7080"@, "--control-listen"@, "127.0.0.1:7081"@] + match artifact_store {
            Some(s) => seq!["--artifact-store"@, s@],
            None => Seq::empty(),
        },
{
    let mut r: Vec<String> = Vec::new();
    r.push(String::from_str("--listen"));
    r.push(String::from_str("127.0.0.1:7080"));
    r.push(String::from_str("--control-listen"));
    r.push(String::from_str("127.0.0.1:7081"));
    match artifact_store {
        Some(s) => {
            r.push(String::from_str("--artifact-store"));
            r.push(copy_text(s));
        },
        None => {},
    }
    assert(texts(r@) =~= seq!["--listen"@, "127.0.0.1:7080"@, "--control-listen"@, "127.0.0.1:7081"@] + match artifact_store {
        Some(s) => seq!["--artifact-store"@, s@],
        None => Seq::<Seq<char>>::empty(),
    });
    r
}

/// The refusal when a previous PitLane process is still recorded as
/// running.
pub fn stale_process_error(control_endpoint: &str, pid: u32, state_dir: &str) -> (e: UpError)
    ensures
        e.message@ == "local PitLane is unavailable at "@ + control_endpoint@ + ", but process "@
            + decimal(pid as nat) + " is still recorded; inspect "@ + state_dir@,
{
    let mut m: Vec<char> = Vec::new();
    push_str(&mut m, "local PitLane is unavailable at ");
    push_str(&mut m, control_endpoint);
    push_str(&mut m, ", but process ");
    push_decimal(&mut m, pid as u128);
    push_str(&mut m, " is still recorded; inspect ");
    push_str(&mut m, state_dir);
    UpError { message: string_of(&m) }
}

/// How many times a started PitLane is polled, 100 ms apart, before
/// `pit up` gives up on it.
pub const READINESS_ATTEMPTS: u32 = 100;

/// What was observed on one poll of a starting PitLane.
#[derive(Debug, Clone, Copy, PartialEq, Eq, Structural)]
pub enum Probe {
    /// The control endpoint answered.
    Reachable,
    /// It did not answer and the process has exited.
    Exited,
    /// It did not answer and the process still runs.
    Pending,
}

/// A step of `pit up` for an application of `n` services: check each
/// service's compatibility, build each, make sure a PitLane answers, prepare
/// each service's release, then activate the release as one.
#[derive(Debug, Clone, Copy, PartialEq, Eq, Structural)]
pub enum UpStep {
    Check(usize),
    Build(usize),
    EnsureLane,
    Prepare(usize),
    Activate,
    Done,
}

/// The steps of `pit up` in order: no build before every check has passed,
/// and no activation before every service is prepared.
pub open spec fn up_schedule(n: nat) -> Seq<UpStep> {
    Seq::new(n, |i: int| UpStep::Check(i as usize)) + Seq::new(n, |i: int| UpStep::Build(i as usize))
        + seq![UpStep::EnsureLane] + Seq::new(n, |i: int| UpStep::Prepare(i as usize)) + seq![
        UpStep::Activate,
        UpStep::Done,
    ]
}

/// A step names a service of the application.
pub open spec fn step_in_range(n: nat, step: UpStep) -> bool {
    match step {
        UpStep::Check(i) => i < n,
        UpStep::Build(i) => i < n,
        UpStep::Prepare(i) => i < n,
        _ => true,
    }
}

/// The step after `step` has succeeded.
pub open spec fn next_step(n: nat, step: UpStep) -> UpStep {
    match step {
        UpStep::Check(i) => if i + 1 < n { UpStep::Check((i + 1) as usize) } else { UpStep::Build(0) },
        UpStep::Build(i) => if i + 1 < n { UpStep::Build((i + 1) as usize) } else { UpStep::EnsureLane },
        UpStep::EnsureLane => if n > 0 { UpStep::Prepare(0) } else { UpStep::Activate },
        UpStep::Prepare(i) => if i + 1 < n { UpStep::Prepare((i + 1) as usize) } else { UpStep::Activate },
        UpStep::Activate => UpStep::Done,
        UpStep::Done => UpStep::Done,
    }
}

/// The first step of `pit up`.
pub fn up_first(n: usize) -> (r: UpStep)
    ensures
        r == up_schedule(n as nat)[0],
{
    if n > 0 {
        UpStep::Check(0)
    } else {
        UpStep::EnsureLane
    }
}

/// Moves on from a step that has succeeded.
pub fn up_next(n: usize, step: UpStep) -> (r: UpStep)
    requires
        step_in_range(n as nat, step),
    ensures
        step_in_range(n as nat, r),
        r == next_step(n as nat, step),
{
    match step {
        UpStep::Check(i) => if i + 1 < n { UpStep::Check(i + 1) } else { UpStep::Build(0) },
        UpStep::Build(i) => if i + 1 < n { UpStep::Build(i + 1) } else { UpStep::EnsureLane },
        UpStep::EnsureLane => if n > 0 { UpStep::Prepare(0) } else { UpStep::Activate },
        UpStep::Prepare(i) => if i + 1 < n { UpStep::Prepare(i + 1) } else { UpStep::Activate },
        UpStep::Activate => UpStep::Done,
        UpStep::Done => UpStep::Done,
    }
}

/// Following `up_next` from `up_first` walks `up_schedule` step by step:
/// every service is checked before any is built, every one is built before
/// PitLane is reached, and every one is prepared before the release is
/// activated, once.
pub proof fn law_up_follows_schedule(n: usize, k: int)
    requires
        0 <= k < up_schedule(n as nat).len() - 1,
    ensures
        step_in_range(n as nat, up_schedule(n as nat)[k]),
        up_schedule(n as nat)[k + 1] == next_step(n as nat, up_schedule(n as nat)[k]),
{
    let m = n as int;
    let s = up_schedule(n as nat);
    assert(s.len() == 3 * m + 3);
    if k < m {
        assert(s[k] == UpStep::Check(k as usize));
        if k + 1 < m {
            assert(s[k + 1] == UpStep::Check((k + 1) as usize));
        } else {
            assert(s[k + 1] == UpStep::Build(0));
        }
    } else if k < 2 * m {
        assert(s[k] == UpStep::Build((k - m) as usize));
        if k + 1 < 2 * m {
            assert(s[k + 1] == UpStep::Build((k + 1 - m) as usize));
        } else {
            assert(s[k + 1] == UpStep::EnsureLane);
        }
    } else if k == 2 * m {
        assert(s[k] == UpStep::EnsureLane);
        if m > 0 {
            assert(s[k + 1] == UpStep::Prepare(0));
        } else {
            assert(s[k + 1] == UpStep::Activate);
        }
    } else if k < 3 * m + 1 {
        assert(s[k] == UpStep::Prepare((k - 2 * m - 1) as usize));
        if k + 1 < 3 * m + 1 {
            assert(s[k + 1] == UpStep::Prepare((k - 2 * m) as usize));
        } else {
            assert(s[k + 1] == UpStep::Activate);
        }
    } else {
        assert(s[k] == UpStep::Activate);
        assert(s[k + 1] == UpStep::Done);
    }
}

/// What to do after a poll.
#[derive(Debug)]
pub enum Readiness {
    /// PitLane is up.
    Ready,
    /// Sleep 100 ms and poll again.
    Wait,
    /// Sleep 100 ms, then give up with this failure: the last poll passed.
    WaitThenFail(UpError),
    /// Give up with this failure.
    Failed(UpError),
}

/// Decides after poll number `attempt` (counted from 0): ready when the
/// endpoint answered, failed when the process exited, else wait, and after
/// the last attempt's wait give up.
pub fn readiness_step(attempt: u32, probe: Probe, control_endpoint: &str, log_path: &str) -> (r:
    Readiness)
    ensures
        probe == Probe::Reachable ==> r is Ready,
        probe == Probe::Exited ==> (r matches Readiness::Failed(e) && e.message@
            == "bundled PitLane exited before becoming ready; inspect "@ + log_path@),
        probe == Probe::Pending && attempt + 1 < READINESS_ATTEMPTS ==> r is Wait,
        probe == Probe::Pending && attempt + 1 >= READINESS_ATTEMPTS ==> (r matches Readiness::WaitThenFail(e)
            && e.message@ == "bundled PitLane did not become ready at "@ + control_endpoint@
            + "; inspect "@ + log_path@),
{
    match probe {
        Probe::Reachable => Readiness::Ready,
        Probe::Exited => {
            let mut m: Vec<char> = Vec::new();
            push_str(&mut m, "bundled PitLane exited before becoming ready; inspect ");
            push_str(&mut m, log_path);
            Readiness::Failed(UpError { message: string_of(&m) })
        },
        Probe::Pending => {
            if attempt < READINESS_ATTEMPTS - 1 {
                Readiness::Wait
            } else {
                let mut m: Vec<char> = Vec::new();
                push_str(&mut m, "bundled PitLane did not become ready at ");
                push_str(&mut m, control_endpoint);
                push_str(&mut m, "; inspect ");
                push_str(&mut m, log_path);
                Readiness::WaitThenFail(UpError { message: string_of(&m) })
            }
        },
    }
}


/// The durations `pit up --timings` reports: its own stages in
/// milliseconds, then PitLane's activation figures.
#[derive(Debug, Clone, Copy)]
pub struct UpTimings {
    pub resolve_ms: u128,
    pub doctor_ms: u128,
    pub build_ms: u128,
    pub prepare_ms: u128,
    pub activation_ms: u128,
    pub validation_ms: u128,
    pub artifact_verification_ms: u128,
    pub artifact_preparation_ms: u128,
    pub release_persistence_ms: u128,
    pub snapshot_publication_ms: u128,
    pub prepared_cache_hits: u128,
    pub cold_compiles: u128,
    pub warm_restores: u128,
    pub total_ms: u128,
}

pub open spec fn up_timing_spec(t: UpTimings) -> Seq<Seq<char>> {
    seq![
        "\nPit up timings"@,
        "  Resolve:        "@ + decimal(t.resolve_ms as nat) + " ms"@,
        "  Doctor:         "@ + decimal(t.doctor_ms as nat) + " ms"@,
        "  Build:          "@ + decimal(t.build_ms as nat) + " ms"@,
        "  Local prepare:  "@ + decimal(t.prepare_ms as nat) + " ms"@,
        "  Activation HTTP: "@ + decimal(t.activation_ms as nat) + " ms"@,
        "  Validation:     "@ + decimal(t.validation_ms as nat) + " ms"@,
        "  Artifact verify:"@ + decimal(t.artifact_verification_ms as nat) + " ms"@,
        "  PitBox prepare: "@ + decimal(t.artifact_preparation_ms as nat) + " ms"@,
        "  Release persist:"@ + decimal(t.release_persistence_ms as nat) + " ms"@,
        "  Snapshot publish: "@ + decimal(t.snapshot_publication_ms as nat) + " ms"@,
        "  Prepared hits:   "@ + decimal(t.prepared_cache_hits as nat),
        "  Cold compiles:   "@ + decimal(t.cold_compiles as nat),
        "  Warm restores:   "@ + decimal(t.warm_restores as nat),
        "  Total:           "@ + decimal(t.total_ms as nat) + " ms"@,
    ]
}

fn timing_line(label: &str, n: u128, unit: bool) -> (r: String)
    ensures
        r@ == label@ + decimal(n as nat) + if unit { " ms"@ } else { Seq::empty() },
{
    let mut l: Vec<char> = Vec::new();
    push_str(&mut l, label);
    push_decimal(&mut l, n);
    if unit {
        push_str(&mut l, " ms");
    } else {
        assert(l@ + Seq::<char>::empty() =~= l@);
    }
    string_of(&l)
}

pub fn up_timing_lines(t: &UpTimings) -> (lines: Vec<String>)
    ensures
        texts(lines@) == up_timing_spec(*t),
{
    let mut lines: Vec<String> = Vec::new();
    lines.push(String::from_str("\nPit up timings"));
    lines.push(timing_line("  Resolve:        ", t.resolve_ms, true));
    lines.push(timing_line("  Doctor:         ", t.doctor_ms, true));
    lines.push(timing_line("  Build:          ", t.build_ms, true));
    lines.push(timing_line("  Local prepare:  ", t.prepare_ms, true));
    lines.push(timing_line("  Activation HTTP: ", t.activation_ms, true));
    lines.push(timing_line("  Validation:     ", t.validation_ms, true));
    lines.push(timing_line("  Artifact verify:", t.artifact_verification_ms, true));
    lines.push(timing_line("  PitBox prepare: ", t.artifact_preparation_ms, true));
    lines.push(timing_line("  Release persist:", t.release_persistence_ms, true));
    lines.push(timing_line("  Snapshot publish: ", t.snapshot_publication_ms, true));
    lines.push(timing_line("  Prepared hits:   ", t.prepared_cache_hits, false));
    lines.push(timing_line("  Cold compiles:   ", t.cold_compiles, false));
    lines.push(timing_line("  Warm restores:   ", t.warm_restores, false));
    lines.push(timing_line("  Total:           ", t.total_ms, true));
    assert(texts(lines@) =~= up_timing_spec(*t));
    lines
}
} // verus!
