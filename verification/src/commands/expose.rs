//! `pit expose`: the local listener and its logical routes, and the check
//! for an optional cloudflared exposure. The HTTP reads and the search of
//! `PATH` are the caller's.

use vstd::prelude::*;
use vstd::string::StringExecFns;

use crate::manifest::opt_view;
use crate::paths::{endpoint_url, endpoint_url_spec};
use crate::text::{push_str, string_of};

verus! {

#[derive(Debug)]
pub enum ExposeCommand {
    /// Print the loopback listener and current logical routes.
    Local(EndpointArgs),
    /// Check for optional cloudflared exposure without changing PitLane.
    Cloudflare(CloudflareArgs),
}

#[derive(Debug)]
pub struct EndpointArgs {
    pub control_endpoint: String,
}

#[derive(Debug)]
pub struct CloudflareArgs {
    pub hostname: Option<String>,
    pub origin: String,
}

/// The two snapshots `pit expose local` reads: routing, then management.
pub fn local_snapshot_urls(args: &EndpointArgs) -> (r: (String, String))
    ensures
        r.0@ == endpoint_url_spec(args.control_endpoint@, "/v1/routing/snapshot"@),
        r.1@ == endpoint_url_spec(args.control_endpoint@, "/v1/management/snapshot"@),
{
    (
        endpoint_url(args.control_endpoint.as_str(), "/v1/routing/snapshot"),
        endpoint_url(args.control_endpoint.as_str(), "/v1/management/snapshot"),
    )
}

/// A route of the management snapshot; a field is absent when the snapshot
/// does not hold it as text.
#[derive(Debug)]
pub struct RouteEntry {
    pub host: Option<String>,
    pub path: Option<String>,
    pub strategy: Option<String>,
    pub service_id: Option<String>,
}

pub open spec fn or_text(o: Option<Seq<char>>, fallback: Seq<char>) -> Seq<char> {
    match o {
        Some(t) => t,
        None => fallback,
    }
}

/// A route line: host (`*`), path (`/`), the strategy in brackets unless it
/// is `stable`, and the service (`unknown`).
pub open spec fn route_line_spec(r: RouteEntry) -> Seq<char> {
    "  "@ + or_text(opt_view(r.host), "*"@) + " "@ + or_text(opt_view(r.path), "/"@) + (match r.strategy {
        Some(s) => if s@ != "stable"@ {
            " ["@ + s@ + "]"@
        } else {
            Seq::empty()
        },
        None => Seq::empty(),
    }) + " → "@ + or_text(opt_view(r.service_id), "unknown"@)
}

fn push_or(out: &mut Vec<char>, o: &Option<String>, fallback: &str)
    ensures
        final(out)@ == old(out)@ + or_text(opt_view(*o), fallback@),
{
    match o {
        Some(t) => push_str(out, t.as_str()),
        None => push_str(out, fallback),
    }
}

pub fn route_line(r: &RouteEntry) -> (s: String)
    ensures
        s@ == route_line_spec(*r),
{
    let mut out: Vec<char> = Vec::new();
    push_str(&mut out, "  ");
    push_or(&mut out, &r.host, "*");
    push_str(&mut out, " ");
    push_or(&mut out, &r.path, "/");
    match &r.strategy {
        Some(s) => {
            let stable = String::from_str("stable");
            if *s != stable {
                push_str(&mut out, " [");
                push_str(&mut out, s.as_str());
                push_str(&mut out, "]");
            } else {
                assert(out@ + Seq::<char>::empty() =~= out@);
            }
        },
        None => {
            assert(out@ + Seq::<char>::empty() =~= out@);
        },
    }
    push_str(&mut out, " → ");
    push_or(&mut out, &r.service_id, "unknown");
    string_of(&out)
}

pub open spec fn texts(v: Seq<String>) -> Seq<Seq<char>> {
    v.map_values(|s: String| s@)
}

/// The lines of `pit expose local`, given the routing snapshot's
/// generation as text and the management snapshot's routes (absent when it
/// holds no list).
pub open spec fn local_report_spec(generation: Seq<char>, routes: Option<Seq<RouteEntry>>) -> Seq<Seq<char>> {
    let rs = match routes {
        Some(v) => v,
        None => Seq::empty(),
    };
    seq![
        "PitLane Local\n\nListener:\n  http://127.0.0.1:7080\n"@,
        "RouteSnapshot generation: "@ + generation,
        "Routes:"@,
    ] + rs.map_values(|r: RouteEntry| route_line_spec(r)) + if rs.len() == 0 {
        seq!["  (no logical routes configured)"@]
    } else {
        Seq::empty()
    }
}

pub fn local_report(generation: &str, routes: &Option<Vec<RouteEntry>>) -> (lines: Vec<String>)
    ensures
        texts(lines@) == local_report_spec(
            generation@,
            match routes {
                Some(v) => Some(v@),
                None => None,
            },
        ),
{
    let mut lines: Vec<String> = Vec::new();
    lines.push(String::from_str("PitLane Local\n\nListener:\n  http://127.0.0.1:7080\n"));
    let mut g: Vec<char> = Vec::new();
    push_str(&mut g, "RouteSnapshot generation: ");
    push_str(&mut g, generation);
    lines.push(string_of(&g));
    lines.push(String::from_str("Routes:"));
    let ghost head = texts(lines@);
    let ghost rs = match routes {
        Some(v) => v@,
        None => Seq::<RouteEntry>::empty(),
    };
    let mut count: usize = 0;
    match routes {
        Some(v) => {
            let ghost want = v@.map_values(|r: RouteEntry| route_line_spec(r));
            let mut i: usize = 0;
            while i < v.len()
                invariant
                    i <= v@.len(),
                    want == v@.map_values(|r: RouteEntry| route_line_spec(r)),
                    texts(lines@) =~= head + want.take(i as int),
                decreases v.len() - i,
            {
                let row = route_line(&v[i]);
                let ghost before = lines@;
                lines.push(row);
                assert(texts(lines@) =~= texts(before).push(row@));
                i = i + 1;
                assert(texts(lines@) =~= head + want.take(i as int));
            }
            assert(want.take(i as int) =~= want);
            count = v.len();
        },
        None => {
            assert(rs.map_values(|r: RouteEntry| route_line_spec(r)) =~= Seq::<Seq<char>>::empty());
        },
    }
    assert(count == rs.len());
    assert(texts(lines@) =~= head + rs.map_values(|r: RouteEntry| route_line_spec(r)));
    let ghost mid = texts(lines@);
    if count == 0 {
        lines.push(String::from_str("  (no logical routes configured)"));
    }
    assert(texts(lines@) =~= mid + if rs.len() == 0 {
        seq!["  (no logical routes configured)"@]
    } else {
        Seq::<Seq<char>>::empty()
    });
    assert(head =~= seq![
        "PitLane Local\n\nListener:\n  http://127.0.0.1:7080\n"@,
        "RouteSnapshot generation: "@ + generation@,
        "Routes:"@,
    ]);
    assert(texts(lines@) =~= local_report_spec(
        generation@,
        match routes {
            Some(v) => Some(v@),
            None => None,
        },
    ));
    lines
}

/// `cloudflared` is not installed.
#[derive(Debug)]
pub struct ExposeError {
    pub message: String,
}

/// What `pit expose cloudflare` reports, given whether `cloudflared` is on
/// the `PATH`.
pub fn cloudflare_report(args: &CloudflareArgs, installed: bool) -> (r: Result<Vec<String>, ExposeError>)
    ensures
        match r {
            Ok(lines) => installed && texts(lines@) == seq![
                "cloudflared detected. Origin remains "@ + args.origin@ + "."@,
                match args.hostname {
                    Some(h) => "Configured hostname: "@ + h@,
                    None => "No hostname supplied; use an existing named tunnel/configuration."@,
                },
                "PitLane keeps owning local routing; no credentials are stored by PitFast."@,
            ],
            Err(e) => !installed && e.message@
                == "cloudflared is not installed; install it separately, then run 'pit expose cloudflare --hostname <name>'; PitLane remains available at "@
                + args.origin@,
        },
{
    if !installed {
        let mut m: Vec<char> = Vec::new();
        push_str(
            &mut m,
            "cloudflared is not installed; install it separately, then run 'pit expose cloudflare --hostname <name>'; PitLane remains available at ",
        );
        push_str(&mut m, args.origin.as_str());
        return Err(ExposeError { message: string_of(&m) });
    }
    let mut lines: Vec<String> = Vec::new();
    let mut a: Vec<char> = Vec::new();
    push_str(&mut a, "cloudflared detected. Origin remains ");
    push_str(&mut a, args.origin.as_str());
    push_str(&mut a, ".");
    lines.push(string_of(&a));
    match &args.hostname {
        Some(h) => {
            let mut b: Vec<char> = Vec::new();
            push_str(&mut b, "Configured hostname: ");
            push_str(&mut b, h.as_str());
            lines.push(string_of(&b));
        },
        None => lines.push(
            String::from_str("No hostname supplied; use an existing named tunnel/configuration."),
        ),
    }
    lines.push(String::from_str("PitLane keeps owning local routing; no credentials are stored by PitFast."));
    assert(texts(lines@) =~= seq![
        "cloudflared detected. Origin remains "@ + args.origin@ + "."@,
        match args.hostname {
            Some(h) => "Configured hostname: "@ + h@,
            None => "No hostname supplied; use an existing named tunnel/configuration."@,
        },
        "PitLane keeps owning local routing; no credentials are stored by PitFast."@,
    ]);
    Ok(lines)
}

} // verus!
