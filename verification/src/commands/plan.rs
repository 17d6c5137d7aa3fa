//! `pit plan`: a resolved application plan as the CLI prints it. Resolving
//! the plan is the manifest module's; printing is the caller's.

use vstd::prelude::*;
use vstd::string::StringExecFns;

use crate::manifest::{resources_view, routes_view, services_view, ApplicationPlan, ResolvedServiceView};
use crate::text::{push_str, string_of};

verus! {

#[derive(Debug)]
pub struct PlanArgs {
    pub file: Option<String>,
}

pub open spec fn texts(v: Seq<String>) -> Seq<Seq<char>> {
    v.map_values(|s: String| s@)
}

/// The lines of `pit plan`: the application, its manifest and digest, each
/// service with its project directory, then the routes and resources when
/// there are any.
pub open spec fn plan_summary_spec(
    name: Seq<char>,
    path: Seq<char>,
    digest: Seq<char>,
    services: Seq<ResolvedServiceView>,
    routes: Seq<(Seq<char>, Seq<char>)>,
    resources: Seq<(Seq<char>, (Seq<char>, Seq<char>))>,
) -> Seq<Seq<char>> {
    seq!["Application: "@ + name, "Manifest: "@ + path, "Manifest digest: "@ + digest, "\nServices"@]
        + services.map_values(|s: ResolvedServiceView| "  "@ + s.id + "\t"@ + s.project_dir) + (if routes.len()
        == 0 {
        Seq::empty()
    } else {
        seq!["\nRoutes"@] + routes.map_values(|r: (Seq<char>, Seq<char>)| "  "@ + r.0 + " → "@ + r.1)
    }) + (if resources.len() == 0 {
        Seq::empty()
    } else {
        seq!["\nResources"@] + resources.map_values(
            |r: (Seq<char>, (Seq<char>, Seq<char>))| "  "@ + r.0 + "\t"@ + r.1.0,
        )
    })
}

fn line4(a: &str, b: &str, c: &str, d: &str) -> (r: String)
    ensures
        r@ == a@ + b@ + c@ + d@,
{
    let mut l: Vec<char> = Vec::new();
    push_str(&mut l, a);
    push_str(&mut l, b);
    push_str(&mut l, c);
    push_str(&mut l, d);
    string_of(&l)
}

pub(crate) fn line2(a: &str, b: &str) -> (r: String)
    ensures
        r@ == a@ + b@,
{
    let mut l: Vec<char> = Vec::new();
    push_str(&mut l, a);
    push_str(&mut l, b);
    string_of(&l)
}

/// Appends one line per service: `prefix`, id, `sep`, project directory.
pub(crate) fn push_service_lines(lines: &mut Vec<String>, plan: &ApplicationPlan, prefix: &str, sep: &str)
    ensures
        texts(final(lines)@) == texts(old(lines)@) + services_view(plan.services@).map_values(
            |s: ResolvedServiceView| prefix@ + s.id + sep@ + s.project_dir,
        ),
{
    let ghost start = texts(lines@);
    let ghost want = services_view(plan.services@).map_values(
        |s: ResolvedServiceView| prefix@ + s.id + sep@ + s.project_dir,
    );
    let mut i: usize = 0;
    while i < plan.services.len()
        invariant
            i <= plan.services@.len(),
            want == services_view(plan.services@).map_values(
                |s: ResolvedServiceView| prefix@ + s.id + sep@ + s.project_dir,
            ),
            texts(lines@) =~= start + want.take(i as int),
        decreases plan.services.len() - i,
    {
        let s = &plan.services[i];
        let row = line4(prefix, s.id.as_str(), sep, s.project_dir.as_str());
        assert(services_view(plan.services@)[i as int] == s@);
        assert(want[i as int] == row@);
        let ghost before = lines@;
        lines.push(row);
        assert(texts(lines@) =~= texts(before).push(row@));
        i = i + 1;
        assert(texts(lines@) =~= start + want.take(i as int));
    }
    assert(want.take(i as int) =~= want);
}

pub fn plan_summary(plan: &ApplicationPlan) -> (lines: Vec<String>)
    ensures
        texts(lines@) == plan_summary_spec(
            plan.application_name@,
            plan.manifest.path@,
            plan.manifest.digest@,
            services_view(plan.services@),
            routes_view(plan.routes@),
            resources_view(plan.resources@),
        ),
{
    let mut lines: Vec<String> = Vec::new();
    lines.push(line2("Application: ", plan.application_name.as_str()));
    lines.push(line2("Manifest: ", plan.manifest.path.as_str()));
    lines.push(line2("Manifest digest: ", plan.manifest.digest.as_str()));
    lines.push(String::from_str("\nServices"));
    push_service_lines(&mut lines, plan, "  ", "\t");
    let ghost a = texts(lines@);
    let ghost ts = routes_view(plan.routes@);
    let ghost trows = ts.map_values(|r: (Seq<char>, Seq<char>)| "  "@ + r.0 + " → "@ + r.1);
    if plan.routes.len() > 0 {
        lines.push(String::from_str("\nRoutes"));
        let mut i: usize = 0;
        while i < plan.routes.len()
            invariant
                i <= plan.routes@.len(),
                ts == routes_view(plan.routes@),
                trows == ts.map_values(|r: (Seq<char>, Seq<char>)| "  "@ + r.0 + " → "@ + r.1),
                texts(lines@) =~= a + seq!["\nRoutes"@] + trows.take(i as int),
            decreases plan.routes.len() - i,
        {
            let r = &plan.routes[i];
            let row = line4("  ", r.path.as_str(), " → ", r.service.as_str());
            assert(ts[i as int] == r@);
            assert(trows[i as int] == row@);
            let ghost before = lines@;
            lines.push(row);
            assert(texts(lines@) =~= texts(before).push(row@));
            i = i + 1;
            assert(texts(lines@) =~= a + seq!["\nRoutes"@] + trows.take(i as int));
        }
        assert(trows.take(i as int) =~= trows);
    }
    let ghost b = texts(lines@);
    assert(b =~= a + (if ts.len() == 0 {
        Seq::<Seq<char>>::empty()
    } else {
        seq!["\nRoutes"@] + trows
    }));
    let ghost rs = resources_view(plan.resources@);
    let ghost rrows = rs.map_values(|r: (Seq<char>, (Seq<char>, Seq<char>))| "  "@ + r.0 + "\t"@ + r.1.0);
    if plan.resources.len() > 0 {
        lines.push(String::from_str("\nResources"));
        let mut i: usize = 0;
        while i < plan.resources.len()
            invariant
                i <= plan.resources@.len(),
                rs == resources_view(plan.resources@),
                rrows == rs.map_values(|r: (Seq<char>, (Seq<char>, Seq<char>))| "  "@ + r.0 + "\t"@ + r.1.0),
                texts(lines@) =~= b + seq!["\nResources"@] + rrows.take(i as int),
            decreases plan.resources.len() - i,
        {
            let r = &plan.resources[i];
            let row = line4("  ", r.id.as_str(), "\t", r.spec.kind.as_str());
            assert(rs[i as int] == r@);
            assert(rrows[i as int] == row@);
            let ghost before = lines@;
            lines.push(row);
            assert(texts(lines@) =~= texts(before).push(row@));
            i = i + 1;
            assert(texts(lines@) =~= b + seq!["\nResources"@] + rrows.take(i as int));
        }
        assert(rrows.take(i as int) =~= rrows);
    }
    assert(texts(lines@) =~= plan_summary_spec(
        plan.application_name@,
        plan.manifest.path@,
        plan.manifest.digest@,
        services_view(plan.services@),
        ts,
        rs,
    ));
    lines
}

} // verus!
