//! `pit route`: the routing request each subcommand sends to PitLane's
//! control endpoint. Sending it and printing the reply is the caller's.

use vstd::prelude::*;
use vstd::string::StringExecFns;

use crate::manifest::{copy_opt_text, copy_text, opt_view};
use crate::paths::{endpoint_url, endpoint_url_spec};
use crate::text::{chars_of, string_of};

verus! {

#[derive(Debug)]
pub struct CommonArgs {
    pub application: String,
    pub path: String,
    pub service: Option<String>,
    pub host: Option<String>,
    pub control_endpoint: String,
}

#[derive(Debug)]
pub struct ListArgs {
    pub control_endpoint: String,
}

#[derive(Debug)]
pub struct ReleaseArgs {
    pub common: CommonArgs,
    pub release: String,
}

#[derive(Debug)]
pub struct BlueGreenArgs {
    pub common: CommonArgs,
    pub stable: String,
    pub candidate: String,
    pub active: String,
}

#[derive(Debug)]
pub struct CanaryArgs {
    pub common: CommonArgs,
    pub stable: String,
    pub candidate: String,
    pub stable_weight: u8,
    pub candidate_weight: u8,
}

#[derive(Debug)]
pub struct AbArgs {
    pub common: CommonArgs,
    pub a: String,
    pub b: String,
    pub a_weight: u8,
    pub b_weight: u8,
    pub key_header: String,
    pub experiment_id: String,
}

#[derive(Debug)]
pub struct HeaderArgs {
    pub common: CommonArgs,
    pub stable: String,
    pub candidate: String,
    pub header: String,
}

#[derive(Debug)]
pub struct ShadowArgs {
    pub common: CommonArgs,
    pub stable: String,
    pub candidate: String,
}

#[derive(Debug)]
pub enum RouteCommand {
    /// Show the persisted immutable route snapshot.
    List(ListArgs),
    /// Route all traffic to one stable ApplicationRelease.
    Stable(ReleaseArgs),
    /// Switch atomically between stable and candidate releases.
    BlueGreen(BlueGreenArgs),
    /// Set weighted stable/candidate canary traffic.
    Canary(CanaryArgs),
    /// Set deterministic A/B traffic using a stable header key.
    Ab(AbArgs),
    /// Select candidate only when an explicit header says candidate.
    Header(HeaderArgs),
    /// Run safe GET/HEAD shadow traffic to a candidate release.
    Shadow(ShadowArgs),
    /// Remove a custom policy and return this route to active-release routing.
    Clear(CommonArgs),
}

/// `s` without its leading `/` characters.
pub open spec fn trim_start_slashes(s: Seq<char>) -> Seq<char>
    decreases s.len(),
{
    if s.len() > 0 && s[0] == '/' {
        trim_start_slashes(s.drop_first())
    } else {
        s
    }
}

/// The text of `s` before its first `/` (all of `s` when it holds none).
pub open spec fn first_segment(s: Seq<char>) -> Seq<char>
    decreases s.len(),
{
    if s.len() == 0 || s[0] == '/' {
        Seq::empty()
    } else {
        seq![s[0]] + first_segment(s.drop_first())
    }
}

/// The service a route is for: the one given, else the first segment of the
/// path with its surrounding `/` trimmed (`/web/api/` is for `web`).
pub open spec fn inferred_service_spec(service: Option<Seq<char>>, path: Seq<char>) -> Seq<char> {
    match service {
        Some(s) => s,
        None => first_segment(crate::paths::trim_end_slashes(trim_start_slashes(path))),
    }
}

proof fn lemma_first_segment_drop_slash(s: Seq<char>)
    requires
        s.len() > 0,
        s.last() == '/',
    ensures
        first_segment(s.drop_last()) == first_segment(s),
    decreases s.len(),
{
    if s.len() == 1 || s[0] == '/' {
    } else {
        let t = s.drop_first();
        lemma_first_segment_drop_slash(t);
        assert(s.drop_last().drop_first() =~= t.drop_last());
    }
}

proof fn lemma_first_segment_trim_end(s: Seq<char>)
    ensures
        first_segment(crate::paths::trim_end_slashes(s)) == first_segment(s),
    decreases s.len(),
{
    if s.len() > 0 && s.last() == '/' {
        lemma_first_segment_trim_end(s.drop_last());
        lemma_first_segment_drop_slash(s);
    }
}

pub fn inferred_service(common: &CommonArgs) -> (r: String)
    ensures
        r@ == inferred_service_spec(opt_view(common.service), common.path@),
{
    match &common.service {
        Some(s) => copy_text(s),
        None => {
            let c = chars_of(common.path.as_str());
            let mut i: usize = 0;
            assert(c@.skip(0) =~= c@);
            while i < c.len() && c[i] == '/'
                invariant
                    i <= c@.len(),
                    trim_start_slashes(c@.skip(i as int)) == trim_start_slashes(c@),
                decreases c.len() - i,
            {
                assert(c@.skip(i as int).drop_first() =~= c@.skip(i + 1));
                i = i + 1;
            }
            let ghost rest = c@.skip(i as int);
            assert(trim_start_slashes(rest) == rest);
            let mut out: Vec<char> = Vec::new();
            let mut j: usize = i;
            while j < c.len() && c[j] != '/'
                invariant
                    i <= j <= c@.len(),
                    rest == c@.skip(i as int),
                    first_segment(rest) == out@ + first_segment(c@.skip(j as int)),
                decreases c.len() - j,
            {
                let ghost tail = c@.skip(j as int);
                assert(tail.drop_first() =~= c@.skip(j + 1));
                out.push(c[j]);
                j = j + 1;
                assert(first_segment(rest) =~= out@ + first_segment(c@.skip(j as int)));
            }
            proof {
                assert(first_segment(c@.skip(j as int)) =~= Seq::<char>::empty());
                assert(out@ =~= first_segment(rest));
                lemma_first_segment_trim_end(rest);
            }
            string_of(&out)
        },
    }
}

/// The routing policy a request asks PitLane to apply.
#[derive(Debug)]
pub enum RoutePolicy {
    Stable,
    BlueGreen { active: String },
    Weighted { stable_weight: u8, candidate_weight: u8 },
    Deterministic { a_weight: u8, b_weight: u8, key_header: String, experiment_id: String },
    HeaderOverride { header: String },
    Shadow,
}

pub enum RoutePolicyView {
    Stable,
    BlueGreen { active: Seq<char> },
    Weighted { stable_weight: u8, candidate_weight: u8 },
    Deterministic { a_weight: u8, b_weight: u8, key_header: Seq<char>, experiment_id: Seq<char> },
    HeaderOverride { header: Seq<char> },
    Shadow,
}

impl View for RoutePolicy {
    type V = RoutePolicyView;

    open spec fn view(&self) -> RoutePolicyView {
        match self {
            RoutePolicy::Stable => RoutePolicyView::Stable,
            RoutePolicy::BlueGreen { active } => RoutePolicyView::BlueGreen { active: active@ },
            RoutePolicy::Weighted { stable_weight, candidate_weight } => RoutePolicyView::Weighted {
                stable_weight: *stable_weight,
                candidate_weight: *candidate_weight,
            },
            RoutePolicy::Deterministic { a_weight, b_weight, key_header, experiment_id } =>
                RoutePolicyView::Deterministic {
                a_weight: *a_weight,
                b_weight: *b_weight,
                key_header: key_header@,
                experiment_id: experiment_id@,
            },
            RoutePolicy::HeaderOverride { header } => RoutePolicyView::HeaderOverride { header: header@ },
            RoutePolicy::Shadow => RoutePolicyView::Shadow,
        }
    }
}

/// The body of a policy request: the route, the releases it names and the
/// policy. Releases a policy does not name are absent.
#[derive(Debug)]
pub struct PolicyRequest {
    pub host: Option<String>,
    pub path: String,
    pub application_id: String,
    pub service_id: String,
    pub stable_release: String,
    pub candidate_release: Option<String>,
    pub a_release: Option<String>,
    pub b_release: Option<String>,
    pub policy: RoutePolicy,
    pub shadow: Option<String>,
}

pub struct PolicyRequestView {
    pub host: Option<Seq<char>>,
    pub path: Seq<char>,
    pub application_id: Seq<char>,
    pub service_id: Seq<char>,
    pub stable_release: Seq<char>,
    pub candidate_release: Option<Seq<char>>,
    pub a_release: Option<Seq<char>>,
    pub b_release: Option<Seq<char>>,
    pub policy: RoutePolicyView,
    pub shadow: Option<Seq<char>>,
}

impl View for PolicyRequest {
    type V = PolicyRequestView;

    open spec fn view(&self) -> PolicyRequestView {
        PolicyRequestView {
            host: opt_view(self.host),
            path: self.path@,
            application_id: self.application_id@,
            service_id: self.service_id@,
            stable_release: self.stable_release@,
            candidate_release: opt_view(self.candidate_release),
            a_release: opt_view(self.a_release),
            b_release: opt_view(self.b_release),
            policy: self.policy@,
            shadow: opt_view(self.shadow),
        }
    }
}

/// What a route subcommand sends: a read of the route snapshot, a clear of
/// one route, or a policy, each with the URL it goes to.
#[derive(Debug)]
pub enum RouteRequest {
    Snapshot { url: String },
    Clear { url: String, application_id: String, host: Option<String>, path: String },
    Policy { url: String, body: PolicyRequest },
}

pub enum RouteRequestView {
    Snapshot { url: Seq<char> },
    Clear { url: Seq<char>, application_id: Seq<char>, host: Option<Seq<char>>, path: Seq<char> },
    Policy { url: Seq<char>, body: PolicyRequestView },
}

impl View for RouteRequest {
    type V = RouteRequestView;

    open spec fn view(&self) -> RouteRequestView {
        match self {
            RouteRequest::Snapshot { url } => RouteRequestView::Snapshot { url: url@ },
            RouteRequest::Clear { url, application_id, host, path } => RouteRequestView::Clear {
                url: url@,
                application_id: application_id@,
                host: opt_view(*host),
                path: path@,
            },
            RouteRequest::Policy { url, body } => RouteRequestView::Policy { url: url@, body: body@ },
        }
    }
}

/// A policy body for the route of `common` with the given releases.
pub open spec fn policy_body(
    common: CommonArgs,
    stable: Seq<char>,
    candidate: Option<Seq<char>>,
    a: Option<Seq<char>>,
    b: Option<Seq<char>>,
    policy: RoutePolicyView,
    shadow: Option<Seq<char>>,
) -> PolicyRequestView {
    PolicyRequestView {
        host: opt_view(common.host),
        path: common.path@,
        application_id: common.application@,
        service_id: inferred_service_spec(opt_view(common.service), common.path@),
        stable_release: stable,
        candidate_release: candidate,
        a_release: a,
        b_release: b,
        policy,
        shadow,
    }
}

pub open spec fn policy_url(common: CommonArgs) -> Seq<char> {
    endpoint_url_spec(common.control_endpoint@, "/v1/routing/policy"@)
}

/// The request each subcommand stands for.
pub open spec fn route_request_spec(command: RouteCommand) -> RouteRequestView {
    match command {
        RouteCommand::List(a) => RouteRequestView::Snapshot {
            url: endpoint_url_spec(a.control_endpoint@, "/v1/routing/snapshot"@),
        },
        RouteCommand::Clear(c) => RouteRequestView::Clear {
            url: endpoint_url_spec(c.control_endpoint@, "/v1/routing/clear"@),
            application_id: c.application@,
            host: opt_view(c.host),
            path: c.path@,
        },
        RouteCommand::Stable(a) => RouteRequestView::Policy {
            url: policy_url(a.common),
            body: policy_body(a.common, a.release@, None, None, None, RoutePolicyView::Stable, None),
        },
        RouteCommand::BlueGreen(a) => RouteRequestView::Policy {
            url: policy_url(a.common),
            body: policy_body(
                a.common,
                a.stable@,
                Some(a.candidate@),
                None,
                None,
                RoutePolicyView::BlueGreen { active: a.active@ },
                None,
            ),
        },
        RouteCommand::Canary(a) => RouteRequestView::Policy {
            url: policy_url(a.common),
            body: policy_body(
                a.common,
                a.stable@,
                Some(a.candidate@),
                None,
                None,
                RoutePolicyView::Weighted {
                    stable_weight: a.stable_weight,
                    candidate_weight: a.candidate_weight,
                },
                None,
            ),
        },
        RouteCommand::Ab(a) => RouteRequestView::Policy {
            url: policy_url(a.common),
            body: policy_body(
                a.common,
                a.a@,
                Some(a.b@),
                Some(a.a@),
                Some(a.b@),
                RoutePolicyView::Deterministic {
                    a_weight: a.a_weight,
                    b_weight: a.b_weight,
                    key_header: a.key_header@,
                    experiment_id: a.experiment_id@,
                },
                None,
            ),
        },
        RouteCommand::Header(a) => RouteRequestView::Policy {
            url: policy_url(a.common),
            body: policy_body(
                a.common,
                a.stable@,
                Some(a.candidate@),
                None,
                None,
                RoutePolicyView::HeaderOverride { header: a.header@ },
                None,
            ),
        },
        RouteCommand::Shadow(a) => RouteRequestView::Policy {
            url: policy_url(a.common),
            body: policy_body(
                a.common,
                a.stable@,
                Some(a.candidate@),
                None,
                None,
                RoutePolicyView::Shadow,
                Some(a.candidate@),
            ),
        },
    }
}

/// A policy is refused when its stable release is empty.
pub open spec fn route_refused(command: RouteCommand) -> bool {
    route_request_spec(command) matches RouteRequestView::Policy { body, .. }
        && body.stable_release.len() == 0
}

/// A routing request that cannot be sent.
#[derive(Debug)]
pub struct RouteError {
    pub message: String,
}

fn policy_request(
    common: &CommonArgs,
    stable: &String,
    candidate: Option<String>,
    a: Option<String>,
    b: Option<String>,
    policy: RoutePolicy,
    shadow: Option<String>,
) -> (r: Result<RouteRequest, RouteError>)
    ensures
        match r {
            Ok(q) => stable@.len() > 0 && q@ == (RouteRequestView::Policy {
                url: policy_url(*common),
                body: policy_body(*common, stable@, opt_view(candidate), opt_view(a), opt_view(b), policy@, opt_view(shadow)),
            }),
            Err(e) => stable@.len() == 0 && e.message@ == "stable release is required"@,
        },
{
    if stable.as_str().unicode_len() == 0 {
        return Err(RouteError { message: String::from_str("stable release is required") });
    }
    let body = PolicyRequest {
        host: copy_opt_text(&common.host),
        path: copy_text(&common.path),
        application_id: copy_text(&common.application),
        service_id: inferred_service(common),
        stable_release: copy_text(stable),
        candidate_release: candidate,
        a_release: a,
        b_release: b,
        policy,
        shadow,
    };
    Ok(RouteRequest::Policy { url: endpoint_url(common.control_endpoint.as_str(), "/v1/routing/policy"), body })
}

/// The request a route subcommand sends; a policy without a stable release
/// is refused.
pub fn route_request(command: &RouteCommand) -> (r: Result<RouteRequest, RouteError>)
    ensures
        match r {
            Ok(q) => !route_refused(*command) && q@ == route_request_spec(*command),
            Err(e) => route_refused(*command) && e.message@ == "stable release is required"@,
        },
{
    match command {
        RouteCommand::List(a) => Ok(RouteRequest::Snapshot {
            url: endpoint_url(a.control_endpoint.as_str(), "/v1/routing/snapshot"),
        }),
        RouteCommand::Clear(c) => Ok(RouteRequest::Clear {
            url: endpoint_url(c.control_endpoint.as_str(), "/v1/routing/clear"),
            application_id: copy_text(&c.application),
            host: copy_opt_text(&c.host),
            path: copy_text(&c.path),
        }),
        RouteCommand::Stable(a) => policy_request(&a.common, &a.release, None, None, None, RoutePolicy::Stable, None),
        RouteCommand::BlueGreen(a) => policy_request(
            &a.common,
            &a.stable,
            Some(copy_text(&a.candidate)),
            None,
            None,
            RoutePolicy::BlueGreen { active: copy_text(&a.active) },
            None,
        ),
        RouteCommand::Canary(a) => policy_request(
            &a.common,
            &a.stable,
            Some(copy_text(&a.candidate)),
            None,
            None,
            RoutePolicy::Weighted { stable_weight: a.stable_weight, candidate_weight: a.candidate_weight },
            None,
        ),
        RouteCommand::Ab(a) => policy_request(
            &a.common,
            &a.a,
            Some(copy_text(&a.b)),
            Some(copy_text(&a.a)),
            Some(copy_text(&a.b)),
            RoutePolicy::Deterministic {
                a_weight: a.a_weight,
                b_weight: a.b_weight,
                key_header: copy_text(&a.key_header),
                experiment_id: copy_text(&a.experiment_id),
            },
            None,
        ),
        RouteCommand::Header(a) => policy_request(
            &a.common,
            &a.stable,
            Some(copy_text(&a.candidate)),
            None,
            None,
            RoutePolicy::HeaderOverride { header: copy_text(&a.header) },
            None,
        ),
        RouteCommand::Shadow(a) => policy_request(
            &a.common,
            &a.stable,
            Some(copy_text(&a.candidate)),
            None,
            None,
            RoutePolicy::Shadow,
            Some(copy_text(&a.candidate)),
        ),
    }
}


proof fn lemma_first_segment_has_no_slash(s: Seq<char>)
    ensures
        !first_segment(s).contains('/'),
        first_segment(s).len() <= s.len(),
        first_segment(s) == s.subrange(0, first_segment(s).len() as int),
        first_segment(s).len() == s.len() || s[first_segment(s).len() as int] == '/',
    decreases s.len(),
{
    if s.len() == 0 || s[0] == '/' {
        assert(first_segment(s) =~= s.subrange(0, 0));
    } else {
        lemma_first_segment_has_no_slash(s.drop_first());
        let r = first_segment(s.drop_first());
        assert(first_segment(s) == seq![s[0]] + r);
        assert(s.drop_first().subrange(0, r.len() as int) =~= s.subrange(1, r.len() as int + 1));
        assert((seq![s[0]] + r) =~= s.subrange(0, r.len() as int + 1));
        if first_segment(s).contains('/') {
            let k = choose|k: int| 0 <= k < first_segment(s).len() && first_segment(s)[k] == '/';
            assert(k > 0);
            assert(r[k - 1] == '/');
        }
    }
}

proof fn lemma_trim_start_slashes(s: Seq<char>)
    ensures
        trim_start_slashes(s).len() == 0 || trim_start_slashes(s)[0] != '/',
        trim_start_slashes(s).len() <= s.len(),
        trim_start_slashes(s) == s.subrange(s.len() - trim_start_slashes(s).len(), s.len() as int),
        forall|i: int| 0 <= i < s.len() - trim_start_slashes(s).len() ==> s[i] == '/',
    decreases s.len(),
{
    if s.len() > 0 && s[0] == '/' {
        lemma_trim_start_slashes(s.drop_first());
        let t = trim_start_slashes(s.drop_first());
        assert(s.drop_first().subrange(s.len() - 1 - t.len(), s.len() - 1) =~= s.subrange(
            s.len() - t.len(),
            s.len() as int,
        ));
        assert forall|i: int| 0 <= i < s.len() - t.len() implies s[i] == '/' by {
            if i > 0 {
                assert(s[i] == s.drop_first()[i - 1]);
            }
        }
    } else {
        assert(s.subrange(0, s.len() as int) =~= s);
    }
}

/// Without `--service`, a route is for the first segment of its path: the
/// path is some `/` characters, then the service (which holds no `/`), then
/// either nothing or a `/`. With `--service`, it is for that service.
pub proof fn law_inferred_service_is_a_segment(path: Seq<char>)
    ensures
        !inferred_service_spec(None, path).contains('/'),
        trim_start_slashes(path).subrange(0, inferred_service_spec(None, path).len() as int)
            == inferred_service_spec(None, path),
        trim_start_slashes(path).len() == 0 || trim_start_slashes(path)[0] != '/',
        forall|i: int| 0 <= i < path.len() - trim_start_slashes(path).len() ==> path[i] == '/',
        trim_start_slashes(path) == path.subrange(path.len() - trim_start_slashes(path).len(), path.len() as int),
        inferred_service_spec(None, path).len() == trim_start_slashes(path).len()
            || trim_start_slashes(path)[inferred_service_spec(None, path).len() as int] == '/',
        forall|s: Seq<char>| inferred_service_spec(Some(s), path) == s,
{
    let t = trim_start_slashes(path);
    lemma_trim_start_slashes(path);
    lemma_first_segment_trim_end(t);
    lemma_first_segment_has_no_slash(t);
}

/// `req` is a policy request to `/v1/routing/policy` at the command's
/// control endpoint, for its application, host and path, carrying these
/// releases and this policy.
pub open spec fn policy_sent(
    req: RouteRequestView,
    common: CommonArgs,
    stable: Seq<char>,
    candidate: Option<Seq<char>>,
    a: Option<Seq<char>>,
    b: Option<Seq<char>>,
    shadow: Option<Seq<char>>,
    policy: RoutePolicyView,
) -> bool {
    &&& req is Policy
    &&& req->Policy_url == endpoint_url_spec(common.control_endpoint@, "/v1/routing/policy"@)
    &&& req->Policy_body.application_id == common.application@
    &&& req->Policy_body.host == opt_view(common.host)
    &&& req->Policy_body.path == common.path@
    &&& req->Policy_body.stable_release == stable
    &&& req->Policy_body.candidate_release == candidate
    &&& req->Policy_body.a_release == a
    &&& req->Policy_body.b_release == b
    &&& req->Policy_body.shadow == shadow
    &&& req->Policy_body.policy == policy
    &&& (common.service is Some ==> req->Policy_body.service_id == common.service->0@)
}

pub open spec fn weighted(stable_weight: u8, candidate_weight: u8) -> RoutePolicyView {
    RoutePolicyView::Weighted { stable_weight, candidate_weight }
}

pub open spec fn deterministic(a_weight: u8, b_weight: u8, key_header: Seq<char>, experiment_id: Seq<char>) -> RoutePolicyView {
    RoutePolicyView::Deterministic { a_weight, b_weight, key_header, experiment_id }
}

/// Each routing command sends what it was given: the releases in their
/// roles and the policy's own figures, each where the command put it (the
/// canary's stable weight as the stable weight, the A/B's `a` weight as the
/// `a` weight); a policy is refused exactly when its stable release is
/// empty.
pub proof fn law_route_requests_carry_arguments(command: RouteCommand)
    ensures
        command matches RouteCommand::List(a) ==> (route_request_spec(command) is Snapshot
            && route_request_spec(command)->Snapshot_url == endpoint_url_spec(a.control_endpoint@, "/v1/routing/snapshot"@)),
        command matches RouteCommand::Clear(c) ==> (route_request_spec(command) is Clear
            && route_request_spec(command)->Clear_url == endpoint_url_spec(c.control_endpoint@, "/v1/routing/clear"@)
            && route_request_spec(command)->Clear_application_id == c.application@
            && route_request_spec(command)->Clear_host == opt_view(c.host)
            && route_request_spec(command)->Clear_path == c.path@),
        command matches RouteCommand::Stable(a) ==> policy_sent(route_request_spec(command), a.common, a.release@, None,
            None, None, None, RoutePolicyView::Stable),
        command matches RouteCommand::BlueGreen(a) ==> policy_sent(route_request_spec(command), a.common, a.stable@,
            Some(a.candidate@), None, None, None, RoutePolicyView::BlueGreen { active: a.active@ }),
        command matches RouteCommand::Canary(a) ==> policy_sent(route_request_spec(command), a.common, a.stable@,
            Some(a.candidate@), None, None, None, weighted(a.stable_weight, a.candidate_weight)),
        command matches RouteCommand::Ab(a) ==> policy_sent(route_request_spec(command), a.common, a.a@, Some(a.b@),
            Some(a.a@), Some(a.b@), None, deterministic(a.a_weight, a.b_weight, a.key_header@, a.experiment_id@)),
        command matches RouteCommand::Header(a) ==> policy_sent(route_request_spec(command), a.common, a.stable@,
            Some(a.candidate@), None, None, None, RoutePolicyView::HeaderOverride { header: a.header@ }),
        command matches RouteCommand::Shadow(a) ==> policy_sent(route_request_spec(command), a.common, a.stable@,
            Some(a.candidate@), None, None, Some(a.candidate@), RoutePolicyView::Shadow),
        route_refused(command) <==> match command {
            RouteCommand::Stable(a) => a.release@.len() == 0,
            RouteCommand::BlueGreen(a) => a.stable@.len() == 0,
            RouteCommand::Canary(a) => a.stable@.len() == 0,
            RouteCommand::Ab(a) => a.a@.len() == 0,
            RouteCommand::Header(a) => a.stable@.len() == 0,
            RouteCommand::Shadow(a) => a.stable@.len() == 0,
            _ => false,
        },
{
}
} // verus!
