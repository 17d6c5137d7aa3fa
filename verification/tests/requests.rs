use pit_cli::commands::call::{call_request, needs_newline, parse_header, CallArgs, CallError};
use pit_cli::commands::route::{
    inferred_service, route_request, AbArgs, CommonArgs, ListArgs, ReleaseArgs, RoutePolicy,
    RouteCommand, RouteRequest, ShadowArgs,
};

fn common(path: &str, service: Option<&str>) -> CommonArgs {
    CommonArgs {
        application: "shop".to_string(),
        path: path.to_string(),
        service: service.map(|s| s.to_string()),
        host: None,
        control_endpoint: "http://127.0.0.1:7081/".to_string(),
    }
}

#[test]
fn route_service_is_inferred_from_the_first_path_segment() {
    assert_eq!(inferred_service(&common("/web/api/", None)), "web");
    assert_eq!(inferred_service(&common("//orders", None)), "orders");
    assert_eq!(inferred_service(&common("/", None)), "");
    assert_eq!(inferred_service(&common("/web", Some("front"))), "front");
}

#[test]
fn stable_route_posts_a_policy() {
    let cmd = RouteCommand::Stable(ReleaseArgs { common: common("/api", None), release: "r1".to_string() });
    match route_request(&cmd).unwrap() {
        RouteRequest::Policy { url, body } => {
            assert_eq!(url, "http://127.0.0.1:7081/v1/routing/policy");
            assert_eq!(body.service_id, "api");
            assert_eq!(body.stable_release, "r1");
            assert!(body.candidate_release.is_none());
            assert!(matches!(body.policy, RoutePolicy::Stable));
        }
        other => panic!("unexpected {other:?}"),
    }
}

#[test]
fn empty_stable_release_is_refused() {
    let cmd = RouteCommand::Stable(ReleaseArgs { common: common("/api", None), release: String::new() });
    assert_eq!(route_request(&cmd).unwrap_err().message, "stable release is required");
}

#[test]
fn ab_route_names_both_releases() {
    let cmd = RouteCommand::Ab(AbArgs {
        common: common("/api", None),
        a: "ra".to_string(),
        b: "rb".to_string(),
        a_weight: 70,
        b_weight: 30,
        key_header: "X-Pit-User".to_string(),
        experiment_id: "exp".to_string(),
    });
    match route_request(&cmd).unwrap() {
        RouteRequest::Policy { body, .. } => {
            assert_eq!(body.stable_release, "ra");
            assert_eq!(body.candidate_release.as_deref(), Some("rb"));
            assert_eq!(body.a_release.as_deref(), Some("ra"));
            assert_eq!(body.b_release.as_deref(), Some("rb"));
            match body.policy {
                RoutePolicy::Deterministic { a_weight, b_weight, key_header, experiment_id } => {
                    assert_eq!((a_weight, b_weight), (70, 30));
                    assert_eq!(key_header, "X-Pit-User");
                    assert_eq!(experiment_id, "exp");
                }
                other => panic!("unexpected {other:?}"),
            }
        }
        other => panic!("unexpected {other:?}"),
    }
}

#[test]
fn shadow_route_shadows_the_candidate() {
    let cmd = RouteCommand::Shadow(ShadowArgs {
        common: common("/api", Some("orders")),
        stable: "s".to_string(),
        candidate: "c".to_string(),
    });
    match route_request(&cmd).unwrap() {
        RouteRequest::Policy { body, .. } => {
            assert_eq!(body.service_id, "orders");
            assert_eq!(body.shadow.as_deref(), Some("c"));
            assert!(matches!(body.policy, RoutePolicy::Shadow));
        }
        other => panic!("unexpected {other:?}"),
    }
}

#[test]
fn list_and_clear_routes() {
    let list = RouteCommand::List(ListArgs { control_endpoint: "http://h:1".to_string() });
    match route_request(&list).unwrap() {
        RouteRequest::Snapshot { url } => assert_eq!(url, "http://h:1/v1/routing/snapshot"),
        other => panic!("unexpected {other:?}"),
    }
    let clear = RouteCommand::Clear(common("/api", None));
    match route_request(&clear).unwrap() {
        RouteRequest::Clear { url, application_id, path, host } => {
            assert_eq!(url, "http://127.0.0.1:7081/v1/routing/clear");
            assert_eq!(application_id, "shop");
            assert_eq!(path, "/api");
            assert!(host.is_none());
        }
        other => panic!("unexpected {other:?}"),
    }
}

fn call(method: &str, headers: &[&str], endpoint: Option<&str>) -> CallArgs {
    CallArgs {
        method: method.to_string(),
        headers: headers.iter().map(|h| h.to_string()).collect(),
        body: Some("hi".to_string()),
        endpoint: endpoint.map(|e| e.to_string()),
        uri: "pit://service-a/hello".to_string(),
    }
}

#[test]
fn headers_split_at_the_first_colon_and_trim() {
    assert_eq!(
        parse_header(" X-Id :  a:b "),
        Some(("X-Id".to_string(), "a:b".to_string()))
    );
    assert_eq!(parse_header("no-colon"), None);
}

#[test]
fn call_request_uses_argument_then_environment_then_default() {
    let q = call_request(&call("POST", &["X-A: 1"], None), &None, "service-a", "/hello?x=1").unwrap();
    assert_eq!(q.url, "http://127.0.0.1:7080/hello?x=1");
    assert_eq!(q.method, "POST");
    assert_eq!(q.service, "service-a");
    assert_eq!(q.headers, vec![("X-A".to_string(), "1".to_string())]);
    assert_eq!(q.body.as_deref(), Some("hi"));
    let env = Some("http://lane:9/".to_string());
    let q = call_request(&call("GET", &[], None), &env, "s", "/p").unwrap();
    assert_eq!(q.url, "http://lane:9/p");
    let q = call_request(&call("GET", &[], Some("http://given")), &env, "s", "/p").unwrap();
    assert_eq!(q.url, "http://given/p");
}

#[test]
fn call_request_refuses_bad_methods_then_bad_headers() {
    let err = call_request(&call("GE T", &["bad"], None), &None, "s", "/").unwrap_err();
    assert_eq!(err, CallError::InvalidMethod);
    assert_eq!(err.message(), "invalid HTTP method");
    let err = call_request(&call("", &[], None), &None, "s", "/").unwrap_err();
    assert_eq!(err, CallError::InvalidMethod);
    let err = call_request(&call("GET", &["A: 1", "bad"], None), &None, "s", "/").unwrap_err();
    assert_eq!(err, CallError::HeaderFormat);
    assert_eq!(err.message(), "header must use NAME: VALUE");
}

#[test]
fn reply_newline() {
    assert!(needs_newline(&b"ok".to_vec()));
    assert!(!needs_newline(&b"ok\n".to_vec()));
    assert!(needs_newline(&Vec::new()));
}
