use pit_cli::commands::deploy::{
    deploy_report, guard_generation, needs_current_generation, paddock_name, rollback_report,
    service_inspect_report, undeploy_line, Acquisition, ServiceView, StageTimings,
};
use pit_cli::commands::doctor::{
    all_languages, project_report, toolchain_header, toolchain_row, ConfiguredBuild,
};
use pit_cli::commands::init::{
    best_candidate, choose_language, compatibility_lines, init_done_lines, init_hints,
    init_report, Candidate, Evidence, InitArgs,
};
use pit_cli::commands::inspect::{format_bytes, project_dir_for_manifest};
use pit_cli::commands::paddock::{
    cache_path, inspect_report, paddock_root, parse_locator, pull_report, push_report, ref_list,
    Locator,
};
use pit_cli::commands::up::{
    bundled_endpoint, check_http_world, compatibility_failure, pit_lane_args, readiness_step,
    recorded_pid, service_ready_line, stale_process_error, state_dir, up_first, up_next, Finding, Probe,
    Readiness, UpStep,
};
use pit_cli::project::Language;

fn candidate(language: Language, confidence: u32, entry: &str) -> Candidate {
    Candidate {
        language,
        confidence,
        application_interface: Some("asgi".to_string()),
        entrypoint: Some(entry.to_string()),
        framework_hint: None,
        evidence: vec![Evidence { source: "pyproject.toml".to_string(), detail: "fastapi".to_string() }],
    }
}

#[test]
fn init_language_is_given_or_the_only_one_detected() {
    assert_eq!(choose_language(Some(Language::Go), &vec![]).unwrap(), Language::Go);
    assert_eq!(choose_language(None, &vec![Language::Python]).unwrap(), Language::Python);
    assert_eq!(
        choose_language(None, &vec![]).unwrap_err().message,
        "unable to detect a language; use --language"
    );
    assert_eq!(
        choose_language(None, &vec![Language::Go, Language::Rust]).unwrap_err().message,
        "multiple languages detected; use --language"
    );
}

#[test]
fn init_follows_the_most_confident_candidate_last_on_ties() {
    let cs = vec![
        candidate(Language::Python, 5, "a:app"),
        candidate(Language::Go, 9, "b"),
        candidate(Language::Python, 5, "c:app"),
        candidate(Language::Python, 3, "d:app"),
    ];
    assert_eq!(best_candidate(&cs, Language::Python), Some(2));
    assert_eq!(best_candidate(&cs, Language::Rust), None);
    let args = InitArgs { language: None, interface: None, entry: Some("main:app".to_string()), adapter: None, dry_run: true };
    let (interface, entry) = init_hints(&args, Some(&cs[2]));
    assert_eq!(interface.as_deref(), Some("asgi"));
    assert_eq!(entry.as_deref(), Some("main:app"));
    let lines = init_report(Language::Python, Some(&cs[2]), &interface, &entry);
    assert_eq!(
        lines,
        vec![
            "Inspecting project...",
            "\nLanguage\n  python",
            "\nEvidence",
            "  ✓ pyproject.toml: fastapi",
            "\nApplication interface\n  asgi",
            "\nEntrypoint\n  main:app",
        ]
    );
    assert_eq!(init_done_lines(false)[1], "✓ Kept existing Pit Manifest");
}

fn finding(category: &str, blocks: bool) -> Finding {
    Finding {
        category: category.to_string(),
        reason: format!("{category} reason"),
        recommendation: "fix it".to_string(),
        blocks_build: blocks,
    }
}

#[test]
fn compatibility_reports() {
    let fs = vec![finding("abi", true), finding("style", false), finding("world", true)];
    assert_eq!(
        compatibility_failure("api", &fs),
        "service 'api' compatibility check failed before side effects:\n  [abi] abi reason\n  [world] world reason"
    );
    assert_eq!(
        compatibility_lines("Blocked", &fs[..2].iter().map(|f| finding(&f.category, f.blocks_build)).collect(), &vec!["ok".to_string()]),
        vec![
            "\nCompatibility\n  status: Blocked",
            "  ✗ [abi] abi reason",
            "    action: fix it",
            "  ⚠ [style] style reason",
            "    action: fix it",
        ]
    );
    assert_eq!(
        compatibility_lines("Ready", &vec![], &vec!["all good".to_string()]),
        vec!["\nCompatibility\n  status: Ready", "  ✓ all good"]
    );
}

#[test]
fn doctor_reports() {
    assert_eq!(all_languages().len(), 9);
    assert_eq!(toolchain_header(), "LANGUAGE      TOOLCHAIN                 STATUS");
    let row = toolchain_row(Language::Rust, &Err("not found".to_string()));
    assert!(row.starts_with("rust          rustc/rustup "));
    assert!(row.ends_with(" blocked: not found"));
    let ok = toolchain_row(Language::Go, &Ok(("go".to_string(), "1.22".to_string())));
    assert!(ok.starts_with("go            go 1.22 "));
    assert!(ok.ends_with(" ready"));
    let config = ConfiguredBuild { language: None, interface: None, entry: None };
    assert_eq!(
        project_report(&vec![Language::Go, Language::Rust], &config, None),
        vec![
            "PitFast Compatibility",
            "\nLanguage\n  ! multiple candidates: [Go, Rust]",
            "\nInterface\n  ? specify [build].interface or --interface",
        ]
    );
    let configured = ConfiguredBuild { language: Some("python".to_string()), interface: Some("asgi".to_string()), entry: None };
    let lines = project_report(&vec![], &configured, None);
    assert_eq!(lines[1], "\nLanguage\n  ✓ python (pit.toml)");
    assert_eq!(lines[2], "\nInterface\n  ✓ asgi (pit.toml)");
}

#[test]
fn up_reports_and_bundled_lane_decisions() {
    assert_eq!(
        service_ready_line("api", &None, false, "abc"),
        "  ✓ api          native         built    abc"
    );
    assert_eq!(
        check_http_world("api", false, "wasi:cli/run").unwrap_err().message,
        "service 'api' built as wasi:cli/run, but pit up deployment currently requires wasi:http/proxy"
    );
    assert!(check_http_world("api", true, "x").is_ok());
    assert!(bundled_endpoint(&"http://127.0.0.1:7081".to_string()));
    assert!(!bundled_endpoint(&"http://127.0.0.1:7081/".to_string()));
    assert_eq!(state_dir(&Some("/s".to_string()), &Some("/h".to_string())).unwrap(), "/s/pitfast");
    assert_eq!(state_dir(&None, &Some("/h".to_string())).unwrap(), "/h/.local/state/pitfast");
    assert_eq!(
        state_dir(&None, &None).unwrap_err().message,
        "cannot locate a user state directory for local PitLane"
    );
    assert_eq!(recorded_pid(" 1234\n"), Some(1234));
    assert_eq!(recorded_pid("4294967296"), None);
    assert_eq!(recorded_pid("abc"), None);
    assert_eq!(pit_lane_args(&None).len(), 4);
    assert_eq!(pit_lane_args(&Some("/store".to_string()))[5], "/store");
    assert_eq!(
        stale_process_error("http://e", 7, "/s").message,
        "local PitLane is unavailable at http://e, but process 7 is still recorded; inspect /s"
    );
    assert!(matches!(readiness_step(0, Probe::Reachable, "e", "l"), Readiness::Ready));
    assert!(matches!(readiness_step(5, Probe::Pending, "e", "l"), Readiness::Wait));
    match readiness_step(99, Probe::Pending, "http://e", "/l") {
        Readiness::WaitThenFail(e) => assert_eq!(e.message, "bundled PitLane did not become ready at http://e; inspect /l"),
        other => panic!("unexpected {other:?}"),
    }
    match readiness_step(3, Probe::Exited, "http://e", "/l") {
        Readiness::Failed(e) => assert_eq!(e.message, "bundled PitLane exited before becoming ready; inspect /l"),
        other => panic!("unexpected {other:?}"),
    }
}

#[test]
fn paddock_locators_roots_and_reports() {
    assert!(matches!(parse_locator("service-a:v1"), Locator::Reference(r) if r == "service-a:v1"));
    assert!(matches!(
        parse_locator("sha256:2cf24dba5fb0a30e26e83b2ac5b9e29e1b161e5c1fa7425e73043362938b9824"),
        Locator::Digest(_)
    ));
    assert_eq!(paddock_root(None, None, Some("/d".to_string()), None).unwrap(), "/d/pit/paddock");
    assert_eq!(paddock_root(None, None, None, Some("/h".to_string())).unwrap(), "/h/.local/share/pit/paddock");
    assert_eq!(paddock_root(Some("/x".to_string()), Some("/y".to_string()), None, None).unwrap(), "/x");
    assert_eq!(
        paddock_root(None, None, None, None).unwrap_err().message,
        "unable to determine Paddock root; pass --paddock-dir"
    );
    assert_eq!(cache_path("/p", "ab"), "/p/.pit/cache/sha256/ab.wasm");
    assert_eq!(push_report("hello", "sha256:ab", 10, false, "svc:v1")[7], "✓ Blob already present");
    assert_eq!(pull_report(&None, "sha256:ab", "/c")[0..2], ["Resolved:".to_string(), "→ sha256:ab".to_string()]);
    assert_eq!(ref_list(&vec![]), vec!["No Paddock refs found."]);
    assert_eq!(
        ref_list(&vec![("svc:v1".to_string(), "sha256:ab".to_string())])[1],
        "svc:v1                    sha256:ab"
    );
    assert_eq!(inspect_report("svc:v1", "sha256:ab", 5, "wasi-preview2", &None, "component")[9], "  World: none");
}

#[test]
fn inspect_helpers() {
    assert_eq!(project_dir_for_manifest("/cwd", "/p/.pit/artifact.json"), "/p");
    assert_eq!(project_dir_for_manifest("/cwd", "other.json"), "/cwd");
    assert_eq!(format_bytes(64 * 1024 * 1024), "64 MiB");
    assert_eq!(format_bytes(1000), "1000 bytes");
}

#[test]
fn deploy_reports() {
    assert!(needs_current_generation(false, None));
    assert!(!needs_current_generation(true, None));
    assert_eq!(guard_generation(None, Some(4)), Some(4));
    assert_eq!(guard_generation(Some(2), Some(4)), Some(2));
    assert_eq!(paddock_name(&None, &Some("team".to_string()), "local"), "team");
    assert_eq!(paddock_name(&None, &None, "local"), "local");
    let lines = deploy_report(
        "svc",
        &Some(Acquisition { cache_hit: false, bytes: 42 }),
        "local",
        &Some(StageTimings {
            ref_resolution_ms: 1,
            artifact_acquisition_ms: 2,
            artifact_validation_ms: 3,
            local_install_ms: 4,
            artifact_preparation_ms: 5,
            state_commit_ms: 6,
            registry_activation_ms: 7,
            total_ms: 28,
        }),
        3,
        "sha256:ab",
    );
    assert_eq!(lines[2], "✓ Artifact acquired from local");
    assert_eq!(lines[3], "  42 bytes");
    assert_eq!(lines[16], "  Total:      28 ms");
    assert_eq!(lines.last().unwrap(), "\nsvc\ngeneration 3\nsha256:ab");
    assert_eq!(
        rollback_report("sha256:ab", 5, &Some(("svc".to_string(), "sha256:ab".to_string()))),
        vec!["✓ Historical artifact sha256:ab available", "✓ Rollback activated generation 5", "svc → sha256:ab"]
    );
    assert_eq!(undeploy_line("svc", 6), "✓ Undeployed svc at generation 6");
    let view = ServiceView {
        service_id: "svc".to_string(),
        status: "Active".to_string(),
        generation: 2,
        current: None,
        artifact_local: true,
        prepared: false,
        unavailable_reason: None,
        resource_bindings: vec![],
    };
    assert_eq!(
        service_inspect_report(&view),
        vec![
            "Service\n  ID: svc\n  Status: Active\n  Generation: 2",
            "\nArtifact\n  Local: true\n  Prepared: false",
            "\nResources\n  none",
        ]
    );
}

#[test]
fn up_checks_all_builds_all_then_prepares_and_activates_once() {
    let mut steps = Vec::new();
    let mut step = up_first(2);
    while step != UpStep::Done {
        steps.push(step);
        step = up_next(2, step);
    }
    assert_eq!(
        steps,
        vec![
            UpStep::Check(0),
            UpStep::Check(1),
            UpStep::Build(0),
            UpStep::Build(1),
            UpStep::EnsureLane,
            UpStep::Prepare(0),
            UpStep::Prepare(1),
            UpStep::Activate,
        ]
    );
    assert_eq!(up_first(0), UpStep::EnsureLane);
    assert_eq!(up_next(0, UpStep::EnsureLane), UpStep::Activate);
}
