use pit_cli::manifest::{
    explicit_manifest_path, malformed, manifest_keys_in_order, manifest_present, resolve, select_manifest, DirEntry,
    ExplicitTarget, ManifestErrorKind, ManifestExecution, NamedResource, NamedService, PathStatus,
    PitManifest, PlanErrorKind, PlanFacts, ResolvedManifest, ResourceBinding, ResourceSpec, Route,
    ServiceFacts, ServiceSpec,
};

fn file(name: &str) -> DirEntry {
    DirEntry { name: name.to_string(), is_file: true }
}

fn spec(build: &str) -> ServiceSpec {
    ServiceSpec {
        build: build.to_string(),
        id: None,
        language: None,
        interface: None,
        entry: None,
        adapter: None,
        artifact: None,
        abi: None,
        world: None,
        resources: Vec::new(),
    }
}

fn manifest(schema: u32, service: Option<ServiceSpec>) -> PitManifest {
    PitManifest {
        schema,
        name: None,
        service,
        services: Vec::new(),
        resources: Vec::new(),
        routes: Vec::new(),
        execution: ManifestExecution::default(),
    }
}

#[test]
fn arbitrary_single_filename_is_selected_without_parent_search() {
    let entries = vec![file("commerce.pit"), file("Cargo.toml")];
    let path = select_manifest("/work/single", &entries, &None).unwrap();
    assert_eq!(path, "/work/single/commerce.pit");
    let err = select_manifest("/work/parent/child", &vec![], &None).unwrap_err();
    assert_eq!(err.kind, ManifestErrorKind::NoneFound);
    assert!(err.message.contains("ManifestNotFound"));
    assert_eq!(
        err.message,
        "ManifestNotFound: no *.pit manifest found in /work/parent/child; run `pit init`"
    );
}

#[test]
fn app_tie_break_and_ambiguity_are_deterministic() {
    let entries = vec![file("prod.pit"), file("dev.pit")];
    let err = select_manifest("/work/tie", &entries, &None).unwrap_err();
    assert_eq!(err.kind, ManifestErrorKind::Ambiguous);
    assert_eq!(
        err.message,
        "AmbiguousManifest: multiple Pit manifests found:\n  /work/tie/dev.pit\n  /work/tie/prod.pit\nChoose one with `pit up --file <manifest>`"
    );
    let with_app = vec![file("prod.pit"), file("dev.pit"), file("app.pit")];
    assert_eq!(select_manifest("/work/tie", &with_app, &None).unwrap(), "/work/tie/app.pit");
}

#[test]
fn directories_named_like_manifests_are_ignored() {
    let entries = vec![DirEntry { name: "old.pit".to_string(), is_file: false }, file("app.pit")];
    assert_eq!(select_manifest("/w", &entries, &None).unwrap(), "/w/app.pit");
    assert!(manifest_present(&entries));
    assert!(!manifest_present(&vec![file(".pit"), file("pit")]));
}

#[test]
fn explicit_missing_file_never_falls_back() {
    let entries = vec![file("app.pit")];
    let target = ExplicitTarget {
        path: explicit_manifest_path("/work/explicit", "missing.pit"),
        is_file: false,
    };
    let err = select_manifest("/work/explicit", &entries, &Some(target)).unwrap_err();
    assert_eq!(err.kind, ManifestErrorKind::ExplicitNotFound);
    assert!(err.message.contains("ManifestNotFound"));
}

#[test]
fn explicit_file_must_be_a_pit_file() {
    let target = ExplicitTarget { path: "/work/app.toml".to_string(), is_file: true };
    let err = select_manifest("/work", &vec![], &Some(target)).unwrap_err();
    assert_eq!(err.kind, ManifestErrorKind::NotPitFile);
    assert_eq!(err.message, "invalid Pit Manifest path /work/app.toml; expected a .pit file");
    let ok = ExplicitTarget { path: "/work/configs/customer.pit".to_string(), is_file: true };
    assert_eq!(select_manifest("/work", &vec![], &Some(ok)).unwrap(), "/work/configs/customer.pit");
}

#[test]
fn schema_and_unknown_fields_are_rejected_before_planning() {
    let err = resolve("/w/app.pit", "schema = 2\n", manifest(2, Some(spec(".")))).unwrap_err();
    assert_eq!(err.kind, ManifestErrorKind::UnsupportedSchema);
    assert!(err.message.contains("Unsupported Pit Manifest schema"));
    assert_eq!(err.message, "Unsupported Pit Manifest schema: 2\nThis PitFast version supports schema 1.");
    let decode = malformed("/w/app.pit", "unknown field `buid`");
    assert_eq!(decode.kind, ManifestErrorKind::Malformed);
    assert!(decode.message.contains("unknown field `buid`"));
}

#[test]
fn manifest_digest_is_the_sha256_of_its_text() {
    let resolved = resolve("/w/app.pit", "", manifest(1, Some(spec(".")))).unwrap();
    assert_eq!(
        resolved.digest,
        "sha256:e3b0c44298fc1c149afbf4c8996fb92427ae41e4649b934ca495991b7852b855"
    );
    assert_eq!(resolved.path, "/w/app.pit");
    assert_eq!(resolved.root, "/w");
    assert_eq!(resolved.digest.len(), 71);
}

#[test]
fn manifest_root_is_the_directory_holding_it() {
    let nested = resolve("/w/configs/customer.pit", "x", manifest(1, Some(spec("../api")))).unwrap();
    assert_eq!(nested.root, "/w/configs");
    let err = resolve("/", "x", manifest(1, Some(spec(".")))).unwrap_err();
    assert_eq!(err.kind, ManifestErrorKind::NoParent);
    assert_eq!(err.message, "Pit Manifest has no parent directory");
}

fn found(dir: &str) -> ServiceFacts {
    ServiceFacts {
        id_valid: true,
        project_dir: PathStatus::Found(dir.to_string()),
        artifact: PathStatus::Missing,
    }
}

fn resolved(m: PitManifest) -> ResolvedManifest {
    resolve("/w/configs/customer.pit", "x", m).unwrap()
}

#[test]
fn service_paths_are_relative_to_manifest_directory() {
    let rm = resolved(manifest(1, Some(spec("../api"))));
    let targets = rm.probe_targets();
    assert_eq!(targets[0].build_dir, "/w/configs/../api");
    let facts = PlanFacts {
        services: vec![found("/w/api")],
        resource_ids_valid: vec![],
        route_targets_valid: vec![],
    };
    let plan = rm.plan(&facts).unwrap();
    assert_eq!(plan.services[0].project_dir, "/w/api");
    assert_eq!(plan.services[0].id, "app");
    assert_eq!(plan.application_name, "configs");
}

#[test]
fn resource_and_route_references_are_validated_in_the_plan() {
    let mut api = spec("api");
    api.resources.push(ResourceBinding { variable: "database".to_string(), resource: "db".to_string() });
    let mut m = manifest(1, None);
    m.name = Some("shop".to_string());
    m.services.push(NamedService { id: "api".to_string(), spec: api });
    m.resources.push(NamedResource {
        id: "db".to_string(),
        spec: ResourceSpec { kind: "postgres".to_string(), source: "DATABASE_URL".to_string() },
    });
    m.routes.push(Route { path: "/api".to_string(), service: "api".to_string() });
    let facts = PlanFacts {
        services: vec![found("/w/api")],
        resource_ids_valid: vec![true],
        route_targets_valid: vec![true],
    };
    let plan = resolved(m).plan(&facts).unwrap();
    assert_eq!(plan.application_name, "shop");
    assert_eq!(plan.resources[0].spec.kind, "postgres");
    assert_eq!(plan.routes[0].path, "/api");
    assert_eq!(plan.routes[0].service, "api");

    let mut single = spec("api");
    single.resources.push(ResourceBinding {
        variable: "database".to_string(),
        resource: "missing".to_string(),
    });
    let facts = PlanFacts {
        services: vec![found("/w/api")],
        resource_ids_valid: vec![],
        route_targets_valid: vec![],
    };
    let err = resolved(manifest(1, Some(single))).plan(&facts).unwrap_err();
    assert_eq!(err.kind, PlanErrorKind::UnknownResource);
    assert!(err.message.contains("unknown resource 'missing'"));
}

#[test]
fn plan_refuses_both_service_forms_and_none() {
    let mut both = manifest(1, Some(spec(".")));
    both.services.push(NamedService { id: "api".to_string(), spec: spec("api") });
    let facts = PlanFacts { services: vec![found("/w")], resource_ids_valid: vec![], route_targets_valid: vec![] };
    let err = resolved(both).plan(&facts).unwrap_err();
    assert_eq!(err.kind, PlanErrorKind::BothServiceForms);
    assert_eq!(err.message, "Pit Manifest cannot define both [service] and [services.*]");
    let none = PlanFacts { services: vec![], resource_ids_valid: vec![], route_targets_valid: vec![] };
    let err = resolved(manifest(1, None)).plan(&none).unwrap_err();
    assert_eq!(err.kind, PlanErrorKind::NoServices);
}

#[test]
fn plan_reports_missing_build_directories_and_bad_routes() {
    let facts = PlanFacts {
        services: vec![ServiceFacts {
            id_valid: true,
            project_dir: PathStatus::Missing,
            artifact: PathStatus::Missing,
        }],
        resource_ids_valid: vec![],
        route_targets_valid: vec![],
    };
    let err = resolved(manifest(1, Some(spec("api")))).plan(&facts).unwrap_err();
    assert_eq!(err.kind, PlanErrorKind::BuildDirectoryMissing);
    assert_eq!(err.message, "service 'app' build directory does not exist: /w/configs/api");

    let mut m = manifest(1, Some(spec(".")));
    m.routes.push(Route { path: "api".to_string(), service: "app".to_string() });
    let facts = PlanFacts { services: vec![found("/w")], resource_ids_valid: vec![], route_targets_valid: vec![true] };
    let err = resolved(m).plan(&facts).unwrap_err();
    assert_eq!(err.kind, PlanErrorKind::InvalidRoutePath);
    assert_eq!(err.message, "invalid route path 'api'; routes must begin with '/'");
}

#[test]
fn manifest_key_order_is_checked() {
    let mut m = manifest(1, None);
    m.services.push(NamedService { id: "api".to_string(), spec: spec("api") });
    m.services.push(NamedService { id: "web".to_string(), spec: spec("web") });
    assert!(manifest_keys_in_order(&m));
    m.services.push(NamedService { id: "auth".to_string(), spec: spec("auth") });
    assert!(!manifest_keys_in_order(&m));
    let mut dup = manifest(1, None);
    dup.routes.push(Route { path: "/a".to_string(), service: "api".to_string() });
    dup.routes.push(Route { path: "/a".to_string(), service: "web".to_string() });
    assert!(!manifest_keys_in_order(&dup));
}
