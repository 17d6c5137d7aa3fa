use pit_cli::commands::web::{
    warn_cleanup, web_files, web_up_args, web_url, WebArgs, WebFile, PIT_WEB_APP,
    PIT_WEB_PACKAGE,
};

#[test]
fn bundled_app_is_a_read_only_prefixed_static_route() {
    assert!(PIT_WEB_APP.contains("interface = \"static-web\""));
    assert!(PIT_WEB_APP.contains("\"/__pit\" = \"pit-web\""));
    assert!(!PIT_WEB_APP.contains("[resources"));
}

#[test]
fn bundled_package_is_private() {
    assert_eq!(
        PIT_WEB_PACKAGE,
        "{\"name\":\"pit-web\",\"version\":\"0.1.0-alpha.1\",\"private\":true}"
    );
}

#[test]
fn pit_web_is_served_under_its_prefix() {
    assert_eq!(web_url("http://127.0.0.1:7080/"), "http://127.0.0.1:7080/__pit/");
    assert_eq!(web_url("http://127.0.0.1:7080"), "http://127.0.0.1:7080/__pit/");
}

#[test]
fn pit_web_activation_uses_the_scratch_manifest() {
    let args = WebArgs {
        no_open: false,
        control_endpoint: "http://127.0.0.1:7081".to_string(),
        http_endpoint: "http://127.0.0.1:7080".to_string(),
    };
    let up = web_up_args(&args, "/tmp/pit-web-1");
    assert_eq!(up.file.as_deref(), Some("/tmp/pit-web-1/app.pit"));
    assert_eq!(up.control_endpoint, "http://127.0.0.1:7081");
    assert!(!up.force && !up.debug && !up.timings && up.artifact_store.is_none());
}

#[test]
fn pit_web_files_serve_the_page_twice() {
    let files = web_files();
    assert_eq!(files.len(), 6);
    assert_eq!(files[0], ("app.pit", WebFile::Manifest));
    let pages: Vec<&str> = files
        .iter()
        .filter(|(_, f)| *f == WebFile::Index)
        .map(|(p, _)| *p)
        .collect();
    assert_eq!(pages, vec!["dist/index.html", "dist/__pit/index.html"]);
}

#[test]
fn cleanup_warning_only_after_success() {
    assert!(warn_cleanup(true, true));
    assert!(!warn_cleanup(true, false));
    assert!(!warn_cleanup(false, true));
}
