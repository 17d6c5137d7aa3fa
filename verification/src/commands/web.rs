//! `pit web`: the bundled Pit Web static application, where its files go in
//! a scratch project, and how it is activated and reached. Writing the
//! files, activating and opening a browser are the caller's.

use vstd::prelude::*;
use vstd::string::StringExecFns;

use crate::commands::up::UpArgs;
use crate::manifest::copy_text;
use crate::paths::{endpoint_url, endpoint_url_spec, join_path, joined};

verus! {

/// The Pit Manifest of the bundled Pit Web application: one static-web
/// service routed under `/__pit`, with no resources.
pub const PIT_WEB_APP: &'static str = r#"schema = 1
name = "pit-web"

[service]
build = "."
language = "javascript"
interface = "static-web"

[routes]
"/__pit" = "pit-web"
"#;

/// The `package.json` of the bundled Pit Web application.
pub const PIT_WEB_PACKAGE: &'static str = r#"{"name":"pit-web","version":"0.1.0-alpha.1","private":true}"#;

#[derive(Debug)]
pub struct WebArgs {
    /// Do not open a browser after Pit Web is activated.
    pub no_open: bool,
    /// PitLane's loopback control endpoint.
    pub control_endpoint: String,
    /// PitLane's loopback HTTP endpoint where the static app is routed.
    pub http_endpoint: String,
}

/// Where Pit Web is reached once active.
pub fn web_url(http_endpoint: &str) -> (r: String)
    ensures
        r@ == endpoint_url_spec(http_endpoint@, "/__pit/"@),
{
    endpoint_url(http_endpoint, "/__pit/")
}

/// The `pit up` that activates the scratch project in `project_dir`.
pub fn web_up_args(args: &WebArgs, project_dir: &str) -> (r: UpArgs)
    ensures
        r.file matches Some(f) && f@ == joined(project_dir@, "app.pit"@),
        r.control_endpoint@ == args.control_endpoint@,
        r.artifact_store is None,
        !r.force && !r.debug && !r.timings,
{
    UpArgs {
        file: Some(join_path(project_dir, "app.pit")),
        control_endpoint: copy_text(&args.control_endpoint),
        artifact_store: None,
        force: false,
        debug: false,
        timings: false,
    }
}

/// The files of the scratch project.
#[derive(Debug, Clone, Copy, PartialEq, Eq, Structural)]
pub enum WebFile {
    /// `PIT_WEB_APP`.
    Manifest,
    /// `PIT_WEB_PACKAGE`.
    Package,
    /// The application's `index.html`.
    Index,
    /// The application's stylesheet.
    Stylesheet,
    /// The application's script.
    Script,
}

/// Each file of the scratch project with its path under the project; the
/// page is served both at the root and under `/__pit`.
pub open spec fn web_files_spec() -> Seq<(Seq<char>, WebFile)> {
    seq![
        ("app.pit"@, WebFile::Manifest),
        ("package.json"@, WebFile::Package),
        ("dist/index.html"@, WebFile::Index),
        ("dist/__pit/index.html"@, WebFile::Index),
        ("dist/__pit/assets/pit-web.css"@, WebFile::Stylesheet),
        ("dist/__pit/assets/pit-web.js"@, WebFile::Script),
    ]
}

pub fn web_files() -> (r: Vec<(&'static str, WebFile)>)
    ensures
        r@.map_values(|e: (&'static str, WebFile)| (e.0@, e.1)) == web_files_spec(),
{
    let r = vec![
        ("app.pit", WebFile::Manifest),
        ("package.json", WebFile::Package),
        ("dist/index.html", WebFile::Index),
        ("dist/__pit/index.html", WebFile::Index),
        ("dist/__pit/assets/pit-web.css", WebFile::Stylesheet),
        ("dist/__pit/assets/pit-web.js", WebFile::Script),
    ];
    assert(r@.map_values(|e: (&'static str, WebFile)| (e.0@, e.1)) =~= web_files_spec());
    r
}

/// A failed clean-up of the scratch project is reported only when the
/// activation itself succeeded (a failed activation is reported instead).
pub fn warn_cleanup(cleanup_failed: bool, activation_ok: bool) -> (r: bool)
    ensures
        r == (cleanup_failed && activation_ok),
{
    cleanup_failed && activation_ok
}

} // verus!
