use pit_cli::manifest::DirEntry;
use pit_cli::project::{
    config_path, ensure_gitignore, execution_defaults, init_with_options, project_has_marker,
    ExecutionSection, InitError, Language, ProjectConfig,
};
use pit_cli::units::UnitError;

#[test]
fn config_execution_defaults_parse() {
    let mut config = ProjectConfig::default();
    config.execution = ExecutionSection {
        timeout: Some("2s".into()),
        memory: Some("64MiB".into()),
    };
    let defaults = execution_defaults(&config).unwrap();
    assert_eq!(defaults.timeout_ms, Some(2_000));
    assert_eq!(defaults.memory_bytes, Some(64 * 1024 * 1024));
}

#[test]
fn config_without_limits_has_none() {
    let defaults = execution_defaults(&ProjectConfig::default()).unwrap();
    assert_eq!(defaults.timeout_ms, None);
    assert_eq!(defaults.memory_bytes, None);
}

#[test]
fn config_with_bad_unit_is_refused() {
    let mut config = ProjectConfig::default();
    config.execution.timeout = Some("2h".into());
    assert_eq!(execution_defaults(&config).unwrap_err(), UnitError::DurationUnit);
}

#[test]
fn config_path_is_in_the_project() {
    assert_eq!(config_path("/work/app"), "/work/app/pit.toml");
    assert_eq!(config_path("/work/app/"), "/work/app/pit.toml");
}

fn entry(name: &str) -> DirEntry {
    DirEntry { name: name.to_string(), is_file: true }
}

#[test]
fn init_creates_config_and_ignore_entry() {
    let entries = vec![entry("Cargo.toml")];
    let created = init_with_options(&entries, Some("x"), Language::Rust, None, None, None).unwrap();
    let manifest = created.expect("a new app.pit");
    assert!(manifest.contains("schema = 1"));
    assert!(manifest.contains("build = \".\""));
    assert!(manifest.contains("abi = \"wasi-preview2\""));
    assert!(manifest.contains("name = \"x\""));
    let again = vec![entry("Cargo.toml"), entry("app.pit")];
    assert!(init_with_options(&again, Some("x"), Language::Rust, None, None, None)
        .unwrap()
        .is_none());
    let ignore = ensure_gitignore("").unwrap();
    assert_eq!(ignore, ".pit/\n");
    assert_eq!(ensure_gitignore(&ignore), None);
}

#[test]
fn init_records_the_given_hints() {
    let entries = vec![entry("pyproject.toml")];
    let manifest = init_with_options(
        &entries,
        None,
        Language::Python,
        Some("asgi"),
        Some("main:app"),
        Some("python/asgi"),
    )
    .unwrap()
    .unwrap();
    assert!(manifest.contains("name = \"pitfast-project\""));
    assert!(manifest.contains("language = \"python\""));
    assert!(manifest.contains("\ninterface = \"asgi\"\n"));
    assert!(manifest.contains("\nentry = \"main:app\"\n"));
    assert!(manifest.contains("\nadapter = \"python/asgi\"\n"));
}

#[test]
fn init_refuses_a_directory_without_the_language_marker() {
    let err: InitError =
        init_with_options(&vec![entry("go.mod")], None, Language::Rust, None, None, None)
            .unwrap_err();
    assert_eq!(err.message, "pit init requires an existing rust project (Cargo.toml)");
}

#[test]
fn language_markers() {
    assert!(project_has_marker(&vec![entry("requirements.txt")], Language::Python));
    assert!(project_has_marker(&vec![entry("Api.csproj")], Language::CSharp));
    assert!(!project_has_marker(
        &vec![DirEntry { name: "Cargo.toml".to_string(), is_file: false }],
        Language::Rust
    ));
    assert!(project_has_marker(&vec![entry("build.gradle.kts")], Language::Java));
}

#[test]
fn gitignore_gets_pit_on_its_own_line_once() {
    assert_eq!(ensure_gitignore("target/").unwrap(), "target/\n.pit/\n");
    assert_eq!(ensure_gitignore("target/\n").unwrap(), "target/\n.pit/\n");
    assert_eq!(ensure_gitignore("target/\n  .pit  \n"), None);
    assert_eq!(ensure_gitignore(".pit/"), None);
}
