//! A project's legacy `pit.toml` build defaults, and the files `pit init`
//! writes. Reading and writing the files happens in the caller.

use vstd::prelude::*;
use vstd::string::StringExecFns;

use crate::manifest::{
    copy_opt_text, execution_defaults_spec, execution_limits, opt_view, pit_files, DirEntry,
    ExecutionDefaults, ResourceBinding,
};
use crate::paths::{join_path, joined};
use crate::text::{
    chars_of, has_suffix, push_all, push_str, same_chars, string_of, trim, trim_chars, trim_end, trim_start,
};
use crate::units::UnitError;

pub use crate::units::{parse_duration_ms, parse_memory_bytes};

verus! {

#[derive(Debug, Default)]
pub struct ProjectSection {
    pub name: Option<String>,
}

#[derive(Debug, Default)]
pub struct BuildSection {
    pub language: Option<String>,
    pub interface: Option<String>,
    pub entry: Option<String>,
    pub adapter: Option<String>,
    pub bin: Option<String>,
    pub abi: Option<String>,
    pub world: Option<String>,
}

#[derive(Debug, Default)]
pub struct ExecutionSection {
    pub timeout: Option<String>,
    pub memory: Option<String>,
}

#[derive(Debug, Default)]
pub struct ResourceSection {
    pub id: String,
    pub kind: String,
    pub provider: String,
    pub url_env: String,
}

#[derive(Debug, Default)]
pub struct ServiceSection {
    pub name: Option<String>,
    pub artifact: Option<String>,
    pub resources: Vec<ResourceBinding>,
}

#[derive(Debug, Default)]
pub struct NetworkSection {
    pub internal_services: Option<bool>,
    pub external_http: Option<bool>,
    pub tcp_allowlist: Vec<String>,
}

/// The contents of `pit.toml`; every table is optional.
#[derive(Debug)]
pub struct ProjectConfig {
    pub project: ProjectSection,
    pub build: BuildSection,
    pub execution: ExecutionSection,
    pub resources: Vec<ResourceSection>,
    pub service: ServiceSection,
    pub network: NetworkSection,
}

/// A configuration with nothing set, as used when `pit.toml` is absent.
pub open spec fn is_empty_config(c: ProjectConfig) -> bool {
    &&& c.project.name is None
    &&& c.build.language is None && c.build.interface is None && c.build.entry is None
    &&& c.build.adapter is None && c.build.bin is None && c.build.abi is None
    &&& c.build.world is None
    &&& c.execution.timeout is None && c.execution.memory is None
    &&& c.resources@.len() == 0
    &&& c.service.name is None && c.service.artifact is None && c.service.resources@.len() == 0
    &&& c.network.internal_services is None && c.network.external_http is None
    &&& c.network.tcp_allowlist@.len() == 0
}

impl Default for ProjectConfig {
    fn default() -> (c: ProjectConfig)
        ensures
            is_empty_config(c),
    {
        ProjectConfig {
            project: ProjectSection { name: None },
            build: BuildSection {
                language: None,
                interface: None,
                entry: None,
                adapter: None,
                bin: None,
                abi: None,
                world: None,
            },
            execution: ExecutionSection { timeout: None, memory: None },
            resources: Vec::new(),
            service: ServiceSection { name: None, artifact: None, resources: Vec::new() },
            network: NetworkSection {
                internal_services: None,
                external_http: None,
                tcp_allowlist: Vec::new(),
            },
        }
    }
}

/// The path of a project's `pit.toml`.
pub fn config_path(project_dir: &str) -> (p: String)
    ensures
        p@ == joined(project_dir@, "pit.toml"@),
{
    join_path(project_dir, "pit.toml")
}

/// The execution limits `pit.toml` asks for.
pub fn execution_defaults(config: &ProjectConfig) -> (r: Result<ExecutionDefaults, UnitError>)
    ensures
        r == execution_defaults_spec(
            opt_view(config.execution.timeout),
            opt_view(config.execution.memory),
        ),
{
    execution_limits(&config.execution.timeout, &config.execution.memory)
}


/// The source languages PitFast builds.
#[derive(Debug, Clone, Copy, PartialEq, Eq, Structural)]
pub enum Language {
    Rust,
    Go,
    Python,
    JavaScript,
    TypeScript,
    C,
    Cpp,
    CSharp,
    Java,
}

impl Language {
    pub open spec fn name(self) -> Seq<char> {
        match self {
            Language::Rust => "rust"@,
            Language::Go => "go"@,
            Language::Python => "python"@,
            Language::JavaScript => "javascript"@,
            Language::TypeScript => "typescript"@,
            Language::C => "c"@,
            Language::Cpp => "cpp"@,
            Language::CSharp => "csharp"@,
            Language::Java => "java"@,
        }
    }

    /// The language's name as manifests and the CLI write it.
    pub fn as_str(&self) -> (s: &'static str)
        ensures
            s@ == self.name(),
    {
        match self {
            Language::Rust => "rust",
            Language::Go => "go",
            Language::Python => "python",
            Language::JavaScript => "javascript",
            Language::TypeScript => "typescript",
            Language::C => "c",
            Language::Cpp => "cpp",
            Language::CSharp => "csharp",
            Language::Java => "java",
        }
    }

    pub open spec fn marker_text(self) -> Seq<char> {
        match self {
            Language::Rust => "Cargo.toml"@,
            Language::Go => "go.mod"@,
            Language::Python => "pyproject.toml"@,
            Language::JavaScript | Language::TypeScript => "package.json"@,
            Language::C | Language::Cpp => "CMakeLists.txt"@,
            Language::CSharp => "*.csproj"@,
            Language::Java => "pom.xml or build.gradle"@,
        }
    }

    /// The project file that `pit init` names when none is found.
    pub fn marker(&self) -> (s: &'static str)
        ensures
            s@ == self.marker_text(),
    {
        match self {
            Language::Rust => "Cargo.toml",
            Language::Go => "go.mod",
            Language::Python => "pyproject.toml",
            Language::JavaScript | Language::TypeScript => "package.json",
            Language::C | Language::Cpp => "CMakeLists.txt",
            Language::CSharp => "*.csproj",
            Language::Java => "pom.xml or build.gradle",
        }
    }
}

/// The directory holds a regular file called `name`.
pub open spec fn has_file(entries: Seq<DirEntry>, name: Seq<char>) -> bool {
    exists|i: int| 0 <= i < entries.len() && #[trigger] entries[i].is_file && entries[i].name@ == name
}

/// An entry name with the `csproj` extension.
pub open spec fn is_csproj_name(name: Seq<char>) -> bool {
    name.len() > 7 && crate::text::ends_with(name, ".csproj"@)
}

/// Whether the directory looks like a project in `language`.
pub open spec fn marker_present(entries: Seq<DirEntry>, language: Language) -> bool {
    match language {
        Language::Rust => has_file(entries, "Cargo.toml"@),
        Language::Go => has_file(entries, "go.mod"@),
        Language::Python => has_file(entries, "pyproject.toml"@) || has_file(
            entries,
            "requirements.txt"@,
        ) || has_file(entries, "setup.py"@),
        Language::JavaScript | Language::TypeScript => has_file(entries, "package.json"@),
        Language::C | Language::Cpp => has_file(entries, "CMakeLists.txt"@) || has_file(
            entries,
            "pit.toml"@,
        ),
        Language::CSharp => exists|i: int|
            0 <= i < entries.len() && is_csproj_name(#[trigger] entries[i].name@),
        Language::Java => has_file(entries, "pom.xml"@) || has_file(entries, "build.gradle"@)
            || has_file(entries, "build.gradle.kts"@),
    }
}

fn file_present(entries: &Vec<DirEntry>, name: &str) -> (r: bool)
    ensures
        r == has_file(entries@, name@),
{
    let wanted = chars_of(name);
    let mut i: usize = 0;
    while i < entries.len()
        invariant
            i <= entries@.len(),
            wanted@ == name@,
            forall|k: int| 0 <= k < i ==> !(#[trigger] entries@[k].is_file && entries@[k].name@ == name@),
        decreases entries.len() - i,
    {
        let n = chars_of(entries[i].name.as_str());
        if entries[i].is_file && same_chars(&n, &wanted) {
            assert(entries@[i as int].is_file && entries@[i as int].name@ == name@);
            return true;
        }
        i = i + 1;
    }
    false
}

fn csproj_present(entries: &Vec<DirEntry>) -> (r: bool)
    ensures
        r == exists|i: int| 0 <= i < entries@.len() && is_csproj_name(#[trigger] entries@[i].name@),
{
    let ext = chars_of(".csproj");
    let mut i: usize = 0;
    while i < entries.len()
        invariant
            i <= entries@.len(),
            ext@ == ".csproj"@,
            forall|k: int| 0 <= k < i ==> !is_csproj_name(#[trigger] entries@[k].name@),
        decreases entries.len() - i,
    {
        let n = chars_of(entries[i].name.as_str());
        if n.len() > 7 && has_suffix(&n, &ext) {
            assert(is_csproj_name(entries@[i as int].name@));
            return true;
        }
        i = i + 1;
    }
    false
}

/// Whether the directory `entries` list looks like a project in `language`.
pub fn project_has_marker(entries: &Vec<DirEntry>, language: Language) -> (r: bool)
    ensures
        r == marker_present(entries@, language),
{
    match language {
        Language::Rust => file_present(entries, "Cargo.toml"),
        Language::Go => file_present(entries, "go.mod"),
        Language::Python => file_present(entries, "pyproject.toml") || file_present(
            entries,
            "requirements.txt",
        ) || file_present(entries, "setup.py"),
        Language::JavaScript | Language::TypeScript => file_present(entries, "package.json"),
        Language::C | Language::Cpp => file_present(entries, "CMakeLists.txt") || file_present(
            entries,
            "pit.toml",
        ),
        Language::CSharp => csproj_present(entries),
        Language::Java => file_present(entries, "pom.xml") || file_present(entries, "build.gradle")
            || file_present(entries, "build.gradle.kts"),
    }
}

/// A line `<key>"<value>"` when the value is given.
pub open spec fn optional_line(key: Seq<char>, value: Option<Seq<char>>) -> Seq<char> {
    match value {
        Some(v) => key + v + "\"\n"@,
        None => Seq::empty(),
    }
}

/// The `app.pit` that `pit init` writes.
pub open spec fn manifest_template(
    name: Seq<char>,
    language: Seq<char>,
    interface: Option<Seq<char>>,
    entry: Option<Seq<char>>,
    adapter: Option<Seq<char>>,
) -> Seq<char> {
    "schema = 1\nname = \""@ + name
        + "\"\n\n[service]\nbuild = \".\"\nlanguage = \""@ + language
        + "\"\nabi = \"wasi-preview2\"\n"@
        + optional_line("interface = \""@, interface)
        + optional_line("entry = \""@, entry)
        + optional_line("adapter = \""@, adapter)
        + "# interface = \"asgi\"\n# entry = \"main:app\"\n# adapter = \"python/asgi\"\n\n[execution]\n# timeout = \"2s\"\n# memory = \"64MiB\"\n"@
}

pub open spec fn str_opt_view(o: Option<&str>) -> Option<Seq<char>> {
    match o {
        Some(s) => Some(s@),
        None => None,
    }
}

fn push_optional_line(out: &mut Vec<char>, key: &str, value: Option<&str>)
    ensures
        final(out)@ == old(out)@ + optional_line(key@, str_opt_view(value)),
{
    match value {
        Some(v) => {
            push_str(out, key);
            push_str(out, v);
            push_str(out, "\"\n");
        },
        None => {
            assert(old(out)@ + Seq::<char>::empty() =~= old(out)@);
        },
    }
}

/// Why `pit init` refused the directory.
#[derive(Debug)]
pub struct InitError {
    pub message: String,
}

pub open spec fn init_error_text(language: Language) -> Seq<char> {
    "pit init requires an existing "@ + language.name() + " project ("@ + language.marker_text()
        + ")"@
}

/// What `pit init` writes to `app.pit`, given the project directory's
/// entries and name: nothing when a `*.pit` manifest already exists
/// (`Ok(None)`), and an error when the directory does not look like a
/// project in `language`.
pub fn init_with_options(
    entries: &Vec<DirEntry>,
    dir_name: Option<&str>,
    language: Language,
    interface: Option<&str>,
    entry: Option<&str>,
    adapter: Option<&str>,
) -> (r: Result<Option<String>, InitError>)
    ensures
        !marker_present(entries@, language) ==> (r matches Err(e) && e.message@ == init_error_text(
            language,
        )),
        marker_present(entries@, language) && pit_files(entries@).len() > 0 ==> r == Ok::<
            Option<String>,
            InitError,
        >(None),
        marker_present(entries@, language) && pit_files(entries@).len() == 0 ==> (r matches Ok(
            Some(t),
        ) && t@ == manifest_template(
            match dir_name {
                Some(n) => n@,
                None => "pitfast-project"@,
            },
            language.name(),
            str_opt_view(interface),
            str_opt_view(entry),
            str_opt_view(adapter),
        )),
{
    if !project_has_marker(entries, language) {
        let mut m: Vec<char> = Vec::new();
        push_str(&mut m, "pit init requires an existing ");
        push_str(&mut m, language.as_str());
        push_str(&mut m, " project (");
        push_str(&mut m, language.marker());
        push_str(&mut m, ")");
        return Err(InitError { message: string_of(&m) });
    }
    if crate::manifest::manifest_present(entries) {
        return Ok(None);
    }
    let name = match dir_name {
        Some(n) => n,
        None => "pitfast-project",
    };
    let mut t: Vec<char> = Vec::new();
    push_str(&mut t, "schema = 1\nname = \"");
    push_str(&mut t, name);
    push_str(&mut t, "\"\n\n[service]\nbuild = \".\"\nlanguage = \"");
    push_str(&mut t, language.as_str());
    push_str(&mut t, "\"\nabi = \"wasi-preview2\"\n");
    push_optional_line(&mut t, "interface = \"", interface);
    push_optional_line(&mut t, "entry = \"", entry);
    push_optional_line(&mut t, "adapter = \"", adapter);
    push_str(
        &mut t,
        "# interface = \"asgi\"\n# entry = \"main:app\"\n# adapter = \"python/asgi\"\n\n[execution]\n# timeout = \"2s\"\n# memory = \"64MiB\"\n",
    );
    Ok(Some(string_of(&t)))
}


/// `s[a..b]` is a whole line of `s`: it starts the text or follows a line
/// feed, ends the text or precedes one, and holds none.
pub open spec fn is_line(s: Seq<char>, a: int, b: int) -> bool {
    &&& 0 <= a <= b <= s.len()
    &&& (a == 0 || s[a - 1] == '\n')
    &&& (b == s.len() || s[b] == '\n')
    &&& !s.subrange(a, b).contains('\n')
}

/// A line that, trimmed, is `.pit` or `.pit/`.
pub open spec fn is_pit_ignore_line(line: Seq<char>) -> bool {
    trim(line) == ".pit"@ || trim(line) == ".pit/"@
}

/// Some line of the `.gitignore` text already ignores `.pit`.
pub open spec fn ignores_pit(s: Seq<char>) -> bool {
    exists|a: int, b: int| is_line(s, a, b) && is_pit_ignore_line(#[trigger] s.subrange(a, b))
}

/// The `.gitignore` text with `.pit/` appended on a line of its own.
pub open spec fn with_pit_ignored(s: Seq<char>) -> Seq<char> {
    if s.len() > 0 && s.last() != '\n' {
        s + "\n.pit/\n"@
    } else {
        s + ".pit/\n"@
    }
}

fn pit_ignore_line(s: &Vec<char>, a: usize, b: usize) -> (r: bool)
    requires
        a <= b <= s@.len(),
    ensures
        r == is_pit_ignore_line(s@.subrange(a as int, b as int)),
{
    let mut seg: Vec<char> = Vec::new();
    let mut k: usize = a;
    while k < b
        invariant
            a <= k <= b <= s@.len(),
            seg@ == s@.subrange(a as int, k as int),
        decreases b - k,
    {
        seg.push(s[k]);
        k = k + 1;
        assert(seg@ =~= s@.subrange(a as int, k as int));
    }
    let t = trim_chars(&seg);
    let one = chars_of(".pit");
    let two = chars_of(".pit/");
    same_chars(&t, &one) || same_chars(&t, &two)
}

/// The new `.gitignore` text when `.pit/` must be added (`None` when a line
/// already ignores `.pit`).
pub fn ensure_gitignore(contents: &str) -> (r: Option<String>)
    ensures
        ignores_pit(contents@) ==> r is None,
        !ignores_pit(contents@) ==> (r matches Some(t) && t@ == with_pit_ignored(contents@)),
{
    let s = chars_of(contents);
    let ghost sv = s@;
    let n = s.len();
    let mut st: usize = 0;
    let mut i: usize = 0;
    while i < n
        invariant
            n == sv.len(),
            sv == s@,
            sv == contents@,
            st <= i <= n,
            st == 0 || sv[st - 1] == '\n',
            !sv.subrange(st as int, i as int).contains('\n'),
            forall|a: int, b: int|
                is_line(sv, a, b) && b < st ==> !is_pit_ignore_line(#[trigger] sv.subrange(a, b)),
        decreases n - i,
    {
        if s[i] == '\n' {
            if pit_ignore_line(&s, st, i) {
                assert(is_line(sv, st as int, i as int));
                return None;
            }
            proof {
                assert forall|a: int, b: int|
                    is_line(sv, a, b) && b < i + 1 implies !is_pit_ignore_line(
                    #[trigger] sv.subrange(a, b),
                ) by {
                    if b >= st {
                        if b < i {
                            assert(sv.subrange(st as int, i as int)[b - st] == sv[b]);
                        }
                        assert(b == i);
                        if a < st {
                            assert(sv.subrange(a, b)[st - 1 - a] == sv[st - 1]);
                        }
                        if a > st {
                            assert(sv.subrange(st as int, i as int)[a - 1 - st] == sv[a - 1]);
                        }
                        assert(a == st);
                    }
                }
            }
            st = i + 1;
            assert(sv.subrange(st as int, st as int) =~= Seq::<char>::empty());
        } else {
            proof {
                assert(sv.subrange(st as int, i + 1) =~= sv.subrange(st as int, i as int).push(
                    sv[i as int],
                ));
            }
        }
        i = i + 1;
    }
    if pit_ignore_line(&s, st, n) {
        assert(is_line(sv, st as int, n as int));
        return None;
    }
    proof {
        assert forall|a: int, b: int| is_line(sv, a, b) implies !is_pit_ignore_line(
            #[trigger] sv.subrange(a, b),
        ) by {
            if b >= st {
                if b < n {
                    assert(sv.subrange(st as int, n as int)[b - st] == sv[b]);
                }
                assert(b == n);
                if a < st {
                    assert(sv.subrange(a, b)[st - 1 - a] == sv[st - 1]);
                }
                if a > st {
                    assert(sv.subrange(st as int, n as int)[a - 1 - st] == sv[a - 1]);
                }
                assert(a == st);
            }
        }
    }
    let mut out: Vec<char> = Vec::new();
    push_all(&mut out, &s);
    if n > 0 && s[n - 1] != '\n' {
        push_str(&mut out, "\n.pit/\n");
    } else {
        push_str(&mut out, ".pit/\n");
    }
    Some(string_of(&out))
}


/// Adding `.pit/` to a `.gitignore` is done once: the text it gives
/// already ignores `.pit`, so a second `pit init` leaves it unchanged.
pub proof fn law_gitignore_idempotent(s: Seq<char>)
    ensures
        ignores_pit(with_pit_ignored(s)),
{
    reveal_strlit("\n.pit/\n");
    reveal_strlit(".pit/\n");
    reveal_strlit(".pit/");
    let t = with_pit_ignored(s);
    let a: int = if s.len() > 0 && s.last() != '\n' { s.len() as int + 1 } else { s.len() as int };
    let b: int = a + 5;
    let line = t.subrange(a, b);
    assert(line =~= ".pit/"@);
    assert(t[b] == '\n');
    assert(a == 0 || t[a - 1] == '\n');
    assert(!line.contains('\n'));
    assert(trim_start(line) == line);
    assert(trim_end(line) == line);
    assert(trim(line) == ".pit/"@);
    assert(is_line(t, a, b));
    assert(is_pit_ignore_line(t.subrange(a, b)));
}

/// The directory holds a regular file whose name is one of `names`.
pub open spec fn holds_file_named(entries: Seq<DirEntry>, names: Seq<Seq<char>>) -> bool {
    exists|i: int| 0 <= i < entries.len() && entries[i].is_file && names.contains(#[trigger] entries[i].name@)
}

proof fn lemma_holds_one_of(entries: Seq<DirEntry>, names: Seq<Seq<char>>)
    ensures
        holds_file_named(entries, names) <==> exists|k: int| 0 <= k < names.len() && has_file(entries, #[trigger] names[k]),
{
    if holds_file_named(entries, names) {
        let i = choose|i: int| 0 <= i < entries.len() && entries[i].is_file && names.contains(#[trigger] entries[i].name@);
        let k = choose|k: int| 0 <= k < names.len() && names[k] == entries[i].name@;
        assert(has_file(entries, names[k]));
    }
    if exists|k: int| 0 <= k < names.len() && has_file(entries, #[trigger] names[k]) {
        let k = choose|k: int| 0 <= k < names.len() && has_file(entries, #[trigger] names[k]);
        let i = choose|i: int| 0 <= i < entries.len() && #[trigger] entries[i].is_file && entries[i].name@ == names[k];
        assert(names.contains(entries[i].name@));
    }
}

/// A directory is a project in a language exactly when it holds one of the
/// language's project files as a regular file: `Cargo.toml` for Rust,
/// `go.mod` for Go, `pyproject.toml`, `requirements.txt` or `setup.py` for
/// Python, `package.json` for JavaScript and TypeScript, `CMakeLists.txt`
/// or `pit.toml` for C and C++, `pom.xml`, `build.gradle` or
/// `build.gradle.kts` for Java; and, for C#, any entry named `*.csproj`.
pub proof fn law_project_markers(entries: Seq<DirEntry>)
    ensures
        marker_present(entries, Language::Rust) <==> holds_file_named(entries, seq!["Cargo.toml"@]),
        marker_present(entries, Language::Go) <==> holds_file_named(entries, seq!["go.mod"@]),
        marker_present(entries, Language::Python) <==> holds_file_named(
            entries,
            seq!["pyproject.toml"@, "requirements.txt"@, "setup.py"@],
        ),
        marker_present(entries, Language::JavaScript) <==> holds_file_named(entries, seq!["package.json"@]),
        marker_present(entries, Language::TypeScript) <==> holds_file_named(entries, seq!["package.json"@]),
        marker_present(entries, Language::C) <==> holds_file_named(entries, seq!["CMakeLists.txt"@, "pit.toml"@]),
        marker_present(entries, Language::Cpp) <==> holds_file_named(entries, seq!["CMakeLists.txt"@, "pit.toml"@]),
        marker_present(entries, Language::Java) <==> holds_file_named(
            entries,
            seq!["pom.xml"@, "build.gradle"@, "build.gradle.kts"@],
        ),
        marker_present(entries, Language::CSharp) <==> exists|i: int|
            0 <= i < entries.len() && (#[trigger] entries[i].name@).len() > 7 && crate::text::ends_with(
                entries[i].name@,
                ".csproj"@,
            ),
{
    lemma_holds_one_of(entries, seq!["Cargo.toml"@]);
    lemma_holds_one_of(entries, seq!["go.mod"@]);
    lemma_holds_one_of(entries, seq!["pyproject.toml"@, "requirements.txt"@, "setup.py"@]);
    lemma_holds_one_of(entries, seq!["package.json"@]);
    lemma_holds_one_of(entries, seq!["CMakeLists.txt"@, "pit.toml"@]);
    lemma_holds_one_of(entries, seq!["pom.xml"@, "build.gradle"@, "build.gradle.kts"@]);
    let py = seq!["pyproject.toml"@, "requirements.txt"@, "setup.py"@];
    assert(py[0] == "pyproject.toml"@ && py[1] == "requirements.txt"@ && py[2] == "setup.py"@);
    let c = seq!["CMakeLists.txt"@, "pit.toml"@];
    assert(c[0] == "CMakeLists.txt"@ && c[1] == "pit.toml"@);
    let j = seq!["pom.xml"@, "build.gradle"@, "build.gradle.kts"@];
    assert(j[0] == "pom.xml"@ && j[1] == "build.gradle"@ && j[2] == "build.gradle.kts"@);
    assert(seq!["Cargo.toml"@][0] == "Cargo.toml"@);
    assert(seq!["go.mod"@][0] == "go.mod"@);
    assert(seq!["package.json"@][0] == "package.json"@);
}

/// `part` appears in `s` at some position.
pub open spec fn occurs_in(s: Seq<char>, part: Seq<char>) -> bool {
    exists|i: int| 0 <= i && i + part.len() <= s.len() && #[trigger] s.subrange(i, i + part.len()) == part
}

proof fn lemma_template_literals()
    ensures
        "schema = 1\nname = \""@ == "schema = 1\n"@ + "name = \""@,
        "\"\n\n[service]\nbuild = \".\"\nlanguage = \""@ == "\"\n"@ + "\n[service]\n"@ + "build = \".\"\n"@
            + "language = \""@,
        "\"\nabi = \"wasi-preview2\"\n"@ == "\"\n"@ + "abi = \"wasi-preview2\"\n"@,
        "schema = 1\n"@.len() == 11,
{
    assert("schema = 1\nname = \""@ =~= "schema = 1\n"@ + "name = \""@) by {
        reveal_strlit("schema = 1\nname = \"");
        reveal_strlit("schema = 1\n");
        reveal_strlit("name = \"");
    }
    assert("\"\n\n[service]\nbuild = \".\"\nlanguage = \""@ =~= "\"\n"@ + "\n[service]\n"@ + "build = \".\"\n"@
        + "language = \""@) by {
        reveal_strlit("\"\n\n[service]\nbuild = \".\"\nlanguage = \"");
        reveal_strlit("\"\n");
        reveal_strlit("\n[service]\n");
        reveal_strlit("build = \".\"\n");
        reveal_strlit("language = \"");
    }
    assert("\"\nabi = \"wasi-preview2\"\n"@ =~= "\"\n"@ + "abi = \"wasi-preview2\"\n"@) by {
        reveal_strlit("\"\nabi = \"wasi-preview2\"\n");
        reveal_strlit("\"\n");
        reveal_strlit("abi = \"wasi-preview2\"\n");
    }
    reveal_strlit("schema = 1\n");
}

/// The template split at its fixed lines: the schema line, then
/// `name = "<name>"`, the `[service]` heading, `build = "."`,
/// `language = "<language>"`, `abi = "wasi-preview2"`, the optional lines
/// and the commented tail.
proof fn lemma_template_parts(
    name: Seq<char>,
    language: Seq<char>,
    interface: Option<Seq<char>>,
    entry: Option<Seq<char>>,
    adapter: Option<Seq<char>>,
)
    ensures
        manifest_template(name, language, interface, entry, adapter) == "schema = 1\n"@ + ("name = \""@ + name
            + "\"\n"@) + "\n[service]\n"@ + "build = \".\"\n"@ + ("language = \""@ + language + "\"\n"@)
            + "abi = \"wasi-preview2\"\n"@ + optional_line("interface = \""@, interface) + optional_line(
            "entry = \""@,
            entry,
        ) + optional_line("adapter = \""@, adapter) + template_tail(),
{
    lemma_template_literals();
    let t = manifest_template(name, language, interface, entry, adapter);
    let q = "\"\n"@;
    assert(t =~= "schema = 1\n"@ + ("name = \""@ + name + q) + "\n[service]\n"@ + "build = \".\"\n"@ + ("language = \""@
        + language + q) + "abi = \"wasi-preview2\"\n"@ + optional_line("interface = \""@, interface)
        + optional_line("entry = \""@, entry) + optional_line("adapter = \""@, adapter) + template_tail());
}

pub open spec fn template_tail() -> Seq<char> {
    "# interface = \"asgi\"\n# entry = \"main:app\"\n# adapter = \"python/asgi\"\n\n[execution]\n# timeout = \"2s\"\n# memory = \"64MiB\"\n"@
}

proof fn lemma_occurs_self(part: Seq<char>)
    ensures
        occurs_in(part, part),
{
    assert(part.subrange(0, 0int + part.len()) =~= part);
}

proof fn lemma_occurs_extend(x: Seq<char>, y: Seq<char>, part: Seq<char>)
    requires
        occurs_in(x, part),
    ensures
        occurs_in(x + y, part),
        occurs_in(y + x, part),
{
    let i = choose|i: int| 0 <= i && i + part.len() <= x.len() && #[trigger] x.subrange(i, i + part.len()) == part;
    assert((x + y).subrange(i, i + part.len()) =~= x.subrange(i, i + part.len()));
    assert((y + x).subrange(i + y.len(), i + y.len() + part.len()) =~= x.subrange(i, i + part.len()));
}

/// The `app.pit` that `pit init` writes declares schema 1 on its first line
/// and holds the lines `name = "<name>"`, `build = "."`,
/// `language = "<language>"` and `abi = "wasi-preview2"`, and an
/// `interface`, `entry` or `adapter` line for each one given.
pub proof fn law_init_template_lines(
    name: Seq<char>,
    language: Seq<char>,
    interface: Option<Seq<char>>,
    entry: Option<Seq<char>>,
    adapter: Option<Seq<char>>,
)
    ensures
        manifest_template(name, language, interface, entry, adapter).take(11) == "schema = 1\n"@,
        occurs_in(manifest_template(name, language, interface, entry, adapter), "name = \""@ + name + "\"\n"@),
        occurs_in(manifest_template(name, language, interface, entry, adapter), "build = \".\"\n"@),
        occurs_in(
            manifest_template(name, language, interface, entry, adapter),
            "language = \""@ + language + "\"\n"@,
        ),
        occurs_in(manifest_template(name, language, interface, entry, adapter), "abi = \"wasi-preview2\"\n"@),
        interface is Some ==> occurs_in(
            manifest_template(name, language, interface, entry, adapter),
            "interface = \""@ + interface->0 + "\"\n"@,
        ),
        entry is Some ==> occurs_in(
            manifest_template(name, language, interface, entry, adapter),
            "entry = \""@ + entry->0 + "\"\n"@,
        ),
        adapter is Some ==> occurs_in(
            manifest_template(name, language, interface, entry, adapter),
            "adapter = \""@ + adapter->0 + "\"\n"@,
        ),
{
    lemma_template_parts(name, language, interface, entry, adapter);
    let t = manifest_template(name, language, interface, entry, adapter);
    let sch = "schema = 1\n"@;
    let l1 = "name = \""@ + name + "\"\n"@;
    let sv = "\n[service]\n"@;
    let l2 = "build = \".\"\n"@;
    let l3 = "language = \""@ + language + "\"\n"@;
    let l4 = "abi = \"wasi-preview2\"\n"@;
    let oi = optional_line("interface = \""@, interface);
    let oe = optional_line("entry = \""@, entry);
    let oa = optional_line("adapter = \""@, adapter);
    let tl = template_tail();
    let p1 = sch + l1;
    let p2 = p1 + sv;
    let p3 = p2 + l2;
    let p4 = p3 + l3;
    let p5 = p4 + l4;
    let p6 = p5 + oi;
    let p7 = p6 + oe;
    let p8 = p7 + oa;
    assert(t == p8 + tl);
    reveal_strlit("schema = 1\n");
    assert(t.take(11) =~= sch);
    // Each line occurs in the prefix that ends with it, hence in every longer prefix.
    lemma_occurs_self(l1);
    lemma_occurs_extend(l1, sch, l1);
    lemma_occurs_extend(p1, sv, l1);
    lemma_occurs_extend(p2, l2, l1);
    lemma_occurs_self(l2);
    lemma_occurs_extend(l2, p2, l2);
    lemma_occurs_extend(p3, l3, l1);
    lemma_occurs_extend(p3, l3, l2);
    lemma_occurs_self(l3);
    lemma_occurs_extend(l3, p3, l3);
    lemma_occurs_self(l4);
    lemma_occurs_extend(l4, p4, l4);
    lemma_occurs_extend(p4, l4, l1);
    lemma_occurs_extend(p4, l4, l2);
    lemma_occurs_extend(p4, l4, l3);
    lemma_occurs_self(oi);
    lemma_occurs_extend(oi, p5, oi);
    lemma_occurs_self(oe);
    lemma_occurs_extend(oe, p6, oe);
    lemma_occurs_self(oa);
    lemma_occurs_extend(oa, p7, oa);
    let parts = seq![l1, l2, l3, l4];
    assert forall|k: int| 0 <= k < 4 implies occurs_in(t, #[trigger] parts[k]) by {
        assert(occurs_in(p5, parts[k]));
        lemma_occurs_extend(p5, oi, parts[k]);
        lemma_occurs_extend(p6, oe, parts[k]);
        lemma_occurs_extend(p7, oa, parts[k]);
        lemma_occurs_extend(p8, tl, parts[k]);
    }
    assert(occurs_in(t, parts[0]) && occurs_in(t, parts[1]) && occurs_in(t, parts[2]) && occurs_in(t, parts[3]));
    lemma_occurs_extend(p6, oe, oi);
    lemma_occurs_extend(p7, oa, oi);
    lemma_occurs_extend(p8, tl, oi);
    lemma_occurs_extend(p7, oa, oe);
    lemma_occurs_extend(p8, tl, oe);
    lemma_occurs_extend(p8, tl, oa);
    if interface is Some {
        assert(oi =~= "interface = \""@ + interface->0 + "\"\n"@);
    }
    if entry is Some {
        assert(oe =~= "entry = \""@ + entry->0 + "\"\n"@);
    }
    if adapter is Some {
        assert(oa =~= "adapter = \""@ + adapter->0 + "\"\n"@);
    }
}
} // verus!
