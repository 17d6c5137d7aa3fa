//! PitFast's user-facing application manifest (`*.pit`): which manifest a
//! command uses, its schema and digest, and the validated application plan.
//! Reading directories and files, and decoding TOML, happen in the caller;
//! this module decides on what was read.

use vstd::prelude::*;
use vstd::string::StringExecFns;

use crate::digest::{content_digest, digest_text, is_hex_lower};
use crate::paths::{join_path, joined, last_segment, last_segment_of, parent_of, path_parent};
use crate::text::{
    chars_of, decimal, ends_with, has_suffix, lex_sorted, push_all, push_decimal, push_str,
    same_chars, sort_texts, string_of, text3, text4, text5, text7, trim, trim_chars, has_char,
    has_prefix, contains_text, lex_lt, chars_lt,
};
use crate::units::{parse_duration_ms, parse_memory_bytes, duration_ms_spec, memory_bytes_spec, UnitError};

verus! {

pub const SCHEMA_VERSION: u32 = 1;

/// The view of an optional text.
pub open spec fn opt_view(o: Option<String>) -> Option<Seq<char>> {
    match o {
        Some(s) => Some(s@),
        None => None,
    }
}

pub fn copy_text(s: &String) -> (r: String)
    ensures
        r@ == s@,
{
    s.clone()
}

pub fn copy_opt_text(o: &Option<String>) -> (r: Option<String>)
    ensures
        opt_view(r) == opt_view(*o),
{
    match o {
        Some(s) => Some(s.clone()),
        None => None,
    }
}

/// A service's binding of one of its variables to a manifest resource.
#[derive(Debug)]
pub struct ResourceBinding {
    pub variable: String,
    pub resource: String,
}

impl View for ResourceBinding {
    type V = (Seq<char>, Seq<char>);

    open spec fn view(&self) -> (Seq<char>, Seq<char>) {
        (self.variable@, self.resource@)
    }
}

pub open spec fn bindings_view(v: Seq<ResourceBinding>) -> Seq<(Seq<char>, Seq<char>)> {
    v.map_values(|b: ResourceBinding| b@)
}

pub fn copy_bindings(v: &Vec<ResourceBinding>) -> (r: Vec<ResourceBinding>)
    ensures
        bindings_view(r@) == bindings_view(v@),
{
    let mut r: Vec<ResourceBinding> = Vec::new();
    let mut i: usize = 0;
    while i < v.len()
        invariant
            i <= v@.len(),
            bindings_view(r@) == bindings_view(v@.subrange(0, i as int)),
        decreases v.len() - i,
    {
        let b = ResourceBinding {
            variable: copy_text(&v[i].variable),
            resource: copy_text(&v[i].resource),
        };
        let ghost before = r@;
        r.push(b);
        proof {
            assert(v@.subrange(0, i + 1) =~= v@.subrange(0, i as int).push(v@[i as int]));
            assert(bindings_view(r@) =~= bindings_view(before).push(b@));
            assert(bindings_view(v@.subrange(0, i + 1)) =~= bindings_view(
                v@.subrange(0, i as int),
            ).push(v@[i as int]@));
        }
        i = i + 1;
    }
    assert(v@.subrange(0, v@.len() as int) =~= v@);
    r
}

/// How one service is built; the language, interface, ABI and world are
/// kept as the text the manifest gives.
#[derive(Debug)]
pub struct ServiceSpec {
    pub build: String,
    pub id: Option<String>,
    pub language: Option<String>,
    pub interface: Option<String>,
    pub entry: Option<String>,
    pub adapter: Option<String>,
    pub artifact: Option<String>,
    pub abi: Option<String>,
    pub world: Option<String>,
    pub resources: Vec<ResourceBinding>,
}

pub struct ServiceSpecView {
    pub build: Seq<char>,
    pub id: Option<Seq<char>>,
    pub language: Option<Seq<char>>,
    pub interface: Option<Seq<char>>,
    pub entry: Option<Seq<char>>,
    pub adapter: Option<Seq<char>>,
    pub artifact: Option<Seq<char>>,
    pub abi: Option<Seq<char>>,
    pub world: Option<Seq<char>>,
    pub resources: Seq<(Seq<char>, Seq<char>)>,
}

impl View for ServiceSpec {
    type V = ServiceSpecView;

    open spec fn view(&self) -> ServiceSpecView {
        ServiceSpecView {
            build: self.build@,
            id: opt_view(self.id),
            language: opt_view(self.language),
            interface: opt_view(self.interface),
            entry: opt_view(self.entry),
            adapter: opt_view(self.adapter),
            artifact: opt_view(self.artifact),
            abi: opt_view(self.abi),
            world: opt_view(self.world),
            resources: bindings_view(self.resources@),
        }
    }
}

impl ServiceSpec {
    pub fn copy(&self) -> (r: ServiceSpec)
        ensures
            r@ == self@,
    {
        ServiceSpec {
            build: copy_text(&self.build),
            id: copy_opt_text(&self.id),
            language: copy_opt_text(&self.language),
            interface: copy_opt_text(&self.interface),
            entry: copy_opt_text(&self.entry),
            adapter: copy_opt_text(&self.adapter),
            artifact: copy_opt_text(&self.artifact),
            abi: copy_opt_text(&self.abi),
            world: copy_opt_text(&self.world),
            resources: copy_bindings(&self.resources),
        }
    }
}

/// A service under `[services.<id>]`.
#[derive(Debug)]
pub struct NamedService {
    pub id: String,
    pub spec: ServiceSpec,
}

impl View for NamedService {
    type V = (Seq<char>, ServiceSpecView);

    open spec fn view(&self) -> (Seq<char>, ServiceSpecView) {
        (self.id@, self.spec@)
    }
}

/// A resource: its `type` and the `from` source it is read from.
#[derive(Debug)]
pub struct ResourceSpec {
    pub kind: String,
    pub source: String,
}

impl View for ResourceSpec {
    type V = (Seq<char>, Seq<char>);

    open spec fn view(&self) -> (Seq<char>, Seq<char>) {
        (self.kind@, self.source@)
    }
}

/// A resource under `[resources.<id>]`.
#[derive(Debug)]
pub struct NamedResource {
    pub id: String,
    pub spec: ResourceSpec,
}

impl View for NamedResource {
    type V = (Seq<char>, (Seq<char>, Seq<char>));

    open spec fn view(&self) -> (Seq<char>, (Seq<char>, Seq<char>)) {
        (self.id@, self.spec@)
    }
}

pub open spec fn resources_view(v: Seq<NamedResource>) -> Seq<(Seq<char>, (Seq<char>, Seq<char>))> {
    v.map_values(|r: NamedResource| r@)
}

pub fn copy_resources(v: &Vec<NamedResource>) -> (r: Vec<NamedResource>)
    ensures
        resources_view(r@) == resources_view(v@),
{
    let mut r: Vec<NamedResource> = Vec::new();
    let mut i: usize = 0;
    while i < v.len()
        invariant
            i <= v@.len(),
            resources_view(r@) == resources_view(v@.subrange(0, i as int)),
        decreases v.len() - i,
    {
        let e = NamedResource {
            id: copy_text(&v[i].id),
            spec: ResourceSpec {
                kind: copy_text(&v[i].spec.kind),
                source: copy_text(&v[i].spec.source),
            },
        };
        let ghost before = r@;
        r.push(e);
        proof {
            assert(v@.subrange(0, i + 1) =~= v@.subrange(0, i as int).push(v@[i as int]));
            assert(resources_view(r@) =~= resources_view(before).push(e@));
            assert(resources_view(v@.subrange(0, i + 1)) =~= resources_view(
                v@.subrange(0, i as int),
            ).push(v@[i as int]@));
        }
        i = i + 1;
    }
    assert(v@.subrange(0, v@.len() as int) =~= v@);
    r
}

/// A route entry: a path and the service it targets.
#[derive(Debug)]
pub struct Route {
    pub path: String,
    pub service: String,
}

impl View for Route {
    type V = (Seq<char>, Seq<char>);

    open spec fn view(&self) -> (Seq<char>, Seq<char>) {
        (self.path@, self.service@)
    }
}

pub open spec fn routes_view(v: Seq<Route>) -> Seq<(Seq<char>, Seq<char>)> {
    v.map_values(|r: Route| r@)
}

/// The `[execution]` table as written.
#[derive(Debug, Default)]
pub struct ManifestExecution {
    pub timeout: Option<String>,
    pub memory: Option<String>,
}

impl View for ManifestExecution {
    type V = (Option<Seq<char>>, Option<Seq<char>>);

    open spec fn view(&self) -> (Option<Seq<char>>, Option<Seq<char>>) {
        (opt_view(self.timeout), opt_view(self.memory))
    }
}

/// A decoded Pit Manifest. The maps of the file are held as sequences in
/// their key order (`manifest_keys_ordered`).
#[derive(Debug)]
pub struct PitManifest {
    pub schema: u32,
    pub name: Option<String>,
    pub service: Option<ServiceSpec>,
    pub services: Vec<NamedService>,
    pub resources: Vec<NamedResource>,
    pub routes: Vec<Route>,
    pub execution: ManifestExecution,
}

pub struct PitManifestView {
    pub schema: u32,
    pub name: Option<Seq<char>>,
    pub service: Option<ServiceSpecView>,
    pub services: Seq<(Seq<char>, ServiceSpecView)>,
    pub resources: Seq<(Seq<char>, (Seq<char>, Seq<char>))>,
    pub routes: Seq<(Seq<char>, Seq<char>)>,
    pub execution: (Option<Seq<char>>, Option<Seq<char>>),
}

impl View for PitManifest {
    type V = PitManifestView;

    open spec fn view(&self) -> PitManifestView {
        PitManifestView {
            schema: self.schema,
            name: opt_view(self.name),
            service: match self.service {
                Some(s) => Some(s@),
                None => None,
            },
            services: self.services@.map_values(|s: NamedService| s@),
            resources: resources_view(self.resources@),
            routes: routes_view(self.routes@),
            execution: self.execution@,
        }
    }
}

/// Each key comes strictly before the next, as the keys of a sorted map do.
pub open spec fn keys_ascending(keys: Seq<Seq<char>>) -> bool {
    forall|i: int, j: int| 0 <= i < j < keys.len() ==> lex_lt(#[trigger] keys[i], #[trigger] keys[j])
}

pub open spec fn binding_keys(spec: ServiceSpecView) -> Seq<Seq<char>> {
    spec.resources.map_values(|b: (Seq<char>, Seq<char>)| b.0)
}

pub open spec fn service_keys(m: PitManifestView) -> Seq<Seq<char>> {
    m.services.map_values(|s: (Seq<char>, ServiceSpecView)| s.0)
}

pub open spec fn route_keys(m: PitManifestView) -> Seq<Seq<char>> {
    m.routes.map_values(|r: (Seq<char>, Seq<char>)| r.0)
}

/// The manifest's maps (services, resources, routes and each service's
/// bindings) hold their keys in ascending order, each key once.
pub open spec fn manifest_keys_ordered(m: PitManifestView) -> bool {
    &&& keys_ascending(service_keys(m))
    &&& keys_ascending(resource_ids(m))
    &&& keys_ascending(route_keys(m))
    &&& forall|i: int| 0 <= i < m.services.len() ==> keys_ascending(binding_keys(#[trigger] m.services[i].1))
    &&& m.service matches Some(spec) ==> keys_ascending(binding_keys(spec))
}

pub open spec fn char_texts(v: Seq<Vec<char>>) -> Seq<Seq<char>> {
    v.map_values(|t: Vec<char>| t@)
}

/// Whether the keys ascend strictly; checking each neighbouring pair suffices.
fn texts_ascending(keys: &Vec<Vec<char>>) -> (r: bool)
    ensures
        r == keys_ascending(char_texts(keys@)),
{
    let ghost ks = char_texts(keys@);
    if keys.len() == 0 {
        return true;
    }
    let mut k: usize = 1;
    while k < keys.len()
        invariant
            1 <= k <= keys@.len(),
            ks == char_texts(keys@),
            forall|i: int, j: int| 0 <= i < j < k ==> lex_lt(#[trigger] ks[i], #[trigger] ks[j]),
        decreases keys.len() - k,
    {
        if !chars_lt(&keys[k - 1], &keys[k]) {
            assert(!lex_lt(ks[k - 1], ks[k as int]));
            return false;
        }
        proof {
            assert forall|i: int, j: int| 0 <= i < j < k + 1 implies lex_lt(#[trigger] ks[i], #[trigger] ks[j]) by {
                if j == k && i < k - 1 {
                    crate::text::lemma_lex_lt_transitive(ks[i], ks[k - 1], ks[j]);
                }
            }
        }
        k = k + 1;
    }
    true
}

fn binding_keys_of(spec: &ServiceSpec) -> (r: Vec<Vec<char>>)
    ensures
        char_texts(r@) == binding_keys(spec@),
{
    let mut r: Vec<Vec<char>> = Vec::new();
    let mut i: usize = 0;
    while i < spec.resources.len()
        invariant
            i <= spec.resources@.len(),
            char_texts(r@) == binding_keys(spec@).take(i as int),
        decreases spec.resources.len() - i,
    {
        let ghost before = char_texts(r@);
        r.push(chars_of(spec.resources[i].variable.as_str()));
        proof {
            assert(char_texts(r@) =~= before.push(spec.resources@[i as int].variable@));
            assert(binding_keys(spec@).take(i + 1) =~= binding_keys(spec@).take(i as int).push(binding_keys(spec@)[i as int]));
        }
        i = i + 1;
        assert(char_texts(r@) =~= binding_keys(spec@).take(i as int));
    }
    assert(binding_keys(spec@).take(i as int) =~= binding_keys(spec@));
    r
}

/// Whether the manifest's maps hold their keys in ascending order, each
/// once, as `plan` requires.
pub fn manifest_keys_in_order(m: &PitManifest) -> (r: bool)
    ensures
        r == manifest_keys_ordered(m@),
{
    let mut services: Vec<Vec<char>> = Vec::new();
    let mut i: usize = 0;
    let mut bindings_ok = true;
    while i < m.services.len()
        invariant
            i <= m.services@.len(),
            char_texts(services@) == service_keys(m@).take(i as int),
            bindings_ok == forall|k: int| 0 <= k < i ==> keys_ascending(binding_keys(#[trigger] m@.services[k].1)),
        decreases m.services.len() - i,
    {
        let ghost before = char_texts(services@);
        services.push(chars_of(m.services[i].id.as_str()));
        proof {
            assert(char_texts(services@) =~= before.push(m.services@[i as int].id@));
            assert(service_keys(m@).take(i + 1) =~= service_keys(m@).take(i as int).push(service_keys(m@)[i as int]));
        }
        let b = texts_ascending(&binding_keys_of(&m.services[i].spec));
        assert(m@.services[i as int].1 == m.services@[i as int].spec@);
        bindings_ok = bindings_ok && b;
        i = i + 1;
        assert(char_texts(services@) =~= service_keys(m@).take(i as int));
    }
    assert(service_keys(m@).take(i as int) =~= service_keys(m@));
    let mut resources: Vec<Vec<char>> = Vec::new();
    let mut j: usize = 0;
    while j < m.resources.len()
        invariant
            j <= m.resources@.len(),
            char_texts(resources@) == resource_ids(m@).take(j as int),
        decreases m.resources.len() - j,
    {
        let ghost before = char_texts(resources@);
        resources.push(chars_of(m.resources[j].id.as_str()));
        proof {
            assert(char_texts(resources@) =~= before.push(m.resources@[j as int].id@));
            assert(resource_ids(m@).take(j + 1) =~= resource_ids(m@).take(j as int).push(resource_ids(m@)[j as int]));
        }
        j = j + 1;
        assert(char_texts(resources@) =~= resource_ids(m@).take(j as int));
    }
    assert(resource_ids(m@).take(j as int) =~= resource_ids(m@));
    let mut routes: Vec<Vec<char>> = Vec::new();
    let mut k: usize = 0;
    while k < m.routes.len()
        invariant
            k <= m.routes@.len(),
            char_texts(routes@) == route_keys(m@).take(k as int),
        decreases m.routes.len() - k,
    {
        let ghost before = char_texts(routes@);
        routes.push(chars_of(m.routes[k].path.as_str()));
        proof {
            assert(char_texts(routes@) =~= before.push(m.routes@[k as int].path@));
            assert(route_keys(m@).take(k + 1) =~= route_keys(m@).take(k as int).push(route_keys(m@)[k as int]));
        }
        k = k + 1;
        assert(char_texts(routes@) =~= route_keys(m@).take(k as int));
    }
    assert(route_keys(m@).take(k as int) =~= route_keys(m@));
    let single_ok = match &m.service {
        Some(spec) => texts_ascending(&binding_keys_of(spec)),
        None => true,
    };
    texts_ascending(&services) && texts_ascending(&resources) && texts_ascending(&routes) && bindings_ok
        && single_ok
}

/// Execution limits applied to built artifacts.
#[derive(Debug, Clone, Copy, PartialEq, Eq, Structural, Default)]
pub struct ExecutionDefaults {
    pub timeout_ms: Option<u64>,
    pub memory_bytes: Option<u64>,
}

/// The execution limits that `[execution]` (or `pit.toml`'s `[execution]`)
/// asks for; the timeout is checked first.
pub open spec fn execution_defaults_spec(
    timeout: Option<Seq<char>>,
    memory: Option<Seq<char>>,
) -> Result<ExecutionDefaults, UnitError> {
    let t = match timeout {
        Some(v) => match duration_ms_spec(v) {
            Ok(ms) => Ok(Some(ms)),
            Err(e) => Err(e),
        },
        None => Ok(None),
    };
    let m = match memory {
        Some(v) => match memory_bytes_spec(v) {
            Ok(b) => Ok(Some(b)),
            Err(e) => Err(e),
        },
        None => Ok(None),
    };
    match t {
        Err(e) => Err(e),
        Ok(timeout_ms) => match m {
            Err(e) => Err(e),
            Ok(memory_bytes) => Ok(ExecutionDefaults { timeout_ms, memory_bytes }),
        },
    }
}

/// Parses optional timeout and memory texts into execution limits.
pub fn execution_limits(timeout: &Option<String>, memory: &Option<String>) -> (r: Result<
    ExecutionDefaults,
    UnitError,
>)
    ensures
        r == execution_defaults_spec(opt_view(*timeout), opt_view(*memory)),
{
    let timeout_ms = match timeout {
        Some(v) => Some(parse_duration_ms(v.as_str())?),
        None => None,
    };
    let memory_bytes = match memory {
        Some(v) => Some(parse_memory_bytes(v.as_str())?),
        None => None,
    };
    Ok(ExecutionDefaults { timeout_ms, memory_bytes })
}

/// The execution limits of a manifest's `[execution]` table.
pub fn manifest_execution_defaults(execution: &ManifestExecution) -> (r: Result<
    ExecutionDefaults,
    UnitError,
>)
    ensures
        r == execution_defaults_spec(execution@.0, execution@.1),
{
    execution_limits(&execution.timeout, &execution.memory)
}


/// The kinds of failure in choosing and loading a manifest.
#[derive(Debug, Clone, Copy, PartialEq, Eq, Structural)]
pub enum ManifestErrorKind {
    /// `--file` names no regular file.
    ExplicitNotFound,
    /// `--file` names a file without the `.pit` extension.
    NotPitFile,
    /// The directory holds no `*.pit` file.
    NoneFound,
    /// The directory holds several `*.pit` files and no `app.pit`.
    Ambiguous,
    /// The file is not a valid schema-1 TOML manifest.
    Malformed,
    /// The manifest declares a schema other than this version's.
    UnsupportedSchema,
    /// The manifest's path has no parent directory.
    NoParent,
}

/// A manifest failure and the message the CLI prints for it.
#[derive(Debug)]
pub struct ManifestError {
    pub kind: ManifestErrorKind,
    pub message: String,
}

impl View for ManifestError {
    type V = (ManifestErrorKind, Seq<char>);

    open spec fn view(&self) -> (ManifestErrorKind, Seq<char>) {
        (self.kind, self.message@)
    }
}

/// An entry of the directory being searched.
#[derive(Debug)]
pub struct DirEntry {
    pub name: String,
    pub is_file: bool,
}

/// The manifest named with `--file`, joined to the working directory.
#[derive(Debug)]
pub struct ExplicitTarget {
    pub path: String,
    pub is_file: bool,
}

/// Whether a file name has the `pit` extension as `Path::extension` reads it:
/// text after a final `.` that is not the name's first character.
pub open spec fn is_pit_name(name: Seq<char>) -> bool {
    name.len() > 4 && ends_with(name, seq!['.', 'p', 'i', 't'])
}

pub fn has_pit_extension(name: &Vec<char>) -> (r: bool)
    ensures
        r == is_pit_name(name@),
{
    let ext = vec!['.', 'p', 'i', 't'];
    assert(ext@ =~= seq!['.', 'p', 'i', 't']);
    name.len() > 4 && has_suffix(name, &ext)
}

/// The regular `*.pit` files of a directory listing, in listing order.
pub open spec fn pit_files(entries: Seq<DirEntry>) -> Seq<Seq<char>>
    decreases entries.len(),
{
    if entries.len() == 0 {
        Seq::empty()
    } else {
        let e = entries.last();
        let rest = pit_files(entries.drop_last());
        if e.is_file && is_pit_name(e.name@) {
            rest.push(e.name@)
        } else {
            rest
        }
    }
}

/// The lines naming each path, two spaces in front, separated by newlines.
pub open spec fn path_listing(paths: Seq<Seq<char>>) -> Seq<char>
    decreases paths.len(),
{
    if paths.len() == 0 {
        Seq::empty()
    } else if paths.len() == 1 {
        "  "@ + paths[0]
    } else {
        path_listing(paths.drop_last()) + "\n  "@ + paths.last()
    }
}

pub open spec fn explicit_not_found_text(path: Seq<char>) -> Seq<char> {
    "ManifestNotFound: explicit Pit Manifest does not exist or is not a regular file: "@ + path
}

pub open spec fn not_pit_file_text(path: Seq<char>) -> Seq<char> {
    "invalid Pit Manifest path "@ + path + "; expected a .pit file"@
}

pub open spec fn none_found_text(dir: Seq<char>) -> Seq<char> {
    "ManifestNotFound: no *.pit manifest found in "@ + dir + "; run `pit init`"@
}

pub open spec fn ambiguous_text(paths: Seq<Seq<char>>) -> Seq<char> {
    "AmbiguousManifest: multiple Pit manifests found:\n"@ + path_listing(paths)
        + "\nChoose one with `pit up --file <manifest>`"@
}

pub open spec fn malformed_text(path: Seq<char>, detail: Seq<char>) -> Seq<char> {
    "malformed Pit Manifest "@ + path + " (expected schema = 1 TOML): "@ + detail
}

pub open spec fn unsupported_schema_text(schema: u32) -> Seq<char> {
    "Unsupported Pit Manifest schema: "@ + decimal(schema as nat)
        + "\nThis PitFast version supports schema 1."@
}

/// The outcome of choosing a manifest: its path, or why none is chosen.
/// With `--file` the named file must exist and end in `.pit`; otherwise the
/// directory's only `*.pit` file is used, `app.pit` breaks a tie, and
/// several without `app.pit` are refused, listed in sorted order.
pub open spec fn selection(
    dir: Seq<char>,
    entries: Seq<DirEntry>,
    explicit: Option<(Seq<char>, bool)>,
) -> Result<Seq<char>, ManifestErrorKind> {
    match explicit {
        Some((path, is_file)) => if !is_file {
            Err(ManifestErrorKind::ExplicitNotFound)
        } else if !is_pit_name(last_segment(path)) {
            Err(ManifestErrorKind::NotPitFile)
        } else {
            Ok(path)
        },
        None => {
            let files = pit_files(entries);
            if files.len() == 0 {
                Err(ManifestErrorKind::NoneFound)
            } else if files.len() == 1 {
                Ok(joined(dir, files[0]))
            } else if files.contains("app.pit"@) {
                Ok(joined(dir, "app.pit"@))
            } else {
                Err(ManifestErrorKind::Ambiguous)
            }
        },
    }
}

/// The message of a selection failure other than an ambiguous directory.
pub open spec fn selection_message(
    kind: ManifestErrorKind,
    dir: Seq<char>,
    explicit_path: Seq<char>,
) -> Seq<char> {
    match kind {
        ManifestErrorKind::ExplicitNotFound => explicit_not_found_text(explicit_path),
        ManifestErrorKind::NotPitFile => not_pit_file_text(explicit_path),
        _ => none_found_text(dir),
    }
}

/// `sorted` is the list `files` in lexicographic order.
pub open spec fn sorted_listing(sorted: Seq<Seq<char>>, files: Seq<Seq<char>>) -> bool {
    sorted.to_multiset() == files.to_multiset() && lex_sorted(sorted)
}

pub open spec fn explicit_view(e: Option<ExplicitTarget>) -> Option<(Seq<char>, bool)> {
    match e {
        Some(t) => Some((t.path@, t.is_file)),
        None => None,
    }
}

/// The path a `--file` argument names, relative to `cwd` unless absolute.
pub fn explicit_manifest_path(cwd: &str, explicit: &str) -> (p: String)
    ensures
        p@ == joined(cwd@, explicit@),
{
    join_path(cwd, explicit)
}

fn collect_pit_files(entries: &Vec<DirEntry>) -> (out: Vec<Vec<char>>)
    ensures
        out@.map_values(|t: Vec<char>| t@) == pit_files(entries@),
{
    let mut out: Vec<Vec<char>> = Vec::new();
    let mut i: usize = 0;
    while i < entries.len()
        invariant
            i <= entries@.len(),
            out@.map_values(|t: Vec<char>| t@) == pit_files(entries@.subrange(0, i as int)),
        decreases entries.len() - i,
    {
        let name = chars_of(entries[i].name.as_str());
        proof {
            let pre = entries@.subrange(0, i + 1);
            assert(pre.drop_last() =~= entries@.subrange(0, i as int));
            assert(pre.last() == entries@[i as int]);
        }
        if entries[i].is_file && has_pit_extension(&name) {
            let ghost before = out@;
            out.push(name);
            assert(out@.map_values(|t: Vec<char>| t@) =~= before.map_values(|t: Vec<char>| t@).push(
                entries@[i as int].name@,
            ));
        }
        i = i + 1;
    }
    assert(entries@.subrange(0, entries@.len() as int) =~= entries@);
    out
}

/// Whether a directory holds a `*.pit` manifest at all.
pub fn manifest_present(entries: &Vec<DirEntry>) -> (r: bool)
    ensures
        r == (pit_files(entries@).len() > 0),
{
    collect_pit_files(entries).len() > 0
}

fn error(kind: ManifestErrorKind, message: Vec<char>) -> (e: ManifestError)
    ensures
        e@ == (kind, message@),
{
    ManifestError { kind, message: string_of(&message) }
}

fn path_listing_of(dir: &str, names: &Vec<Vec<char>>, out: &mut Vec<char>)
    requires
        names@.len() > 0,
    ensures
        final(out)@ == old(out)@ + path_listing(
            names@.map_values(|t: Vec<char>| t@).map_values(|n: Seq<char>| joined(dir@, n)),
        ),
{
    let ghost all = names@.map_values(|t: Vec<char>| t@).map_values(|n: Seq<char>| joined(dir@, n));
    let mut i: usize = 0;
    while i < names.len()
        invariant
            i <= names@.len(),
            names@.len() > 0,
            all == names@.map_values(|t: Vec<char>| t@).map_values(|n: Seq<char>| joined(dir@, n)),
            out@ == old(out)@ + path_listing(all.take(i as int)),
        decreases names.len() - i,
    {
        if i == 0 {
            push_str(out, "  ");
        } else {
            push_str(out, "\n  ");
        }
        let name = string_of(&names[i]);
        let full = join_path(dir, name.as_str());
        push_str(out, full.as_str());
        proof {
            let pre = all.take(i + 1);
            assert(pre.drop_last() =~= all.take(i as int));
            assert(pre.last() == full@);
            if i == 0 {
                assert(all.take(0) =~= Seq::<Seq<char>>::empty());
            }
        }
        i = i + 1;
    }
    assert(all.take(names@.len() as int) =~= all);
}

/// Chooses the manifest a command uses, from the `--file` target when one is
/// given and otherwise from the entries of the directory `dir`; this never
/// looks at any other directory.
pub fn select_manifest(dir: &str, entries: &Vec<DirEntry>, explicit: &Option<ExplicitTarget>) -> (r:
    Result<String, ManifestError>)
    ensures
        match selection(dir@, entries@, explicit_view(*explicit)) {
            Ok(path) => r matches Ok(p) && p@ == path,
            Err(kind) => r matches Err(e) && e.kind == kind && if kind
                == ManifestErrorKind::Ambiguous {
                exists|sorted: Seq<Seq<char>>|
                    sorted_listing(sorted, pit_files(entries@)) && e.message@ == ambiguous_text(
                        sorted.map_values(|n: Seq<char>| joined(dir@, n)),
                    )
            } else {
                e.message@ == selection_message(
                    kind,
                    dir@,
                    match explicit_view(*explicit) {
                        Some((p, _)) => p,
                        None => Seq::empty(),
                    },
                )
            },
        },
{
    let mut m: Vec<char> = Vec::new();
    match explicit {
        Some(target) => {
            if !target.is_file {
                push_str(
                    &mut m,
                    "ManifestNotFound: explicit Pit Manifest does not exist or is not a regular file: ",
                );
                push_str(&mut m, target.path.as_str());
                return Err(error(ManifestErrorKind::ExplicitNotFound, m));
            }
            let path = chars_of(target.path.as_str());
            let name = last_segment_of(&path);
            if !has_pit_extension(&name) {
                push_str(&mut m, "invalid Pit Manifest path ");
                push_str(&mut m, target.path.as_str());
                push_str(&mut m, "; expected a .pit file");
                return Err(error(ManifestErrorKind::NotPitFile, m));
            }
            Ok(copy_text(&target.path))
        },
        None => {
            let files = collect_pit_files(entries);
            let ghost fs = files@.map_values(|t: Vec<char>| t@);
            if files.len() == 0 {
                push_str(&mut m, "ManifestNotFound: no *.pit manifest found in ");
                push_str(&mut m, dir);
                push_str(&mut m, "; run `pit init`");
                return Err(error(ManifestErrorKind::NoneFound, m));
            }
            if files.len() == 1 {
                let name = string_of(&files[0]);
                assert(name@ == fs[0]);
                return Ok(join_path(dir, name.as_str()));
            }
            let app = chars_of("app.pit");
            let mut k: usize = 0;
            while k < files.len()
                invariant
                    k <= files@.len(),
                    fs == files@.map_values(|t: Vec<char>| t@),
                    fs == pit_files(entries@),
                    fs.len() > 1,
                    explicit_view(*explicit) is None,
                    app@ == "app.pit"@,
                    forall|j: int| 0 <= j < k ==> fs[j] != "app.pit"@,
                decreases files.len() - k,
            {
                if same_chars(&files[k], &app) {
                    assert(fs[k as int] == "app.pit"@);
                    assert(fs.contains("app.pit"@));
                    return Ok(join_path(dir, "app.pit"));
                }
                k = k + 1;
            }
            assert(!fs.contains("app.pit"@));
            let sorted = sort_texts(files);
            push_str(&mut m, "AmbiguousManifest: multiple Pit manifests found:\n");
            proof {
                assert(sorted@.map_values(|t: Vec<char>| t@).to_multiset().len() == fs.to_multiset().len());
                fs.to_multiset_ensures();
                sorted@.map_values(|t: Vec<char>| t@).to_multiset_ensures();
            }
            path_listing_of(dir, &sorted, &mut m);
            push_str(&mut m, "\nChoose one with `pit up --file <manifest>`");
            let e = error(ManifestErrorKind::Ambiguous, m);
            proof {
                let ss = sorted@.map_values(|t: Vec<char>| t@);
                assert(sorted_listing(ss, pit_files(entries@)));
                assert(e.message@ == ambiguous_text(ss.map_values(|n: Seq<char>| joined(dir@, n))));
            }
            Err(e)
        },
    }
}

/// A manifest chosen, read and decoded: its canonical path, the directory
/// that holds it, the manifest and the digest of its text.
#[derive(Debug)]
pub struct ResolvedManifest {
    pub path: String,
    pub root: String,
    pub manifest: PitManifest,
    pub digest: String,
}

pub struct ResolvedManifestView {
    pub path: Seq<char>,
    pub root: Seq<char>,
    pub manifest: PitManifestView,
    pub digest: Seq<char>,
}

impl View for ResolvedManifest {
    type V = ResolvedManifestView;

    open spec fn view(&self) -> ResolvedManifestView {
        ResolvedManifestView {
            path: self.path@,
            root: self.root@,
            manifest: self.manifest@,
            digest: self.digest@,
        }
    }
}

/// The failure for a manifest whose text does not decode; `detail` is the
/// decoder's own message.
pub fn malformed(path: &str, detail: &str) -> (e: ManifestError)
    ensures
        e@ == (ManifestErrorKind::Malformed, malformed_text(path@, detail@)),
{
    let mut m: Vec<char> = Vec::new();
    push_str(&mut m, "malformed Pit Manifest ");
    push_str(&mut m, path);
    push_str(&mut m, " (expected schema = 1 TOML): ");
    push_str(&mut m, detail);
    error(ManifestErrorKind::Malformed, m)
}

/// Accepts a decoded manifest read from `path` when its schema is the
/// supported one and the path has a parent directory, which becomes the
/// root that the manifest's paths resolve against; records the digest of
/// its text.
pub fn resolve(path: &str, contents: &str, manifest: PitManifest) -> (r: Result<
    ResolvedManifest,
    ManifestError,
>)
    ensures
        manifest.schema != SCHEMA_VERSION ==> (r matches Err(e) && e@ == (
            ManifestErrorKind::UnsupportedSchema,
            unsupported_schema_text(manifest.schema),
        )),
        manifest.schema == SCHEMA_VERSION && parent_of(path@) is None ==> (r matches Err(e) && e@ == (
            ManifestErrorKind::NoParent,
            "Pit Manifest has no parent directory"@,
        )),
        manifest.schema == SCHEMA_VERSION && parent_of(path@) is Some ==> (r matches Ok(rm) && rm@ == (
            ResolvedManifestView {
                path: path@,
                root: parent_of(path@)->0,
                manifest: manifest@,
                digest: digest_text(contents),
            })),
        r matches Ok(rm) ==> rm.digest@.len() == 71 && rm.digest@.take(7) == "sha256:"@
            && forall|i: int| 7 <= i < 71 ==> is_hex_lower(#[trigger] rm.digest@[i]),
{
    if manifest.schema != SCHEMA_VERSION {
        let mut m: Vec<char> = Vec::new();
        push_str(&mut m, "Unsupported Pit Manifest schema: ");
        push_decimal(&mut m, manifest.schema as u128);
        push_str(&mut m, "\nThis PitFast version supports schema 1.");
        return Err(error(ManifestErrorKind::UnsupportedSchema, m));
    }
    let digest = content_digest(contents);
    let root = match path_parent(path) {
        Some(root) => root,
        None => {
            let mut m: Vec<char> = Vec::new();
            push_str(&mut m, "Pit Manifest has no parent directory");
            return Err(error(ManifestErrorKind::NoParent, m));
        },
    };
    proof {
        reveal_strlit("sha256:");
        assert(digest@.take(7) =~= "sha256:"@);
    }
    Ok(ResolvedManifest { path: String::from_str(path), root, manifest, digest })
}


/// The kinds of failure in planning an application from its manifest.
#[derive(Debug, Clone, Copy, PartialEq, Eq, Structural)]
pub enum PlanErrorKind {
    BothServiceForms,
    InvalidServiceIdentity,
    BuildDirectoryMissing,
    PathUnreadable,
    ArtifactMissing,
    NoServices,
    InvalidResourceIdentity,
    EmptyResource,
    UnknownResource,
    InvalidRoutePath,
    InvalidRouteTarget,
    UnknownRouteService,
    DuplicateRoute,
    Execution(UnitError),
}

/// A planning failure and the message the CLI prints for it.
#[derive(Debug)]
pub struct PlanError {
    pub kind: PlanErrorKind,
    pub message: String,
}

impl View for PlanError {
    type V = (PlanErrorKind, Seq<char>);

    open spec fn view(&self) -> (PlanErrorKind, Seq<char>) {
        (self.kind, self.message@)
    }
}

/// What the file system showed of a path that a service names.
#[derive(Debug)]
pub enum PathStatus {
    /// The path is not a directory (for a build) or not a file (for an artifact).
    Missing,
    /// The path exists; its canonical form.
    Found(String),
    /// The path exists but could not be made canonical; the error text.
    Unreadable(String),
}

pub enum PathStatusView {
    Missing,
    Found(Seq<char>),
    Unreadable(Seq<char>),
}

impl View for PathStatus {
    type V = PathStatusView;

    open spec fn view(&self) -> PathStatusView {
        match self {
            PathStatus::Missing => PathStatusView::Missing,
            PathStatus::Found(p) => PathStatusView::Found(p@),
            PathStatus::Unreadable(e) => PathStatusView::Unreadable(e@),
        }
    }
}

/// What the caller found for one service: whether its identity is a valid
/// service identity, and the status of its build directory and artifact
/// (the latter only consulted when the service names one).
#[derive(Debug)]
pub struct ServiceFacts {
    pub id_valid: bool,
    pub project_dir: PathStatus,
    pub artifact: PathStatus,
}

pub struct ServiceFactsView {
    pub id_valid: bool,
    pub project_dir: PathStatusView,
    pub artifact: PathStatusView,
}

impl View for ServiceFacts {
    type V = ServiceFactsView;

    open spec fn view(&self) -> ServiceFactsView {
        ServiceFactsView {
            id_valid: self.id_valid,
            project_dir: self.project_dir@,
            artifact: self.artifact@,
        }
    }
}

/// What the caller found for a manifest: facts per service candidate (in
/// the order of `service_candidates`), whether each resource key is a valid
/// resource identity, and whether each route target is a valid service
/// identity (both in manifest order).
#[derive(Debug)]
pub struct PlanFacts {
    pub services: Vec<ServiceFacts>,
    pub resource_ids_valid: Vec<bool>,
    pub route_targets_valid: Vec<bool>,
}

/// A service of the plan: its identity, its specification, and the
/// canonical project directory and artifact path.
#[derive(Debug)]
pub struct ResolvedService {
    pub id: String,
    pub spec: ServiceSpec,
    pub project_dir: String,
    pub artifact_path: Option<String>,
}

pub struct ResolvedServiceView {
    pub id: Seq<char>,
    pub spec: ServiceSpecView,
    pub project_dir: Seq<char>,
    pub artifact_path: Option<Seq<char>>,
}

impl View for ResolvedService {
    type V = ResolvedServiceView;

    open spec fn view(&self) -> ResolvedServiceView {
        ResolvedServiceView {
            id: self.id@,
            spec: self.spec@,
            project_dir: self.project_dir@,
            artifact_path: opt_view(self.artifact_path),
        }
    }
}

pub open spec fn services_view(v: Seq<ResolvedService>) -> Seq<ResolvedServiceView> {
    v.map_values(|s: ResolvedService| s@)
}

/// A validated application: everything a build or deployment needs.
#[derive(Debug)]
pub struct ApplicationPlan {
    pub manifest: ResolvedManifest,
    pub application_name: String,
    pub services: Vec<ResolvedService>,
    pub resources: Vec<NamedResource>,
    pub routes: Vec<Route>,
    pub execution: ExecutionDefaults,
}

pub struct ApplicationPlanView {
    pub manifest: ResolvedManifestView,
    pub application_name: Seq<char>,
    pub services: Seq<ResolvedServiceView>,
    pub resources: Seq<(Seq<char>, (Seq<char>, Seq<char>))>,
    pub routes: Seq<(Seq<char>, Seq<char>)>,
    pub execution: ExecutionDefaults,
}

impl View for ApplicationPlan {
    type V = ApplicationPlanView;

    open spec fn view(&self) -> ApplicationPlanView {
        ApplicationPlanView {
            manifest: self.manifest@,
            application_name: self.application_name@,
            services: services_view(self.services@),
            resources: resources_view(self.resources@),
            routes: routes_view(self.routes@),
            execution: self.execution,
        }
    }
}

/// The identity of the single `[service]`: its own `id`, else the
/// manifest's `name`, else `app`.
pub open spec fn default_service_id(m: PitManifestView, spec: ServiceSpecView) -> Seq<char> {
    match spec.id {
        Some(id) => id,
        None => match m.name {
            Some(n) => n,
            None => "app"@,
        },
    }
}

/// The services a manifest declares, with their identities: the single
/// `[service]` when present, else each `[services.<id>]` in key order.
pub open spec fn candidates(m: PitManifestView) -> Seq<(Seq<char>, ServiceSpecView)> {
    match m.service {
        Some(spec) => seq![(default_service_id(m, spec), spec)],
        None => m.services,
    }
}

/// The outcome for one service, as `resolve_service` decides it.
pub open spec fn service_outcome(
    rm: ResolvedManifestView,
    id: Seq<char>,
    spec: ServiceSpecView,
    f: ServiceFactsView,
) -> Result<ResolvedServiceView, (PlanErrorKind, Seq<char>)> {
    if !f.id_valid {
        Err(
            (
                PlanErrorKind::InvalidServiceIdentity,
                "invalid service identity '"@ + id + "' in "@ + rm.path,
            ),
        )
    } else {
        match f.project_dir {
            PathStatusView::Missing => Err(
                (
                    PlanErrorKind::BuildDirectoryMissing,
                    "service '"@ + id + "' build directory does not exist: "@ + joined(
                        rm.root,
                        spec.build,
                    ),
                ),
            ),
            PathStatusView::Unreadable(e) => Err((PlanErrorKind::PathUnreadable, e)),
            PathStatusView::Found(dir) => match spec.artifact {
                None => Ok(
                    ResolvedServiceView { id, spec, project_dir: dir, artifact_path: None },
                ),
                Some(a) => match f.artifact {
                    PathStatusView::Missing => Err(
                        (
                            PlanErrorKind::ArtifactMissing,
                            "service '"@ + id + "' artifact does not exist: "@ + joined(
                                rm.root,
                                a,
                            ),
                        ),
                    ),
                    PathStatusView::Unreadable(e) => Err((PlanErrorKind::PathUnreadable, e)),
                    PathStatusView::Found(p) => Ok(
                        ResolvedServiceView { id, spec, project_dir: dir, artifact_path: Some(p) },
                    ),
                },
            },
        }
    }
}

/// The first `n` candidates resolved in order, or the first failure.
pub open spec fn services_outcome(
    rm: ResolvedManifestView,
    facts: Seq<ServiceFactsView>,
    n: nat,
) -> Result<Seq<ResolvedServiceView>, (PlanErrorKind, Seq<char>)>
    decreases n,
{
    if n == 0 {
        Ok(Seq::empty())
    } else {
        match services_outcome(rm, facts, (n - 1) as nat) {
            Err(e) => Err(e),
            Ok(done) => {
                let c = candidates(rm.manifest)[n - 1];
                match service_outcome(rm, c.0, c.1, facts[n - 1]) {
                    Err(e) => Err(e),
                    Ok(s) => Ok(done.push(s)),
                }
            },
        }
    }
}

/// The first failure among the first `n` resources: an invalid identity, or
/// a `type` or `from` that is empty after trimming.
pub open spec fn resources_error(
    rm: ResolvedManifestView,
    valid: Seq<bool>,
    n: nat,
) -> Option<(PlanErrorKind, Seq<char>)>
    decreases n,
{
    if n == 0 {
        None
    } else {
        match resources_error(rm, valid, (n - 1) as nat) {
            Some(e) => Some(e),
            None => {
                let r = rm.manifest.resources[n - 1];
                if !valid[n - 1] {
                    Some(
                        (
                            PlanErrorKind::InvalidResourceIdentity,
                            "invalid resource identity '"@ + r.0 + "' in "@ + rm.path,
                        ),
                    )
                } else if trim(r.1.0).len() == 0 || trim(r.1.1).len() == 0 {
                    Some(
                        (
                            PlanErrorKind::EmptyResource,
                            "resource '"@ + r.0 + "' must define non-empty type and from values"@,
                        ),
                    )
                } else {
                    None
                }
            },
        }
    }
}

pub open spec fn resource_ids(m: PitManifestView) -> Seq<Seq<char>> {
    m.resources.map_values(|r: (Seq<char>, (Seq<char>, Seq<char>))| r.0)
}

/// The first of a service's first `k` bindings that names no resource.
pub open spec fn binding_error(
    s: ResolvedServiceView,
    ids: Seq<Seq<char>>,
    k: nat,
) -> Option<(PlanErrorKind, Seq<char>)>
    decreases k,
{
    if k == 0 {
        None
    } else {
        match binding_error(s, ids, (k - 1) as nat) {
            Some(e) => Some(e),
            None => {
                let b = s.spec.resources[k - 1];
                if ids.contains(b.1) {
                    None
                } else {
                    Some(
                        (
                            PlanErrorKind::UnknownResource,
                            "service '"@ + s.id + "' binds unknown resource '"@ + b.1 + "' as '"@
                                + b.0 + "'"@,
                        ),
                    )
                }
            },
        }
    }
}

/// The first unknown binding among the first `n` services.
pub open spec fn bindings_error(
    services: Seq<ResolvedServiceView>,
    ids: Seq<Seq<char>>,
    n: nat,
) -> Option<(PlanErrorKind, Seq<char>)>
    decreases n,
{
    if n == 0 {
        None
    } else {
        match bindings_error(services, ids, (n - 1) as nat) {
            Some(e) => Some(e),
            None => {
                let s = services[n - 1];
                binding_error(s, ids, s.spec.resources.len())
            },
        }
    }
}

/// A route path begins with `/` and holds no line break.
pub open spec fn route_path_ok(p: Seq<char>) -> bool {
    p.len() > 0 && p[0] == '/' && !p.contains('\n') && !p.contains('\r')
}

pub open spec fn service_ids(services: Seq<ResolvedServiceView>) -> Seq<Seq<char>> {
    services.map_values(|s: ResolvedServiceView| s.id)
}

/// The first `n` routes validated in order, or the first failure.
pub open spec fn routes_outcome(
    rm: ResolvedManifestView,
    services: Seq<ResolvedServiceView>,
    valid: Seq<bool>,
    n: nat,
) -> Result<Seq<(Seq<char>, Seq<char>)>, (PlanErrorKind, Seq<char>)>
    decreases n,
{
    if n == 0 {
        Ok(Seq::empty())
    } else {
        match routes_outcome(rm, services, valid, (n - 1) as nat) {
            Err(e) => Err(e),
            Ok(done) => {
                let r = rm.manifest.routes[n - 1];
                if !route_path_ok(r.0) {
                    Err(
                        (
                            PlanErrorKind::InvalidRoutePath,
                            "invalid route path '"@ + r.0 + "'; routes must begin with '/'"@,
                        ),
                    )
                } else if !valid[n - 1] {
                    Err(
                        (
                            PlanErrorKind::InvalidRouteTarget,
                            "invalid route target '"@ + r.1 + "' for route '"@ + r.0 + "'"@,
                        ),
                    )
                } else if !service_ids(services).contains(r.1) {
                    Err(
                        (
                            PlanErrorKind::UnknownRouteService,
                            "route '"@ + r.0 + "' targets unknown service '"@ + r.1 + "'"@,
                        ),
                    )
                } else if done.map_values(|d: (Seq<char>, Seq<char>)| d.0).contains(r.0) {
                    Err((PlanErrorKind::DuplicateRoute, "duplicate route '"@ + r.0 + "'"@))
                } else {
                    Ok(done.push(r))
                }
            },
        }
    }
}

/// The application's name: the manifest's `name`, else the name of the
/// directory that holds the manifest.
pub open spec fn application_name(rm: ResolvedManifestView) -> Seq<char> {
    match rm.manifest.name {
        Some(n) => n,
        None => last_segment(rm.root),
    }
}

pub open spec fn both_forms_text() -> Seq<char> {
    "Pit Manifest cannot define both [service] and [services.*]"@
}

pub open spec fn no_services_text() -> Seq<char> {
    "Pit Manifest must define [service] or at least one [services.<id>]"@
}

/// The plan of a manifest given what the caller found, checked in the order
/// service forms, services, resources, bindings, routes, execution limits.
pub open spec fn plan_outcome(
    rm: ResolvedManifestView,
    services: Seq<ServiceFactsView>,
    resource_ids_valid: Seq<bool>,
    route_targets_valid: Seq<bool>,
) -> Result<ApplicationPlanView, (PlanErrorKind, Seq<char>)> {
    let m = rm.manifest;
    if m.service is Some && m.services.len() > 0 {
        Err((PlanErrorKind::BothServiceForms, both_forms_text()))
    } else {
        match services_outcome(rm, services, candidates(m).len()) {
            Err(e) => Err(e),
            Ok(svcs) => if svcs.len() == 0 {
                Err((PlanErrorKind::NoServices, no_services_text()))
            } else {
                match resources_error(rm, resource_ids_valid, m.resources.len()) {
                    Some(e) => Err(e),
                    None => match bindings_error(svcs, resource_ids(m), svcs.len()) {
                        Some(e) => Err(e),
                        None => match routes_outcome(
                            rm,
                            svcs,
                            route_targets_valid,
                            m.routes.len(),
                        ) {
                            Err(e) => Err(e),
                            Ok(routes) => match execution_defaults_spec(
                                m.execution.0,
                                m.execution.1,
                            ) {
                                Err(u) => Err((PlanErrorKind::Execution(u), u.text())),
                                Ok(execution) => Ok(
                                    ApplicationPlanView {
                                        manifest: rm,
                                        application_name: application_name(rm),
                                        services: svcs,
                                        resources: m.resources,
                                        routes,
                                        execution,
                                    },
                                ),
                            },
                        },
                    },
                }
            },
        }
    }
}

pub open spec fn plan_facts_fit(rm: ResolvedManifestView, facts: PlanFacts) -> bool {
    &&& facts.services@.len() == candidates(rm.manifest).len()
    &&& facts.resource_ids_valid@.len() == rm.manifest.resources.len()
    &&& facts.route_targets_valid@.len() == rm.manifest.routes.len()
}

fn plan_error(kind: PlanErrorKind, message: String) -> (e: PlanError)
    ensures
        e@ == (kind, message@),
{
    PlanError { kind, message }
}

/// The paths to inspect for one service, joined to the manifest directory.
#[derive(Debug)]
pub struct ProbeTarget {
    pub build_dir: String,
    pub artifact: Option<String>,
}

impl ResolvedManifest {
    /// The services the manifest declares, with their identities.
    pub fn service_candidates(&self) -> (r: Vec<NamedService>)
        ensures
            r@.map_values(|s: NamedService| s@) == candidates(self@.manifest),
    {
        let m = &self.manifest;
        match &m.service {
            Some(spec) => {
                let id = match &spec.id {
                    Some(id) => copy_text(id),
                    None => match &m.name {
                        Some(n) => copy_text(n),
                        None => String::from_str("app"),
                    },
                };
                let mut r: Vec<NamedService> = Vec::new();
                r.push(NamedService { id, spec: spec.copy() });
                assert(r@.map_values(|s: NamedService| s@) =~= candidates(self@.manifest));
                r
            },
            None => {
                let mut r: Vec<NamedService> = Vec::new();
                let mut i: usize = 0;
                while i < m.services.len()
                    invariant
                        i <= m.services@.len(),
                        m.service is None,
                        *m == self.manifest,
                        r@.map_values(|s: NamedService| s@) == m.services@.subrange(
                            0,
                            i as int,
                        ).map_values(|s: NamedService| s@),
                    decreases m.services.len() - i,
                {
                    let e = NamedService { id: copy_text(&m.services[i].id), spec: m.services[i].spec.copy() };
                    let ghost before = r@;
                    r.push(e);
                    proof {
                        assert(m.services@.subrange(0, i + 1) =~= m.services@.subrange(
                            0,
                            i as int,
                        ).push(m.services@[i as int]));
                        assert(r@.map_values(|s: NamedService| s@) =~= before.map_values(
                            |s: NamedService| s@,
                        ).push(e@));
                        assert(m.services@.subrange(0, i + 1).map_values(|s: NamedService| s@)
                            =~= m.services@.subrange(0, i as int).map_values(
                            |s: NamedService| s@,
                        ).push(m.services@[i as int]@));
                    }
                    i = i + 1;
                }
                assert(m.services@.subrange(0, m.services@.len() as int) =~= m.services@);
                r
            },
        }
    }

    /// The build directory and artifact path of each service candidate.
    pub fn probe_targets(&self) -> (r: Vec<ProbeTarget>)
        ensures
            r@.len() == candidates(self@.manifest).len(),
            forall|i: int|
                0 <= i < r@.len() ==> {
                    &&& (#[trigger] r@[i]).build_dir@ == joined(
                        self@.root,
                        candidates(self@.manifest)[i].1.build,
                    )
                    &&& opt_view(r@[i].artifact) == match candidates(self@.manifest)[i].1.artifact {
                        Some(a) => Some(joined(self@.root, a)),
                        None => None,
                    }
                },
    {
        let cands = self.service_candidates();
        let ghost cv = cands@.map_values(|s: NamedService| s@);
        let mut r: Vec<ProbeTarget> = Vec::new();
        let mut i: usize = 0;
        while i < cands.len()
            invariant
                i <= cands@.len(),
                cv == cands@.map_values(|s: NamedService| s@),
                cv == candidates(self@.manifest),
                r@.len() == i,
                forall|k: int|
                    0 <= k < i ==> {
                        &&& (#[trigger] r@[k]).build_dir@ == joined(self@.root, cv[k].1.build)
                        &&& opt_view(r@[k].artifact) == match cv[k].1.artifact {
                            Some(a) => Some(joined(self@.root, a)),
                            None => None,
                        }
                    },
            decreases cands.len() - i,
        {
            let spec = &cands[i].spec;
            assert(cv[i as int].1 == spec@);
            let build_dir = join_path(self.root.as_str(), spec.build.as_str());
            let artifact = match &spec.artifact {
                Some(a) => Some(join_path(self.root.as_str(), a.as_str())),
                None => None,
            };
            r.push(ProbeTarget { build_dir, artifact });
            i = i + 1;
        }
        r
    }
}

/// Resolves one declared service against what the caller found for it.
pub fn resolve_service(
    manifest: &ResolvedManifest,
    id: String,
    spec: ServiceSpec,
    facts: &ServiceFacts,
) -> (r: Result<ResolvedService, PlanError>)
    ensures
        match service_outcome(manifest@, id@, spec@, facts@) {
            Ok(v) => r matches Ok(s) && s@ == v,
            Err(e) => r matches Err(err) && err@ == e,
        },
{
    if !facts.id_valid {
        let msg = text4("invalid service identity '", id.as_str(), "' in ", manifest.path.as_str());
        return Err(plan_error(PlanErrorKind::InvalidServiceIdentity, msg));
    }
    let project_dir = match &facts.project_dir {
        PathStatus::Missing => {
            let dir = join_path(manifest.root.as_str(), spec.build.as_str());
            let msg = text4("service '", id.as_str(), "' build directory does not exist: ", dir.as_str());
            return Err(plan_error(PlanErrorKind::BuildDirectoryMissing, msg));
        },
        PathStatus::Unreadable(e) => {
            return Err(plan_error(PlanErrorKind::PathUnreadable, copy_text(e)));
        },
        PathStatus::Found(dir) => copy_text(dir),
    };
    let artifact_path = match &spec.artifact {
        None => None,
        Some(a) => match &facts.artifact {
            PathStatus::Missing => {
                let path = join_path(manifest.root.as_str(), a.as_str());
                let msg = text4("service '", id.as_str(), "' artifact does not exist: ", path.as_str());
                return Err(plan_error(PlanErrorKind::ArtifactMissing, msg));
            },
            PathStatus::Unreadable(e) => {
                return Err(plan_error(PlanErrorKind::PathUnreadable, copy_text(e)));
            },
            PathStatus::Found(p) => Some(copy_text(p)),
        },
    };
    Ok(ResolvedService { id, spec, project_dir, artifact_path })
}


pub open spec fn facts_view(v: Seq<ServiceFacts>) -> Seq<ServiceFactsView> {
    v.map_values(|f: ServiceFacts| f@)
}

fn route_path_valid(p: &String) -> (r: bool)
    ensures
        r == route_path_ok(p@),
{
    let c = chars_of(p.as_str());
    c.len() > 0 && c[0] == '/' && !has_char(&c, '\n') && !has_char(&c, '\r')
}

fn is_blank(s: &String) -> (r: bool)
    ensures
        r == (trim(s@).len() == 0),
{
    let c = chars_of(s.as_str());
    trim_chars(&c).len() == 0
}

proof fn lemma_services_error_stays(
    rm: ResolvedManifestView,
    f: Seq<ServiceFactsView>,
    n: nat,
    m: nat,
)
    requires
        n <= m,
        services_outcome(rm, f, n) is Err,
    ensures
        services_outcome(rm, f, m) == services_outcome(rm, f, n),
    decreases m - n,
{
    if n < m {
        lemma_services_error_stays(rm, f, n, (m - 1) as nat);
    }
}

proof fn lemma_resources_error_stays(rm: ResolvedManifestView, v: Seq<bool>, n: nat, m: nat)
    requires
        n <= m,
        resources_error(rm, v, n) is Some,
    ensures
        resources_error(rm, v, m) == resources_error(rm, v, n),
    decreases m - n,
{
    if n < m {
        lemma_resources_error_stays(rm, v, n, (m - 1) as nat);
    }
}

proof fn lemma_binding_error_stays(s: ResolvedServiceView, ids: Seq<Seq<char>>, n: nat, m: nat)
    requires
        n <= m,
        binding_error(s, ids, n) is Some,
    ensures
        binding_error(s, ids, m) == binding_error(s, ids, n),
    decreases m - n,
{
    if n < m {
        lemma_binding_error_stays(s, ids, n, (m - 1) as nat);
    }
}

proof fn lemma_bindings_error_stays(
    svcs: Seq<ResolvedServiceView>,
    ids: Seq<Seq<char>>,
    n: nat,
    m: nat,
)
    requires
        n <= m,
        bindings_error(svcs, ids, n) is Some,
    ensures
        bindings_error(svcs, ids, m) == bindings_error(svcs, ids, n),
    decreases m - n,
{
    if n < m {
        lemma_bindings_error_stays(svcs, ids, n, (m - 1) as nat);
    }
}

proof fn lemma_routes_error_stays(
    rm: ResolvedManifestView,
    svcs: Seq<ResolvedServiceView>,
    v: Seq<bool>,
    n: nat,
    m: nat,
)
    requires
        n <= m,
        routes_outcome(rm, svcs, v, n) is Err,
    ensures
        routes_outcome(rm, svcs, v, m) == routes_outcome(rm, svcs, v, n),
    decreases m - n,
{
    if n < m {
        lemma_routes_error_stays(rm, svcs, v, n, (m - 1) as nat);
    }
}

/// The plan's checks up to and including the services passed, with `svcs`
/// the services resolved.
pub open spec fn services_stage(
    rm: ResolvedManifestView,
    fv: Seq<ServiceFactsView>,
    svcs: Seq<ResolvedServiceView>,
) -> bool {
    &&& !(rm.manifest.service is Some && rm.manifest.services.len() > 0)
    &&& services_outcome(rm, fv, candidates(rm.manifest).len()) == Ok::<
        Seq<ResolvedServiceView>,
        (PlanErrorKind, Seq<char>),
    >(svcs)
    &&& svcs.len() > 0
}

impl ResolvedManifest {
    /// Validates the manifest into an application plan, using what the
    /// caller found on disk and about identities (`facts`).
    pub fn plan(self, facts: &PlanFacts) -> (r: Result<ApplicationPlan, PlanError>)
        requires
            plan_facts_fit(self@, *facts),
            manifest_keys_ordered(self@.manifest),
        ensures
            match plan_outcome(
                self@,
                facts_view(facts.services@),
                facts.resource_ids_valid@,
                facts.route_targets_valid@,
            ) {
                Ok(v) => r matches Ok(p) && p@ == v,
                Err(e) => r matches Err(err) && err@ == e,
            },
    {
        let ghost rm = self@;
        let ghost fv = facts_view(facts.services@);
        if self.manifest.service.is_some() && self.manifest.services.len() > 0 {
            return Err(
                plan_error(
                    PlanErrorKind::BothServiceForms,
                    String::from_str("Pit Manifest cannot define both [service] and [services.*]"),
                ),
            );
        }
        let cands = self.service_candidates();
        let ghost cv = cands@.map_values(|c: NamedService| c@);
        let mut services: Vec<ResolvedService> = Vec::new();
        assert(services_view(services@) =~= Seq::<ResolvedServiceView>::empty());
        let mut i: usize = 0;
        while i < cands.len()
            invariant
                i <= cands@.len(),
                rm == self@,
                fv == facts_view(facts.services@),
                cv == cands@.map_values(|c: NamedService| c@),
                cv == candidates(rm.manifest),
                facts.services@.len() == cv.len(),
                !(rm.manifest.service is Some && rm.manifest.services.len() > 0),
                services_outcome(rm, fv, i as nat) == Ok::<
                    Seq<ResolvedServiceView>,
                    (PlanErrorKind, Seq<char>),
                >(services_view(services@)),
            decreases cands.len() - i,
        {
            let c = &cands[i];
            assert(cv[i as int] == c@);
            assert(fv[i as int] == facts.services@[i as int]@);
            match resolve_service(&self, copy_text(&c.id), c.spec.copy(), &facts.services[i]) {
                Ok(svc) => {
                    let ghost before = services@;
                    services.push(svc);
                    assert(services_view(services@) =~= services_view(before).push(svc@));
                },
                Err(e) => {
                    proof {
                        lemma_services_error_stays(rm, fv, (i + 1) as nat, cv.len());
                    }
                    return Err(e);
                },
            }
            i = i + 1;
        }
        let ghost svcs = services_view(services@);
        if services.len() == 0 {
            return Err(
                plan_error(
                    PlanErrorKind::NoServices,
                    String::from_str(
                        "Pit Manifest must define [service] or at least one [services.<id>]",
                    ),
                ),
            );
        }
        assert(services_stage(rm, fv, svcs));
        let resources = &self.manifest.resources;
        let mut j: usize = 0;
        while j < resources.len()
            invariant
                j <= resources@.len(),
                rm == self@,
                fv == facts_view(facts.services@),
                services_stage(rm, fv, svcs),
                *resources == self.manifest.resources,
                facts.resource_ids_valid@.len() == resources@.len(),
                resources_error(rm, facts.resource_ids_valid@, j as nat) is None,
            decreases resources.len() - j,
        {
            let res = &resources[j];
            assert(rm.manifest.resources[j as int] == res@);
            if !facts.resource_ids_valid[j] {
                let e = plan_error(
                    PlanErrorKind::InvalidResourceIdentity,
                    text4("invalid resource identity '", res.id.as_str(), "' in ", self.path.as_str()),
                );
                proof {
                    lemma_resources_error_stays(rm, facts.resource_ids_valid@, (j + 1) as nat, resources@.len());
                }
                return Err(e);
            }
            if is_blank(&res.spec.kind) || is_blank(&res.spec.source) {
                let e = plan_error(
                    PlanErrorKind::EmptyResource,
                    text3("resource '", res.id.as_str(), "' must define non-empty type and from values"),
                );
                proof {
                    lemma_resources_error_stays(rm, facts.resource_ids_valid@, (j + 1) as nat, resources@.len());
                }
                return Err(e);
            }
            j = j + 1;
        }
        let mut ids: Vec<String> = Vec::new();
        let mut q: usize = 0;
        while q < resources.len()
            invariant
                q <= resources@.len(),
                rm == self@,
                *resources == self.manifest.resources,
                ids@.map_values(|t: String| t@) == resource_ids(rm.manifest).take(q as int),
            decreases resources.len() - q,
        {
            let ghost before = ids@;
            let id = copy_text(&resources[q].id);
            ids.push(id);
            proof {
                assert(rm.manifest.resources[q as int] == resources@[q as int]@);
                assert(resource_ids(rm.manifest).take(q + 1) =~= resource_ids(rm.manifest).take(
                    q as int,
                ).push(id@));
                assert(ids@.map_values(|t: String| t@) =~= before.map_values(|t: String| t@).push(
                    id@,
                ));
            }
            q = q + 1;
        }
        assert(resource_ids(rm.manifest).take(resources@.len() as int) =~= resource_ids(
            rm.manifest,
        ));
        let mut a: usize = 0;
        while a < services.len()
            invariant
                a <= services@.len(),
                rm == self@,
                fv == facts_view(facts.services@),
                services_stage(rm, fv, svcs),
                resources_error(rm, facts.resource_ids_valid@, rm.manifest.resources.len()) is None,
                svcs == services_view(services@),
                ids@.map_values(|t: String| t@) == resource_ids(rm.manifest),
                bindings_error(svcs, resource_ids(rm.manifest), a as nat) is None,
            decreases services.len() - a,
        {
            let svc = &services[a];
            assert(svcs[a as int] == svc@);
            let bindings = &svc.spec.resources;
            let mut k: usize = 0;
            while k < bindings.len()
                invariant
                    k <= bindings@.len(),
                    a < services@.len(),
                    rm == self@,
                    fv == facts_view(facts.services@),
                    services_stage(rm, fv, svcs),
                    resources_error(rm, facts.resource_ids_valid@, rm.manifest.resources.len()) is None,
                    svcs == services_view(services@),
                    bindings_error(svcs, resource_ids(rm.manifest), a as nat) is None,
                    *bindings == svc.spec.resources,
                    svcs[a as int] == svc@,
                    ids@.map_values(|t: String| t@) == resource_ids(rm.manifest),
                    binding_error(svc@, resource_ids(rm.manifest), k as nat) is None,
                decreases bindings.len() - k,
            {
                let b = &bindings[k];
                assert(svc@.spec.resources[k as int] == b@);
                if !contains_text(&ids, &b.resource) {
                    let e = plan_error(
                        PlanErrorKind::UnknownResource,
                        text7(
                            "service '",
                            svc.id.as_str(),
                            "' binds unknown resource '",
                            b.resource.as_str(),
                            "' as '",
                            b.variable.as_str(),
                            "'",
                        ),
                    );
                    proof {
                        let ids_v = resource_ids(rm.manifest);
                        lemma_binding_error_stays(svc@, ids_v, (k + 1) as nat, bindings@.len());
                        assert(bindings_error(svcs, ids_v, (a + 1) as nat) is Some);
                        lemma_bindings_error_stays(svcs, ids_v, (a + 1) as nat, svcs.len());
                    }
                    return Err(e);
                }
                k = k + 1;
            }
            a = a + 1;
        }
        let mut sids: Vec<String> = Vec::new();
        let mut t: usize = 0;
        while t < services.len()
            invariant
                t <= services@.len(),
                svcs == services_view(services@),
                sids@.map_values(|x: String| x@) == service_ids(svcs).take(t as int),
            decreases services.len() - t,
        {
            let ghost before = sids@;
            let id = copy_text(&services[t].id);
            sids.push(id);
            proof {
                assert(svcs[t as int] == services@[t as int]@);
                assert(service_ids(svcs).take(t + 1) =~= service_ids(svcs).take(t as int).push(id@));
                assert(sids@.map_values(|x: String| x@) =~= before.map_values(|x: String| x@).push(
                    id@,
                ));
            }
            t = t + 1;
        }
        assert(service_ids(svcs).take(services@.len() as int) =~= service_ids(svcs));
        let table = &self.manifest.routes;
        let mut routes: Vec<Route> = Vec::new();
        let mut paths: Vec<String> = Vec::new();
        assert(routes_view(routes@) =~= Seq::<(Seq<char>, Seq<char>)>::empty());
        assert(paths@.map_values(|x: String| x@) =~= Seq::<Seq<char>>::empty());
        let mut u: usize = 0;
        while u < table.len()
            invariant
                u <= table@.len(),
                rm == self@,
                fv == facts_view(facts.services@),
                services_stage(rm, fv, svcs),
                resources_error(rm, facts.resource_ids_valid@, rm.manifest.resources.len()) is None,
                bindings_error(svcs, resource_ids(rm.manifest), svcs.len()) is None,
                *table == self.manifest.routes,
                facts.route_targets_valid@.len() == table@.len(),
                sids@.map_values(|x: String| x@) == service_ids(svcs),
                routes_outcome(rm, svcs, facts.route_targets_valid@, u as nat) == Ok::<
                    Seq<(Seq<char>, Seq<char>)>,
                    (PlanErrorKind, Seq<char>),
                >(routes_view(routes@)),
                paths@.map_values(|x: String| x@) == routes_view(routes@).map_values(
                    |d: (Seq<char>, Seq<char>)| d.0,
                ),
            decreases table.len() - u,
        {
            let route = &table[u];
            assert(rm.manifest.routes[u as int] == route@);
            let ghost vv = facts.route_targets_valid@;
            let mut failure: Option<PlanError> = None;
            if !route_path_valid(&route.path) {
                failure = Some(plan_error(
                    PlanErrorKind::InvalidRoutePath,
                    text3("invalid route path '", route.path.as_str(), "'; routes must begin with '/'"),
                ));
            } else if !facts.route_targets_valid[u] {
                failure = Some(plan_error(
                    PlanErrorKind::InvalidRouteTarget,
                    text5("invalid route target '", route.service.as_str(), "' for route '", route.path.as_str(), "'"),
                ));
            } else if !contains_text(&sids, &route.service) {
                failure = Some(plan_error(
                    PlanErrorKind::UnknownRouteService,
                    text5("route '", route.path.as_str(), "' targets unknown service '", route.service.as_str(), "'"),
                ));
            } else if contains_text(&paths, &route.path) {
                failure = Some(plan_error(
                    PlanErrorKind::DuplicateRoute,
                    text3("duplicate route '", route.path.as_str(), "'"),
                ));
            }
            match failure {
                Some(e) => {
                    proof {
                        assert(routes_outcome(rm, svcs, vv, (u + 1) as nat) == Err::<
                            Seq<(Seq<char>, Seq<char>)>,
                            (PlanErrorKind, Seq<char>),
                        >(e@));
                        lemma_routes_error_stays(rm, svcs, vv, (u + 1) as nat, table@.len());
                    }
                    return Err(e);
                },
                None => {},
            }
            let entry = Route { path: copy_text(&route.path), service: copy_text(&route.service) };
            let ghost before_routes = routes@;
            let ghost before_paths = paths@;
            let p = copy_text(&route.path);
            paths.push(p);
            routes.push(entry);
            proof {
                assert(routes_view(routes@) =~= routes_view(before_routes).push(route@));
                assert(paths@.map_values(|x: String| x@) =~= before_paths.map_values(
                    |x: String| x@,
                ).push(p@));
                assert(routes_view(routes@).map_values(|d: (Seq<char>, Seq<char>)| d.0)
                    =~= routes_view(before_routes).map_values(|d: (Seq<char>, Seq<char>)| d.0).push(
                    route@.0,
                ));
            }
            u = u + 1;
        }
        let application_name = match &self.manifest.name {
            Some(n) => copy_text(n),
            None => {
                let root = chars_of(self.root.as_str());
                string_of(&last_segment_of(&root))
            },
        };
        let execution = match manifest_execution_defaults(&self.manifest.execution) {
            Ok(e) => e,
            Err(u) => {
                return Err(plan_error(PlanErrorKind::Execution(u), u.message()));
            },
        };
        let resources = copy_resources(&self.manifest.resources);
        Ok(
            ApplicationPlan {
                manifest: self,
                application_name,
                services,
                resources,
                routes,
                execution,
            },
        )
    }
}


proof fn lemma_pit_files_are_pit_names(entries: Seq<DirEntry>)
    ensures
        forall|i: int| 0 <= i < pit_files(entries).len() ==> is_pit_name(#[trigger] pit_files(entries)[i]),
    decreases entries.len(),
{
    if entries.len() > 0 {
        lemma_pit_files_are_pit_names(entries.drop_last());
        let rest = pit_files(entries.drop_last());
        let e = entries.last();
        if e.is_file && is_pit_name(e.name@) {
            assert forall|i: int| 0 <= i < pit_files(entries).len() implies is_pit_name(
                #[trigger] pit_files(entries)[i],
            ) by {
                if i < rest.len() {
                    assert(pit_files(entries)[i] == rest[i]);
                }
            }
        }
    }
}

/// Without `--file`, the manifest chosen is a `*.pit` file of the directory
/// itself: the only one, else `app.pit` among several; several without
/// `app.pit` are refused as ambiguous, and none as not found.
pub proof fn law_implicit_selection(dir: Seq<char>, entries: Seq<DirEntry>)
    ensures
        pit_files(entries).len() == 0 ==> selection(dir, entries, None) == Err::<Seq<char>, ManifestErrorKind>(
            ManifestErrorKind::NoneFound,
        ),
        pit_files(entries).len() == 1 ==> selection(dir, entries, None) == Ok::<Seq<char>, ManifestErrorKind>(
            joined(dir, pit_files(entries)[0]),
        ),
        pit_files(entries).len() > 1 && pit_files(entries).contains("app.pit"@) ==> selection(dir, entries, None)
            == Ok::<Seq<char>, ManifestErrorKind>(joined(dir, "app.pit"@)),
        pit_files(entries).len() > 1 && !pit_files(entries).contains("app.pit"@) ==> selection(dir, entries, None)
            == Err::<Seq<char>, ManifestErrorKind>(ManifestErrorKind::Ambiguous),
        forall|p: Seq<char>|
            selection(dir, entries, None) == Ok::<Seq<char>, ManifestErrorKind>(p) ==> exists|name: Seq<char>|
                pit_files(entries).contains(name) && is_pit_name(name) && p == #[trigger] joined(dir, name),
{
    lemma_pit_files_are_pit_names(entries);
    let files = pit_files(entries);
    if files.len() == 1 {
        assert(files.contains(files[0]));
        assert(is_pit_name(files[0]));
    } else if files.len() > 1 && files.contains("app.pit"@) {
        let k = choose|k: int| 0 <= k < files.len() && files[k] == "app.pit"@;
        assert(is_pit_name(files[k]));
    }
}

/// With `--file`, the manifest chosen is the named path itself, and only
/// when it is a regular file whose name ends in `.pit`.
pub proof fn law_explicit_selection(dir: Seq<char>, entries: Seq<DirEntry>, path: Seq<char>, is_file: bool)
    ensures
        selection(dir, entries, Some((path, is_file))) is Ok <==> is_file && is_pit_name(last_segment(path)),
        selection(dir, entries, Some((path, is_file))) matches Ok(p) ==> p == path,
{
}

proof fn lemma_bindings_known(svcs: Seq<ResolvedServiceView>, ids: Seq<Seq<char>>, n: nat)
    requires
        n <= svcs.len(),
        bindings_error(svcs, ids, n) is None,
    ensures
        forall|i: int, k: int|
            0 <= i < n && 0 <= k < svcs[i].spec.resources.len() ==> ids.contains(
                #[trigger] svcs[i].spec.resources[k].1,
            ),
    decreases n,
{
    if n > 0 {
        lemma_bindings_known(svcs, ids, (n - 1) as nat);
        let s = svcs[n - 1];
        lemma_binding_known(s, ids, s.spec.resources.len());
    }
}

proof fn lemma_binding_known(s: ResolvedServiceView, ids: Seq<Seq<char>>, k: nat)
    requires
        k <= s.spec.resources.len(),
        binding_error(s, ids, k) is None,
    ensures
        forall|j: int| 0 <= j < k ==> ids.contains(#[trigger] s.spec.resources[j].1),
    decreases k,
{
    if k > 0 {
        lemma_binding_known(s, ids, (k - 1) as nat);
    }
}

proof fn lemma_routes_checked(
    rm: ResolvedManifestView,
    svcs: Seq<ResolvedServiceView>,
    valid: Seq<bool>,
    n: nat,
    routes: Seq<(Seq<char>, Seq<char>)>,
)
    requires
        n <= rm.manifest.routes.len(),
        routes_outcome(rm, svcs, valid, n) == Ok::<Seq<(Seq<char>, Seq<char>)>, (PlanErrorKind, Seq<char>)>(routes),
    ensures
        routes == rm.manifest.routes.take(n as int),
        forall|i: int| 0 <= i < routes.len() ==> route_path_ok(#[trigger] routes[i].0) && service_ids(svcs).contains(routes[i].1),
        forall|i: int, j: int| 0 <= i < j < routes.len() ==> (#[trigger] routes[i]).0 != (#[trigger] routes[j]).0,
    decreases n,
{
    if n == 0 {
        assert(routes =~= rm.manifest.routes.take(0));
    } else {
        let done = match routes_outcome(rm, svcs, valid, (n - 1) as nat) {
            Ok(d) => d,
            Err(_) => Seq::empty(),
        };
        assert(routes_outcome(rm, svcs, valid, (n - 1) as nat) is Ok);
        lemma_routes_checked(rm, svcs, valid, (n - 1) as nat, done);
        let r = rm.manifest.routes[n - 1];
        assert(routes == done.push(r));
        assert(rm.manifest.routes.take(n as int) =~= rm.manifest.routes.take(n - 1).push(r));
        let keys = done.map_values(|d: (Seq<char>, Seq<char>)| d.0);
        assert forall|i: int, j: int| 0 <= i < j < routes.len() implies (#[trigger] routes[i]).0 != (#[trigger] routes[j]).0 by {
            if j == routes.len() - 1 {
                assert(routes[i] == done[i]);
                assert(keys[i] == done[i].0);
                assert(!keys.contains(r.0));
            } else {
                assert(routes[i] == done[i] && routes[j] == done[j]);
            }
        }
        assert forall|i: int| 0 <= i < routes.len() implies route_path_ok(#[trigger] routes[i].0) && service_ids(svcs).contains(routes[i].1) by {
            if i < routes.len() - 1 {
                assert(routes[i] == done[i]);
            }
        }
    }
}

proof fn lemma_services_named(rm: ResolvedManifestView, facts: Seq<ServiceFactsView>, n: nat, svcs: Seq<ResolvedServiceView>)
    requires
        n <= candidates(rm.manifest).len(),
        services_outcome(rm, facts, n) == Ok::<Seq<ResolvedServiceView>, (PlanErrorKind, Seq<char>)>(svcs),
    ensures
        service_ids(svcs) == candidates(rm.manifest).take(n as int).map_values(
            |c: (Seq<char>, ServiceSpecView)| c.0,
        ),
    decreases n,
{
    if n == 0 {
        assert(service_ids(svcs) =~= candidates(rm.manifest).take(0).map_values(
            |c: (Seq<char>, ServiceSpecView)| c.0,
        ));
    } else {
        let done = match services_outcome(rm, facts, (n - 1) as nat) {
            Ok(d) => d,
            Err(_) => Seq::empty(),
        };
        assert(services_outcome(rm, facts, (n - 1) as nat) is Ok);
        lemma_services_named(rm, facts, (n - 1) as nat, done);
        let c = candidates(rm.manifest)[n - 1];
        let s = match service_outcome(rm, c.0, c.1, facts[n - 1]) {
            Ok(s) => s,
            Err(_) => svcs[0],
        };
        assert(svcs == done.push(s));
        assert(s.id == c.0);
        assert(candidates(rm.manifest).take(n as int) =~= candidates(rm.manifest).take(n - 1).push(c));
        assert(service_ids(svcs) =~= service_ids(done).push(c.0));
        assert(candidates(rm.manifest).take(n as int).map_values(|c: (Seq<char>, ServiceSpecView)| c.0)
            =~= candidates(rm.manifest).take(n - 1).map_values(|c: (Seq<char>, ServiceSpecView)| c.0).push(c.0));
    }
}

proof fn lemma_resources_filled(rm: ResolvedManifestView, valid: Seq<bool>, n: nat)
    requires
        n <= rm.manifest.resources.len(),
        resources_error(rm, valid, n) is None,
    ensures
        forall|i: int| 0 <= i < n ==> trim((#[trigger] rm.manifest.resources[i]).1.0).len() > 0
            && trim(rm.manifest.resources[i].1.1).len() > 0,
    decreases n,
{
    if n > 0 {
        lemma_resources_filled(rm, valid, (n - 1) as nat);
    }
}

/// An accepted plan has at least one service, named as the manifest names
/// them and in its order; its resources are the manifest's, each with a
/// non-blank type and source; every resource a service binds is one of
/// them; its routes are the manifest's, each beginning with `/`, holding no
/// line break, targeting a service of the plan and naming a path no other
/// route names.
pub proof fn law_plan_references_resolve(
    rm: ResolvedManifestView,
    services: Seq<ServiceFactsView>,
    resource_ids_valid: Seq<bool>,
    route_targets_valid: Seq<bool>,
)
    ensures
        plan_outcome(rm, services, resource_ids_valid, route_targets_valid) matches Ok(p) ==> {
            &&& p.services.len() > 0
            &&& p.application_name == application_name(rm)
            &&& service_ids(p.services) == candidates(rm.manifest).map_values(|c: (Seq<char>, ServiceSpecView)| c.0)
            &&& forall|i: int| 0 <= i < p.resources.len() ==> trim((#[trigger] p.resources[i]).1.0).len() > 0
                && trim(p.resources[i].1.1).len() > 0
            &&& forall|i: int, k: int|
                0 <= i < p.services.len() && 0 <= k < p.services[i].spec.resources.len()
                    ==> resource_ids(rm.manifest).contains(#[trigger] p.services[i].spec.resources[k].1)
            &&& p.resources == rm.manifest.resources
            &&& p.routes == rm.manifest.routes
            &&& forall|i: int| 0 <= i < p.routes.len() ==> route_path_ok(#[trigger] p.routes[i].0)
                && service_ids(p.services).contains(p.routes[i].1)
            &&& forall|i: int, j: int| 0 <= i < j < p.routes.len() ==> (#[trigger] p.routes[i]).0 != (#[trigger] p.routes[j]).0
        },
{
    let m = rm.manifest;
    if !(m.service is Some && m.services.len() > 0) {
        match services_outcome(rm, services, candidates(m).len()) {
            Ok(svcs) => {
                lemma_services_named(rm, services, candidates(m).len(), svcs);
                assert(candidates(m).take(candidates(m).len() as int) =~= candidates(m));
                if resources_error(rm, resource_ids_valid, m.resources.len()) is None {
                    lemma_resources_filled(rm, resource_ids_valid, m.resources.len());
                }
                if svcs.len() > 0 && resources_error(rm, resource_ids_valid, m.resources.len()) is None
                    && bindings_error(svcs, resource_ids(m), svcs.len()) is None {
                    lemma_bindings_known(svcs, resource_ids(m), svcs.len());
                    match routes_outcome(rm, svcs, route_targets_valid, m.routes.len()) {
                        Ok(routes) => {
                            lemma_routes_checked(rm, svcs, route_targets_valid, m.routes.len(), routes);
                            assert(m.routes.take(m.routes.len() as int) =~= m.routes);
                        },
                        Err(_) => {},
                    }
                }
            },
            Err(_) => {},
        }
    }
}

/// When the manifest's maps are in key order, so is a plan of
/// `[services.<id>]`: its service ids ascend, each id once.
pub proof fn law_plan_service_order(
    rm: ResolvedManifestView,
    services: Seq<ServiceFactsView>,
    resource_ids_valid: Seq<bool>,
    route_targets_valid: Seq<bool>,
)
    requires
        manifest_keys_ordered(rm.manifest),
    ensures
        plan_outcome(rm, services, resource_ids_valid, route_targets_valid) matches Ok(p) ==> {
            &&& keys_ascending(service_ids(p.services))
            &&& rm.manifest.service is None ==> service_ids(p.services) == service_keys(rm.manifest)
        },
{
    law_plan_references_resolve(rm, services, resource_ids_valid, route_targets_valid);
    let m = rm.manifest;
    match plan_outcome(rm, services, resource_ids_valid, route_targets_valid) {
        Ok(p) => {
            let ids = service_ids(p.services);
            if m.service is None {
                assert(ids =~= service_keys(m));
            } else {
                assert(ids.len() == 1);
            }
        },
        Err(_) => {},
    }
}

/// The identity of a single `[service]`: its own `id`, else the manifest's
/// `name`, else `app`; `[services.<id>]` keep their keys.
pub proof fn law_single_service_identity(m: PitManifestView)
    ensures
        m.service matches Some(spec) ==> candidates(m).len() == 1 && candidates(m)[0].1 == spec,
        m.service is Some && m.service->0.id is Some ==> candidates(m)[0].0 == m.service->0.id->0,
        m.service is Some && m.service->0.id is None && m.name is Some ==> candidates(m)[0].0 == m.name->0,
        m.service is Some && m.service->0.id is None && m.name is None ==> candidates(m)[0].0 == "app"@,
        m.service is None ==> candidates(m).len() == m.services.len() && forall|i: int|
            0 <= i < m.services.len() ==> #[trigger] candidates(m)[i] == m.services[i],
{
}

/// How one service is resolved from what was found: it is accepted exactly
/// when its identity is valid, its build directory was found and its
/// declared artifact (if any) was found; the accepted service keeps its id
/// and specification, takes the found directory as its project directory,
/// and takes the found artifact path exactly when it declares an artifact.
pub proof fn law_service_resolution(rm: ResolvedManifestView, id: Seq<char>, spec: ServiceSpecView, f: ServiceFactsView)
    ensures
        service_outcome(rm, id, spec, f) is Ok <==> f.id_valid && f.project_dir is Found && (spec.artifact is None
            || f.artifact is Found),
        !f.id_valid ==> (service_outcome(rm, id, spec, f) matches Err(e) && e.0 == PlanErrorKind::InvalidServiceIdentity),
        f.id_valid && f.project_dir is Missing ==> (service_outcome(rm, id, spec, f) matches Err(e) && e.0
            == PlanErrorKind::BuildDirectoryMissing),
        f.id_valid && f.project_dir is Missing ==> (service_outcome(rm, id, spec, f) matches Err(e) && e.1
            == "service '"@ + id + "' build directory does not exist: "@ + joined(rm.root, spec.build)),
        f.id_valid && f.project_dir is Unreadable ==> service_outcome(rm, id, spec, f) == Err::<
            ResolvedServiceView,
            (PlanErrorKind, Seq<char>),
        >((PlanErrorKind::PathUnreadable, f.project_dir->Unreadable_0)),
        f.id_valid && f.project_dir is Found && spec.artifact is Some && f.artifact is Missing ==> (service_outcome(
            rm,
            id,
            spec,
            f,
        ) matches Err(e) && e.0 == PlanErrorKind::ArtifactMissing && e.1 == "service '"@ + id
            + "' artifact does not exist: "@ + joined(rm.root, spec.artifact->0)),
        f.id_valid && f.project_dir is Found && spec.artifact is Some && f.artifact is Unreadable
            ==> service_outcome(rm, id, spec, f) == Err::<ResolvedServiceView, (PlanErrorKind, Seq<char>)>(
            (PlanErrorKind::PathUnreadable, f.artifact->Unreadable_0),
        ),
        service_outcome(rm, id, spec, f) matches Ok(s) ==> {
            &&& s.id == id
            &&& s.spec == spec
            &&& f.project_dir matches PathStatusView::Found(d) && s.project_dir == d
            &&& (spec.artifact is None ==> s.artifact_path is None)
            &&& (spec.artifact is Some ==> (f.artifact matches PathStatusView::Found(a) && s.artifact_path == Some(a)))
        },
{
}

proof fn lemma_services_each(rm: ResolvedManifestView, facts: Seq<ServiceFactsView>, n: nat, svcs: Seq<ResolvedServiceView>)
    requires
        n <= candidates(rm.manifest).len(),
        services_outcome(rm, facts, n) == Ok::<Seq<ResolvedServiceView>, (PlanErrorKind, Seq<char>)>(svcs),
    ensures
        svcs.len() == n,
        forall|i: int| 0 <= i < n ==> service_outcome(rm, candidates(rm.manifest)[i].0, candidates(rm.manifest)[i].1,
            facts[i]) == Ok::<ResolvedServiceView, (PlanErrorKind, Seq<char>)>(#[trigger] svcs[i]),
    decreases n,
{
    if n > 0 {
        let done = match services_outcome(rm, facts, (n - 1) as nat) {
            Ok(d) => d,
            Err(_) => Seq::empty(),
        };
        assert(services_outcome(rm, facts, (n - 1) as nat) is Ok);
        lemma_services_each(rm, facts, (n - 1) as nat, done);
        let c = candidates(rm.manifest)[n - 1];
        assert(service_outcome(rm, c.0, c.1, facts[n - 1]) is Ok);
        let s = match service_outcome(rm, c.0, c.1, facts[n - 1]) {
            Ok(s) => s,
            Err(_) => svcs[0],
        };
        assert(svcs == done.push(s));
        assert forall|i: int| 0 <= i < n implies service_outcome(rm, candidates(rm.manifest)[i].0, candidates(rm.manifest)[i].1,
            facts[i]) == Ok::<ResolvedServiceView, (PlanErrorKind, Seq<char>)>(#[trigger] svcs[i]) by {
            if i < n - 1 {
                assert(svcs[i] == done[i]);
            }
        }
    }
}

/// In an accepted plan each service is the manifest's `i`-th declared
/// service: a single `[service]` without an `id` is named after the
/// manifest's `name` (else `app`); each takes the project directory found
/// for it, and the artifact path found for it exactly when it declares an
/// artifact.
pub proof fn law_plan_services_resolved(
    rm: ResolvedManifestView,
    services: Seq<ServiceFactsView>,
    resource_ids_valid: Seq<bool>,
    route_targets_valid: Seq<bool>,
)
    requires
        services.len() == candidates(rm.manifest).len(),
    ensures
        plan_outcome(rm, services, resource_ids_valid, route_targets_valid) matches Ok(p) ==> {
            &&& p.services.len() == services.len()
            &&& (rm.manifest.service is Some && rm.manifest.service->0.id is None && rm.manifest.name is Some
                ==> p.services[0].id == rm.manifest.name->0)
            &&& (rm.manifest.service is Some && rm.manifest.service->0.id is None && rm.manifest.name is None
                ==> p.services[0].id == "app"@)
            &&& (rm.manifest.service is Some && rm.manifest.service->0.id is Some
                ==> p.services[0].id == rm.manifest.service->0.id->0)
            &&& (rm.manifest.service is None ==> forall|i: int|
                0 <= i < p.services.len() ==> (#[trigger] p.services[i]).id == rm.manifest.services[i].0)
            &&& forall|i: int| 0 <= i < p.services.len() ==> {
                &&& services[i].project_dir matches PathStatusView::Found(d) && (#[trigger] p.services[i]).project_dir == d
                &&& (p.services[i].spec.artifact is Some ==> (services[i].artifact matches PathStatusView::Found(a)
                    && p.services[i].artifact_path == Some(a)))
                &&& (p.services[i].spec.artifact is None ==> p.services[i].artifact_path is None)
            }
        },
{
    let m = rm.manifest;
    law_single_service_identity(m);
    if !(m.service is Some && m.services.len() > 0) {
        match services_outcome(rm, services, candidates(m).len()) {
            Ok(svcs) => {
                lemma_services_each(rm, services, candidates(m).len(), svcs);
                assert forall|i: int| 0 <= i < svcs.len() implies {
                    &&& services[i].project_dir matches PathStatusView::Found(d) && (#[trigger] svcs[i]).project_dir == d
                    &&& (svcs[i].spec.artifact is Some ==> (services[i].artifact matches PathStatusView::Found(a)
                        && svcs[i].artifact_path == Some(a)))
                    &&& (svcs[i].spec.artifact is None ==> svcs[i].artifact_path is None)
                    &&& svcs[i].id == candidates(m)[i].0
                } by {
                    law_service_resolution(rm, candidates(m)[i].0, candidates(m)[i].1, services[i]);
                }
            },
            Err(_) => {},
        }
    }
}
} // verus!
