//! `pit push`, `pit pull` and `pit paddock`: which artifact a locator names
//! and where the local Paddock lives. The Paddock itself is the caller's.

use vstd::prelude::*;
use vstd::string::StringExecFns;

use crate::paths::{join_path, joined};
use crate::text::{
    chars_of, decimal, has_prefix, pad_right, push_decimal, push_padded_right, push_str,
    starts_with, string_of,
};

verus! {

#[derive(Debug)]
pub struct PushArgs {
    /// Mutable human-facing ref, for example `service-a:v1`.
    pub reference: String,
    /// Filesystem Paddock root.
    pub paddock_dir: Option<String>,
}

#[derive(Debug)]
pub struct PullArgs {
    /// A `name:tag` ref or a `sha256:<64 lowercase hex>` digest.
    pub artifact: String,
    pub paddock_dir: Option<String>,
}

#[derive(Debug)]
pub struct ListArgs {
    pub paddock_dir: Option<String>,
}

#[derive(Debug)]
pub struct InspectArgs {
    pub reference: String,
    pub paddock_dir: Option<String>,
}

/// What an artifact locator names, before its text is parsed.
#[derive(Debug)]
pub enum Locator {
    /// A content digest (`sha256:…`).
    Digest(String),
    /// A mutable `name:tag` reference.
    Reference(String),
}

/// A locator names a digest exactly when it begins with `sha256:`.
pub open spec fn names_digest(value: Seq<char>) -> bool {
    starts_with(value, "sha256:"@)
}

/// Tells a digest locator from a reference; each is then parsed as such.
pub fn parse_locator(value: &str) -> (r: Locator)
    ensures
        names_digest(value@) ==> (r matches Locator::Digest(d) && d@ == value@),
        !names_digest(value@) ==> (r matches Locator::Reference(x) && x@ == value@),
{
    let v = chars_of(value);
    let prefix = chars_of("sha256:");
    if has_prefix(&v, &prefix) {
        Locator::Digest(String::from_str(value))
    } else {
        Locator::Reference(String::from_str(value))
    }
}

/// Why no Paddock root could be chosen.
#[derive(Debug)]
pub struct PaddockError {
    pub message: String,
}

/// The Paddock root: `--paddock-dir`, else `$PIT_PADDOCK_ROOT`, else
/// `$XDG_DATA_HOME/pit/paddock`, else `$HOME/.local/share/pit/paddock`.
pub open spec fn paddock_root_spec(
    explicit: Option<Seq<char>>,
    root_var: Option<Seq<char>>,
    xdg_data_home: Option<Seq<char>>,
    home: Option<Seq<char>>,
) -> Option<Seq<char>> {
    match explicit {
        Some(p) => Some(p),
        None => match root_var {
            Some(p) => Some(p),
            None => match xdg_data_home {
                Some(x) => Some(joined(x, "pit/paddock"@)),
                None => match home {
                    Some(h) => Some(joined(h, ".local/share/pit/paddock"@)),
                    None => None,
                },
            },
        },
    }
}

pub open spec fn text_opt(o: Option<String>) -> Option<Seq<char>> {
    match o {
        Some(s) => Some(s@),
        None => None,
    }
}

/// Chooses the Paddock root from the option and the environment's values.
pub fn paddock_root(
    explicit: Option<String>,
    root_var: Option<String>,
    xdg_data_home: Option<String>,
    home: Option<String>,
) -> (r: Result<String, PaddockError>)
    ensures
        match paddock_root_spec(text_opt(explicit), text_opt(root_var), text_opt(xdg_data_home), text_opt(home)) {
            Some(p) => r matches Ok(q) && q@ == p,
            None => r matches Err(e) && e.message@
                == "unable to determine Paddock root; pass --paddock-dir"@,
        },
{
    if let Some(p) = explicit {
        return Ok(p);
    }
    if let Some(p) = root_var {
        return Ok(p);
    }
    if let Some(x) = xdg_data_home {
        return Ok(join_path(x.as_str(), "pit/paddock"));
    }
    if let Some(h) = home {
        return Ok(join_path(h.as_str(), ".local/share/pit/paddock"));
    }
    Err(PaddockError { message: String::from_str("unable to determine Paddock root; pass --paddock-dir") })
}


/// The Paddock root follows a fixed precedence: `--paddock-dir` when given;
/// else `$PIT_PADDOCK_ROOT` exactly as set, whatever the other variables
/// hold; else `pit/paddock` under `$XDG_DATA_HOME`; else
/// `.local/share/pit/paddock` under `$HOME`; else none.
pub proof fn law_paddock_root_precedence(
    explicit: Option<Seq<char>>,
    root_var: Option<Seq<char>>,
    xdg_data_home: Option<Seq<char>>,
    home: Option<Seq<char>>,
)
    ensures
        explicit is Some ==> paddock_root_spec(explicit, root_var, xdg_data_home, home) == explicit,
        explicit is None && root_var is Some ==> paddock_root_spec(explicit, root_var, xdg_data_home, home)
            == root_var,
        explicit is None && root_var is None && xdg_data_home is Some ==> paddock_root_spec(
            explicit,
            root_var,
            xdg_data_home,
            home,
        ) == Some(joined(xdg_data_home->0, "pit/paddock"@)),
        explicit is None && root_var is None && xdg_data_home is None && home is Some ==> paddock_root_spec(
            explicit,
            root_var,
            xdg_data_home,
            home,
        ) == Some(joined(home->0, ".local/share/pit/paddock"@)),
        paddock_root_spec(explicit, root_var, xdg_data_home, home) is None <==> explicit is None && root_var is None
            && xdg_data_home is None && home is None,
{
}

pub open spec fn texts(v: Seq<String>) -> Seq<Seq<char>> {
    v.map_values(|s: String| s@)
}

fn line2(a: &str, b: &str) -> (r: String)
    ensures
        r@ == a@ + b@,
{
    let mut l: Vec<char> = Vec::new();
    push_str(&mut l, a);
    push_str(&mut l, b);
    string_of(&l)
}

/// What `pit push` reports once the artifact is stored and its ref
/// published.
pub open spec fn push_report_spec(
    artifact: Seq<char>,
    digest: Seq<char>,
    size_bytes: u64,
    blob_uploaded: bool,
    reference: Seq<char>,
) -> Seq<Seq<char>> {
    seq![
        "Paddock"@,
        Seq::empty(),
        "Artifact: "@ + artifact,
        "Digest: "@ + digest,
        "Size: "@ + decimal(size_bytes as nat) + " bytes"@,
        Seq::empty(),
        "✓ Artifact verified"@,
        "✓ Blob "@ + if blob_uploaded { "uploaded"@ } else { "already present"@ },
        "✓ Manifest uploaded"@,
        "✓ Ref published"@,
        Seq::empty(),
        reference,
        "→ "@ + digest,
    ]
}

pub fn push_report(artifact: &str, digest: &str, size_bytes: u64, blob_uploaded: bool, reference: &str) -> (lines:
    Vec<String>)
    ensures
        texts(lines@) == push_report_spec(artifact@, digest@, size_bytes, blob_uploaded, reference@),
{
    let mut lines: Vec<String> = Vec::new();
    lines.push(String::from_str("Paddock"));
    lines.push(String::new());
    lines.push(line2("Artifact: ", artifact));
    lines.push(line2("Digest: ", digest));
    let mut size: Vec<char> = Vec::new();
    push_str(&mut size, "Size: ");
    push_decimal(&mut size, size_bytes as u128);
    push_str(&mut size, " bytes");
    lines.push(string_of(&size));
    lines.push(String::new());
    lines.push(String::from_str("✓ Artifact verified"));
    if blob_uploaded {
        lines.push(line2("✓ Blob ", "uploaded"));
    } else {
        lines.push(line2("✓ Blob ", "already present"));
    }
    lines.push(String::from_str("✓ Manifest uploaded"));
    lines.push(String::from_str("✓ Ref published"));
    lines.push(String::new());
    lines.push(String::from_str(reference));
    lines.push(line2("→ ", digest));
    assert(texts(lines@) =~= push_report_spec(artifact@, digest@, size_bytes, blob_uploaded, reference@));
    lines
}

/// Where `pit pull` caches an artifact: `.pit/cache/sha256/<hex>.wasm`
/// under the project.
pub open spec fn cache_path_spec(project: Seq<char>, hex: Seq<char>) -> Seq<char> {
    joined(joined(project, ".pit/cache/sha256"@), hex + ".wasm"@)
}

pub fn cache_path(project: &str, hex: &str) -> (r: String)
    ensures
        r@ == cache_path_spec(project@, hex@),
{
    let dir = join_path(project, ".pit/cache/sha256");
    let name = line2(hex, ".wasm");
    join_path(dir.as_str(), name.as_str())
}

/// What `pit pull` reports once the artifact is cached.
pub open spec fn pull_report_spec(reference: Option<Seq<char>>, digest: Seq<char>, cache: Seq<char>) -> Seq<
    Seq<char>,
> {
    seq!["Resolved:"@] + (match reference {
        Some(r) => seq![r],
        None => Seq::empty(),
    }) + seq![
        "→ "@ + digest,
        Seq::empty(),
        "✓ Manifest verified"@,
        "✓ Artifact downloaded and cached"@,
        "✓ SHA-256 verified"@,
        cache,
    ]
}

pub fn pull_report(reference: &Option<String>, digest: &str, cache: &str) -> (lines: Vec<String>)
    ensures
        texts(lines@) == pull_report_spec(text_opt(*reference), digest@, cache@),
{
    let mut lines: Vec<String> = Vec::new();
    lines.push(String::from_str("Resolved:"));
    match reference {
        Some(r) => lines.push(r.clone()),
        None => {},
    }
    lines.push(line2("→ ", digest));
    lines.push(String::new());
    lines.push(String::from_str("✓ Manifest verified"));
    lines.push(String::from_str("✓ Artifact downloaded and cached"));
    lines.push(String::from_str("✓ SHA-256 verified"));
    lines.push(String::from_str(cache));
    assert(texts(lines@) =~= pull_report_spec(text_opt(*reference), digest@, cache@));
    lines
}

/// The lines of `pit paddock list` for its refs and their digests.
pub open spec fn ref_list_spec(refs: Seq<(Seq<char>, Seq<char>)>) -> Seq<Seq<char>> {
    if refs.len() == 0 {
        seq!["No Paddock refs found."@]
    } else {
        seq!["REFERENCE                 DIGEST"@] + refs.map_values(
            |r: (Seq<char>, Seq<char>)| pad_right(r.0, 25) + " "@ + r.1,
        )
    }
}

pub fn ref_list(refs: &Vec<(String, String)>) -> (lines: Vec<String>)
    ensures
        texts(lines@) == ref_list_spec(refs@.map_values(|r: (String, String)| (r.0@, r.1@))),
{
    let ghost rs = refs@.map_values(|r: (String, String)| (r.0@, r.1@));
    let mut lines: Vec<String> = Vec::new();
    if refs.len() == 0 {
        lines.push(String::from_str("No Paddock refs found."));
        assert(texts(lines@) =~= ref_list_spec(rs));
        return lines;
    }
    lines.push(String::from_str("REFERENCE                 DIGEST"));
    let ghost want = rs.map_values(|r: (Seq<char>, Seq<char>)| pad_right(r.0, 25) + " "@ + r.1);
    let mut i: usize = 0;
    while i < refs.len()
        invariant
            i <= refs@.len(),
            rs == refs@.map_values(|r: (String, String)| (r.0@, r.1@)),
            want == rs.map_values(|r: (Seq<char>, Seq<char>)| pad_right(r.0, 25) + " "@ + r.1),
            texts(lines@) =~= seq!["REFERENCE                 DIGEST"@] + want.take(i as int),
        decreases refs.len() - i,
    {
        let mut l: Vec<char> = Vec::new();
        push_padded_right(&mut l, &chars_of(refs[i].0.as_str()), 25);
        push_str(&mut l, " ");
        push_str(&mut l, refs[i].1.as_str());
        let row = string_of(&l);
        assert(want[i as int] == row@);
        let ghost before = lines@;
        lines.push(row);
        assert(texts(lines@) =~= texts(before).push(row@));
        i = i + 1;
        assert(texts(lines@) =~= seq!["REFERENCE                 DIGEST"@] + want.take(i as int));
    }
    assert(want.take(i as int) =~= want);
    lines
}

/// What `pit paddock inspect` reports of a stored artifact.
pub open spec fn inspect_report_spec(
    reference: Seq<char>,
    digest: Seq<char>,
    size_bytes: u64,
    abi: Seq<char>,
    world: Option<Seq<char>>,
    format: Seq<char>,
) -> Seq<Seq<char>> {
    seq![
        "Reference"@,
        "  "@ + reference,
        Seq::empty(),
        "Digest"@,
        "  "@ + digest,
        Seq::empty(),
        "Artifact"@,
        "  Size: "@ + decimal(size_bytes as nat) + " bytes"@,
        "  ABI: "@ + abi,
        "  World: "@ + match world {
            Some(w) => w,
            None => "none"@,
        },
        "  Format: "@ + format,
        Seq::empty(),
        "Integrity"@,
        "  ✓ manifest valid"@,
        "  ✓ digest valid"@,
    ]
}

pub fn inspect_report(
    reference: &str,
    digest: &str,
    size_bytes: u64,
    abi: &str,
    world: &Option<String>,
    format: &str,
) -> (lines: Vec<String>)
    ensures
        texts(lines@) == inspect_report_spec(reference@, digest@, size_bytes, abi@, text_opt(*world), format@),
{
    let mut lines: Vec<String> = Vec::new();
    lines.push(String::from_str("Reference"));
    lines.push(line2("  ", reference));
    lines.push(String::new());
    lines.push(String::from_str("Digest"));
    lines.push(line2("  ", digest));
    lines.push(String::new());
    lines.push(String::from_str("Artifact"));
    let mut size: Vec<char> = Vec::new();
    push_str(&mut size, "  Size: ");
    push_decimal(&mut size, size_bytes as u128);
    push_str(&mut size, " bytes");
    lines.push(string_of(&size));
    lines.push(line2("  ABI: ", abi));
    match world {
        Some(w) => lines.push(line2("  World: ", w.as_str())),
        None => lines.push(line2("  World: ", "none")),
    }
    lines.push(line2("  Format: ", format));
    lines.push(String::new());
    lines.push(String::from_str("Integrity"));
    lines.push(String::from_str("  ✓ manifest valid"));
    lines.push(String::from_str("  ✓ digest valid"));
    assert(texts(lines@) =~= inspect_report_spec(reference@, digest@, size_bytes, abi@, text_opt(*world), format@));
    lines
}
} // verus!
