//! `pit inspect`: where an artifact manifest's project lies, and how sizes
//! are shown.

use vstd::prelude::*;
use vstd::string::StringExecFns;

use crate::paths::{file_name_of, parent_of, path_file_name, path_parent};
use crate::text::{decimal, push_decimal, push_str, string_of};

verus! {

/// `pit inspect`'s options.
#[derive(Debug)]
pub struct InspectArgs {
    /// Manifest path; defaults to the project's `.pit/artifact.json`.
    pub manifest: Option<String>,
}

/// The project of an artifact manifest: for `<dir>/.pit/artifact.json`, the
/// directory `<dir>` (the current directory when the path has none above
/// `.pit`); for any other manifest path, the current directory.
pub open spec fn project_dir_spec(current: Seq<char>, manifest: Seq<char>) -> Seq<char> {
    if file_name_of(manifest) == Some("artifact.json"@) && (match parent_of(manifest) {
        Some(p) => file_name_of(p) == Some(".pit"@),
        None => false,
    }) {
        match parent_of(parent_of(manifest)->0) {
            Some(g) => g,
            None => current,
        }
    } else {
        current
    }
}

pub fn project_dir_for_manifest(current: &str, manifest: &str) -> (r: String)
    ensures
        r@ == project_dir_spec(current@, manifest@),
{
    let is_artifact = match path_file_name(manifest) {
        Some(n) => n == String::from_str("artifact.json"),
        None => false,
    };
    if is_artifact {
        if let Some(parent) = path_parent(manifest) {
            let in_pit = match path_file_name(parent.as_str()) {
                Some(n) => n == String::from_str(".pit"),
                None => false,
            };
            if in_pit {
                return match path_parent(parent.as_str()) {
                    Some(g) => g,
                    None => String::from_str(current),
                };
            }
        }
    }
    String::from_str(current)
}

/// An execution memory limit: whole MiB when it is a multiple of 1 MiB,
/// else bytes.
pub open spec fn memory_text(bytes: u64) -> Seq<char> {
    if bytes % 1048576 == 0 {
        decimal((bytes / 1048576) as nat) + " MiB"@
    } else {
        decimal(bytes as nat) + " bytes"@
    }
}

pub fn format_bytes(bytes: u64) -> (r: String)
    ensures
        r@ == memory_text(bytes),
{
    let mut out: Vec<char> = Vec::new();
    if bytes % 1048576 == 0 {
        push_decimal(&mut out, (bytes / 1048576) as u128);
        push_str(&mut out, " MiB");
    } else {
        push_decimal(&mut out, bytes as u128);
        push_str(&mut out, " bytes");
    }
    string_of(&out)
}

} // verus!
