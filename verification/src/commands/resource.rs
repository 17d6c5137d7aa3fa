//! `pit resource`: the resources `pit.toml` configures, listed and looked
//! up by id. Reading `pit.toml` and the environment is the caller's.

use vstd::prelude::*;
use vstd::string::StringExecFns;

use crate::project::{ProjectConfig, ResourceSection};
use crate::text::{chars_of, pad_right, push_padded_right, push_str, string_of};

verus! {

#[derive(Debug)]
pub struct ResourceInspectArgs {
    pub id: String,
}

pub open spec fn texts(v: Seq<String>) -> Seq<Seq<char>> {
    v.map_values(|s: String| s@)
}

/// A `pit resource list` row.
pub open spec fn resource_row_spec(r: ResourceSection) -> Seq<char> {
    pad_right(r.id@, 12) + " "@ + pad_right(r.kind@, 10) + " "@ + pad_right(r.provider@, 14)
        + " configured"@
}

/// The lines of `pit resource list`: a note when nothing is configured,
/// else a heading and one row per resource, in order.
pub open spec fn resource_list_spec(resources: Seq<ResourceSection>) -> Seq<Seq<char>> {
    if resources.len() == 0 {
        seq!["No PitFast resources configured."@]
    } else {
        seq!["RESOURCE     KIND       PROVIDER       STATUS"@] + resources.map_values(
            |r: ResourceSection| resource_row_spec(r),
        )
    }
}

fn resource_row(r: &ResourceSection) -> (s: String)
    ensures
        s@ == resource_row_spec(*r),
{
    let mut out: Vec<char> = Vec::new();
    push_padded_right(&mut out, &chars_of(r.id.as_str()), 12);
    push_str(&mut out, " ");
    push_padded_right(&mut out, &chars_of(r.kind.as_str()), 10);
    push_str(&mut out, " ");
    push_padded_right(&mut out, &chars_of(r.provider.as_str()), 14);
    push_str(&mut out, " configured");
    string_of(&out)
}

pub fn resource_list_lines(config: &ProjectConfig) -> (lines: Vec<String>)
    ensures
        texts(lines@) == resource_list_spec(config.resources@),
{
    let mut lines: Vec<String> = Vec::new();
    if config.resources.len() == 0 {
        lines.push(String::from_str("No PitFast resources configured."));
        assert(texts(lines@) =~= resource_list_spec(config.resources@));
        return lines;
    }
    lines.push(String::from_str("RESOURCE     KIND       PROVIDER       STATUS"));
    let ghost rows = config.resources@.map_values(|r: ResourceSection| resource_row_spec(r));
    let mut i: usize = 0;
    while i < config.resources.len()
        invariant
            i <= config.resources@.len(),
            rows == config.resources@.map_values(|r: ResourceSection| resource_row_spec(r)),
            texts(lines@) =~= seq!["RESOURCE     KIND       PROVIDER       STATUS"@] + rows.take(
                i as int,
            ),
        decreases config.resources.len() - i,
    {
        let row = resource_row(&config.resources[i]);
        assert(rows[i as int] == row@);
        let ghost before = lines@;
        lines.push(row);
        assert(texts(lines@) =~= texts(before).push(row@));
        i = i + 1;
        assert(texts(lines@) =~= seq!["RESOURCE     KIND       PROVIDER       STATUS"@] + rows.take(
            i as int,
        ));
    }
    assert(rows.take(i as int) =~= rows);
    lines
}

/// A resource id `pit.toml` does not configure, or one whose URL variable is
/// not set.
#[derive(Debug)]
pub struct ResourceError {
    pub message: String,
}

/// The first configured resource with the id asked for.
pub fn find_resource(config: &ProjectConfig, id: &String) -> (r: Result<usize, ResourceError>)
    ensures
        match r {
            Ok(i) => i < config.resources@.len() && config.resources@[i as int].id@ == id@
                && forall|k: int| 0 <= k < i ==> config.resources@[k].id@ != id@,
            Err(e) => (forall|k: int| 0 <= k < config.resources@.len() ==> config.resources@[k].id@ != id@)
                && e.message@ == "unknown resource '"@ + id@ + "'"@,
        },
{
    let mut i: usize = 0;
    while i < config.resources.len()
        invariant
            i <= config.resources@.len(),
            forall|k: int| 0 <= k < i ==> config.resources@[k].id@ != id@,
        decreases config.resources.len() - i,
    {
        if config.resources[i].id == *id {
            return Ok(i);
        }
        i = i + 1;
    }
    let mut m: Vec<char> = Vec::new();
    push_str(&mut m, "unknown resource '");
    push_str(&mut m, id.as_str());
    push_str(&mut m, "'");
    Err(ResourceError { message: string_of(&m) })
}

fn labelled(label: &str, value: &str) -> (r: String)
    ensures
        r@ == label@ + value@,
{
    let mut out: Vec<char> = Vec::new();
    push_str(&mut out, label);
    push_str(&mut out, value);
    string_of(&out)
}

/// The lines of `pit resource inspect`; the secret itself is never shown.
pub fn resource_inspect_lines(r: &ResourceSection) -> (lines: Vec<String>)
    ensures
        texts(lines@) == seq![
            "Resource: "@ + r.id@,
            "Kind: "@ + r.kind@,
            "Provider: "@ + r.provider@,
            "URL environment variable: "@ + r.url_env@,
            "Secret value: redacted"@,
        ],
{
    let mut lines: Vec<String> = Vec::new();
    lines.push(labelled("Resource: ", r.id.as_str()));
    lines.push(labelled("Kind: ", r.kind.as_str()));
    lines.push(labelled("Provider: ", r.provider.as_str()));
    lines.push(labelled("URL environment variable: ", r.url_env.as_str()));
    lines.push(String::from_str("Secret value: redacted"));
    assert(texts(lines@) =~= seq![
        "Resource: "@ + r.id@,
        "Kind: "@ + r.kind@,
        "Provider: "@ + r.provider@,
        "URL environment variable: "@ + r.url_env@,
        "Secret value: redacted"@,
    ]);
    lines
}

/// What `pit resource check` reports, given whether the resource's URL
/// variable is set.
pub fn resource_check(r: &ResourceSection, url_env_set: bool) -> (out: Result<String, ResourceError>)
    ensures
        match out {
            Ok(s) => url_env_set && s@ == r.id@ + ": configured (connectivity requires the PitFast gateway)"@,
            Err(e) => !url_env_set && e.message@ == "resource URL environment variable "@ + r.url_env@
                + " is not set"@,
        },
{
    if !url_env_set {
        let mut m: Vec<char> = Vec::new();
        push_str(&mut m, "resource URL environment variable ");
        push_str(&mut m, r.url_env.as_str());
        push_str(&mut m, " is not set");
        return Err(ResourceError { message: string_of(&m) });
    }
    Ok(labelled(r.id.as_str(), ": configured (connectivity requires the PitFast gateway)"))
}

} // verus!
