//! `pit service inspect`: the one logical service a `pit.toml` project
//! configures.

use vstd::prelude::*;
use vstd::string::StringExecFns;

use crate::manifest::{bindings_view, copy_text, opt_view, ResourceBinding};
use crate::project::ProjectConfig;
use crate::text::{push_str, string_of};

verus! {

#[derive(Debug)]
pub struct InspectArgs {
    pub id: String,
}

pub open spec fn texts(v: Seq<String>) -> Seq<Seq<char>> {
    v.map_values(|s: String| s@)
}

/// The project's service name: `[service].name`, else `[project].name`,
/// else `current-project`.
pub open spec fn service_name_spec(service: Option<Seq<char>>, project: Option<Seq<char>>) -> Seq<char> {
    match service {
        Some(n) => n,
        None => match project {
            Some(n) => n,
            None => "current-project"@,
        },
    }
}

pub fn service_name(config: &ProjectConfig) -> (r: String)
    ensures
        r@ == service_name_spec(opt_view(config.service.name), opt_view(config.project.name)),
{
    match &config.service.name {
        Some(n) => copy_text(n),
        None => match &config.project.name {
            Some(n) => copy_text(n),
            None => String::from_str("current-project"),
        },
    }
}

/// The lines of `pit service inspect` for a service named `name`.
pub open spec fn service_lines_spec(
    name: Seq<char>,
    artifact: Option<Seq<char>>,
    bindings: Seq<(Seq<char>, Seq<char>)>,
) -> Seq<Seq<char>> {
    seq!["Service: "@ + name] + (match artifact {
        Some(a) => seq!["Artifact: "@ + a],
        None => Seq::empty(),
    }) + if bindings.len() == 0 {
        seq!["Resources: none"@]
    } else {
        seq!["Resources"@] + bindings.map_values(|b: (Seq<char>, Seq<char>)| b.0 + " → "@ + b.1)
    }
}

/// A service id this project does not configure.
#[derive(Debug)]
pub struct ServiceError {
    pub message: String,
}

/// `pit service inspect`: refused unless the id is the project's service
/// name.
pub fn service_inspect_lines(config: &ProjectConfig, id: &String) -> (r: Result<Vec<String>, ServiceError>)
    ensures
        match r {
            Ok(lines) => service_name_spec(opt_view(config.service.name), opt_view(config.project.name))
                == id@ && texts(lines@) == service_lines_spec(
                id@,
                opt_view(config.service.artifact),
                bindings_view(config.service.resources@),
            ),
            Err(e) => service_name_spec(opt_view(config.service.name), opt_view(config.project.name))
                != id@ && e.message@ == "service '"@ + id@ + "' is not configured in this project"@,
        },
{
    let name = service_name(config);
    if name != *id {
        let mut m: Vec<char> = Vec::new();
        push_str(&mut m, "service '");
        push_str(&mut m, id.as_str());
        push_str(&mut m, "' is not configured in this project");
        return Err(ServiceError { message: string_of(&m) });
    }
    let mut lines: Vec<String> = Vec::new();
    let mut first: Vec<char> = Vec::new();
    push_str(&mut first, "Service: ");
    push_str(&mut first, name.as_str());
    lines.push(string_of(&first));
    match &config.service.artifact {
        Some(a) => {
            let mut l: Vec<char> = Vec::new();
            push_str(&mut l, "Artifact: ");
            push_str(&mut l, a.as_str());
            lines.push(string_of(&l));
        },
        None => {},
    }
    let ghost head = texts(lines@);
    let ghost bs = bindings_view(config.service.resources@);
    if config.service.resources.len() == 0 {
        lines.push(String::from_str("Resources: none"));
        assert(texts(lines@) =~= head + seq!["Resources: none"@]);
    } else {
        lines.push(String::from_str("Resources"));
        let ghost rows = bs.map_values(|b: (Seq<char>, Seq<char>)| b.0 + " → "@ + b.1);
        let mut i: usize = 0;
        while i < config.service.resources.len()
            invariant
                i <= config.service.resources@.len(),
                bs == bindings_view(config.service.resources@),
                rows == bs.map_values(|b: (Seq<char>, Seq<char>)| b.0 + " → "@ + b.1),
                texts(lines@) =~= head + seq!["Resources"@] + rows.take(i as int),
            decreases config.service.resources.len() - i,
        {
            let b: &ResourceBinding = &config.service.resources[i];
            let mut l: Vec<char> = Vec::new();
            push_str(&mut l, b.variable.as_str());
            push_str(&mut l, " → ");
            push_str(&mut l, b.resource.as_str());
            let row = string_of(&l);
            assert(bs[i as int] == (b.variable@, b.resource@));
            assert(rows[i as int] == row@);
            let ghost before = lines@;
            lines.push(row);
            assert(texts(lines@) =~= texts(before).push(row@));
            i = i + 1;
            assert(texts(lines@) =~= head + seq!["Resources"@] + rows.take(i as int));
        }
        assert(rows.take(i as int) =~= rows);
    }
    Ok(lines)
}

} // verus!
