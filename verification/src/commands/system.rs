//! `pit system`: the local PitBox hardware and the runtime ABIs and
//! component worlds it supports.

use vstd::prelude::*;
use vstd::string::StringExecFns;

use crate::text::{decimal, push_decimal, push_str, string_of};

verus! {

pub open spec fn texts(v: Seq<String>) -> Seq<Seq<char>> {
    v.map_values(|s: String| s@)
}

/// The report for a machine of architecture `arch` with `lanes` execution
/// lanes.
pub open spec fn system_report_spec(arch: Seq<char>, lanes: nat) -> Seq<Seq<char>> {
    seq![
        "PitFast Local System"@,
        Seq::empty(),
        "Architecture: "@ + arch,
        "Execution lanes: "@ + decimal(lanes),
        "Parallelism source: std::thread::available_parallelism()"@,
        Seq::empty(),
        "Runtime ABIs"@,
        "  wasi-preview1  supported"@,
        "  wasi-preview2  supported"@,
        Seq::empty(),
        "Canonical ABI: wasi-preview2"@,
        Seq::empty(),
        "Component Worlds"@,
        "  wasi:cli/command  supported"@,
        "  wasi:http/proxy   supported"@,
    ]
}

pub fn system_report(arch: &str, lanes: usize) -> (lines: Vec<String>)
    ensures
        texts(lines@) == system_report_spec(arch@, lanes as nat),
{
    let mut lines: Vec<String> = Vec::new();
    lines.push(String::from_str("PitFast Local System"));
    lines.push(String::new());
    let mut a: Vec<char> = Vec::new();
    push_str(&mut a, "Architecture: ");
    push_str(&mut a, arch);
    lines.push(string_of(&a));
    let mut l: Vec<char> = Vec::new();
    push_str(&mut l, "Execution lanes: ");
    push_decimal(&mut l, lanes as u128);
    lines.push(string_of(&l));
    lines.push(String::from_str("Parallelism source: std::thread::available_parallelism()"));
    lines.push(String::new());
    lines.push(String::from_str("Runtime ABIs"));
    lines.push(String::from_str("  wasi-preview1  supported"));
    lines.push(String::from_str("  wasi-preview2  supported"));
    lines.push(String::new());
    lines.push(String::from_str("Canonical ABI: wasi-preview2"));
    lines.push(String::new());
    lines.push(String::from_str("Component Worlds"));
    lines.push(String::from_str("  wasi:cli/command  supported"));
    lines.push(String::from_str("  wasi:http/proxy   supported"));
    assert(texts(lines@) =~= system_report_spec(arch@, lanes as nat));
    lines
}

} // verus!
