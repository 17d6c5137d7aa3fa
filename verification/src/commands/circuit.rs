//! `pit circuit` and `pit garage`: what the Circuit snapshot says of its
//! Garages, laid out as the CLI prints it. Fetching the snapshot is the
//! caller's.

use vstd::prelude::*;
use vstd::string::StringExecFns;

use crate::paths::{endpoint_url, endpoint_url_spec};
use crate::text::{
    chars_of, contains_text, decimal, decimal_chars, pad_left, pad_right, push_all,
    push_decimal, push_padded_left, push_padded_right, push_str, string_of, to_lower, lower_of,
};

verus! {

#[derive(Debug)]
pub struct EndpointArgs {
    pub endpoint: String,
}

#[derive(Debug)]
pub struct GarageInspectArgs {
    pub id: String,
    pub endpoint: String,
}

/// One Garage as the Circuit snapshot reports it.
#[derive(Debug)]
pub struct GarageStatus {
    pub id: String,
    /// The name of the Garage's health state, as its `Debug` form writes it.
    pub health: String,
    pub endpoint: String,
    pub total_lanes: u64,
    pub active_lanes: u64,
    pub free_lanes: u64,
    pub queue_depth: u64,
    pub local_artifacts: Vec<String>,
    pub warm_artifacts: Vec<String>,
    pub hot_artifacts: Vec<String>,
}

/// A Circuit's membership snapshot.
#[derive(Debug)]
pub struct CircuitSnapshot {
    pub circuit_id: String,
    pub version: u64,
    pub garages: Vec<GarageStatus>,
}

pub open spec fn texts(v: Seq<String>) -> Seq<Seq<char>> {
    v.map_values(|s: String| s@)
}

/// The URL of the Circuit snapshot.
pub fn snapshot_url(endpoint: &str) -> (r: String)
    ensures
        r@ == endpoint_url_spec(endpoint@, "/v1/snapshot"@),
{
    endpoint_url(endpoint, "/v1/snapshot")
}

/// How many of `local` are neither warm nor hot.
pub open spec fn cold_spec(local: Seq<Seq<char>>, warm: Seq<Seq<char>>, hot: Seq<Seq<char>>) -> nat
    decreases local.len(),
{
    if local.len() == 0 {
        0
    } else {
        cold_spec(local.drop_last(), warm, hot) + if !warm.contains(local.last()) && !hot.contains(
            local.last(),
        ) {
            1nat
        } else {
            0nat
        }
    }
}

/// The number of the Garage's local artifacts that are neither warm nor hot.
pub fn cold_count(garage: &GarageStatus) -> (r: usize)
    ensures
        r == cold_spec(
            texts(garage.local_artifacts@),
            texts(garage.warm_artifacts@),
            texts(garage.hot_artifacts@),
        ),
{
    let ghost local = texts(garage.local_artifacts@);
    let ghost warm = texts(garage.warm_artifacts@);
    let ghost hot = texts(garage.hot_artifacts@);
    let mut n: usize = 0;
    let mut i: usize = 0;
    while i < garage.local_artifacts.len()
        invariant
            i <= garage.local_artifacts@.len(),
            local == texts(garage.local_artifacts@),
            warm == texts(garage.warm_artifacts@),
            hot == texts(garage.hot_artifacts@),
            n <= i,
            n == cold_spec(local.take(i as int), warm, hot),
        decreases garage.local_artifacts.len() - i,
    {
        assert(local.take(i + 1).drop_last() =~= local.take(i as int));
        let d = &garage.local_artifacts[i];
        assert(local.take(i + 1).last() == d@);
        if !contains_text(&garage.warm_artifacts, d) && !contains_text(&garage.hot_artifacts, d) {
            n = n + 1;
        }
        i = i + 1;
    }
    assert(local.take(i as int) =~= local);
    n
}

/// The heading of `pit garage list`.
pub fn garage_list_header() -> (r: String)
    ensures
        r@ == "GARAGE      STATUS    LANES  ACTIVE  QUEUE  COLD  WARM  HOT"@,
{
    String::from_str("GARAGE      STATUS    LANES  ACTIVE  QUEUE  COLD  WARM  HOT")
}

/// A `pit garage list` row, given the health in lower case: the id and
/// health left-aligned, the counts right-aligned, two spaces apart.
pub open spec fn garage_row_text(g: GarageStatus, health: Seq<char>, cold: nat) -> Seq<char> {
    pad_right(g.id@, 10) + "  "@ + pad_right(health, 8) + "  "@
        + pad_left(decimal(g.total_lanes as nat), 5, ' ') + "  "@
        + pad_left(decimal(g.active_lanes as nat), 6, ' ') + "  "@
        + pad_left(decimal(g.queue_depth as nat), 5, ' ') + "  "@
        + pad_left(decimal(cold), 4, ' ') + "  "@
        + pad_left(decimal(g.warm_artifacts@.len()), 4, ' ') + "  "@
        + pad_left(decimal(g.hot_artifacts@.len()), 4, ' ')
}

/// A `pit garage list` row, with the health as `str::to_lowercase` writes it.
pub open spec fn garage_row_spec(g: GarageStatus, cold: nat) -> Seq<char> {
    garage_row_text(g, lower_of(g.health@), cold)
}

pub open spec fn garage_cold(garage: GarageStatus) -> nat {
    cold_spec(
        texts(garage.local_artifacts@),
        texts(garage.warm_artifacts@),
        texts(garage.hot_artifacts@),
    )
}

pub fn garage_row(garage: &GarageStatus) -> (r: String)
    ensures
        r@ == garage_row_spec(*garage, garage_cold(*garage)),
{
    let health = to_lower(garage.health.as_str());
    garage_row_with(garage, health.as_str())
}

/// Writes a `pit garage list` row around its health already in lower case.
pub fn garage_row_with(garage: &GarageStatus, health: &str) -> (r: String)
    ensures
        r@ == garage_row_text(*garage, health@, garage_cold(*garage)),
{
    let cold = cold_count(garage);
    let mut out: Vec<char> = Vec::new();
    let id = chars_of(garage.id.as_str());
    push_padded_right(&mut out, &id, 10);
    push_str(&mut out, "  ");
    push_padded_right(&mut out, &chars_of(health), 8);
    push_str(&mut out, "  ");
    push_padded_left(&mut out, &decimal_chars(garage.total_lanes as u128), 5, ' ');
    push_str(&mut out, "  ");
    push_padded_left(&mut out, &decimal_chars(garage.active_lanes as u128), 6, ' ');
    push_str(&mut out, "  ");
    push_padded_left(&mut out, &decimal_chars(garage.queue_depth as u128), 5, ' ');
    push_str(&mut out, "  ");
    push_padded_left(&mut out, &decimal_chars(cold as u128), 4, ' ');
    push_str(&mut out, "  ");
    push_padded_left(&mut out, &decimal_chars(garage.warm_artifacts.len() as u128), 4, ' ');
    push_str(&mut out, "  ");
    push_padded_left(&mut out, &decimal_chars(garage.hot_artifacts.len() as u128), 4, ' ');
    string_of(&out)
}

/// The lines of `pit circuit status`.
pub fn status_lines(snapshot: &CircuitSnapshot) -> (lines: Vec<String>)
    ensures
        lines@.len() == 3,
        lines@[0]@ == "Circuit: "@ + snapshot.circuit_id@,
        lines@[1]@ == "Version: "@ + decimal(snapshot.version as nat),
        lines@[2]@ == "Garages: "@ + decimal(snapshot.garages@.len()),
{
    let mut lines: Vec<String> = Vec::new();
    let mut a: Vec<char> = Vec::new();
    push_str(&mut a, "Circuit: ");
    push_str(&mut a, snapshot.circuit_id.as_str());
    lines.push(string_of(&a));
    let mut b: Vec<char> = Vec::new();
    push_str(&mut b, "Version: ");
    push_decimal(&mut b, snapshot.version as u128);
    lines.push(string_of(&b));
    let mut c: Vec<char> = Vec::new();
    push_str(&mut c, "Garages: ");
    push_decimal(&mut c, snapshot.garages.len() as u128);
    lines.push(string_of(&c));
    lines
}

/// A Garage the snapshot does not hold.
#[derive(Debug)]
pub struct CircuitError {
    pub message: String,
}

/// The first Garage of the snapshot with the id asked for.
pub fn find_garage(snapshot: &CircuitSnapshot, id: &String) -> (r: Result<usize, CircuitError>)
    ensures
        match r {
            Ok(i) => i < snapshot.garages@.len() && snapshot.garages@[i as int].id@ == id@
                && forall|k: int| 0 <= k < i ==> snapshot.garages@[k].id@ != id@,
            Err(e) => (forall|k: int| 0 <= k < snapshot.garages@.len() ==> snapshot.garages@[k].id@ != id@)
                && e.message@ == "unknown Garage '"@ + id@ + "'"@,
        },
{
    let mut i: usize = 0;
    while i < snapshot.garages.len()
        invariant
            i <= snapshot.garages@.len(),
            forall|k: int| 0 <= k < i ==> snapshot.garages@[k].id@ != id@,
        decreases snapshot.garages.len() - i,
    {
        if snapshot.garages[i].id == *id {
            return Ok(i);
        }
        i = i + 1;
    }
    let mut m: Vec<char> = Vec::new();
    push_str(&mut m, "unknown Garage '");
    push_str(&mut m, id.as_str());
    push_str(&mut m, "'");
    Err(CircuitError { message: string_of(&m) })
}

fn labelled(label: &str, value: &str) -> (r: String)
    ensures
        r@ == label@ + value@,
{
    let mut out: Vec<char> = Vec::new();
    push_str(&mut out, label);
    push_str(&mut out, value);
    string_of(&out)
}

fn labelled_number(label: &str, value: u128) -> (r: String)
    ensures
        r@ == label@ + decimal(value as nat),
{
    let mut out: Vec<char> = Vec::new();
    push_str(&mut out, label);
    push_decimal(&mut out, value);
    string_of(&out)
}

/// The lines of `pit garage inspect`: identity, lane grid, and artifact
/// counts by temperature.
pub open spec fn garage_inspect_spec(g: GarageStatus, cold: nat) -> Seq<Seq<char>> {
    seq![
        "Garage"@,
        "  ID: "@ + g.id@,
        "  Status: "@ + g.health@,
        "  Endpoint: "@ + g.endpoint@,
        Seq::empty(),
        "Grid"@,
        "  Lanes: "@ + decimal(g.total_lanes as nat),
        "  Active: "@ + decimal(g.active_lanes as nat),
        "  Free: "@ + decimal(g.free_lanes as nat),
        "  Queue: "@ + decimal(g.queue_depth as nat),
        Seq::empty(),
        "Artifacts"@,
        "  Local: "@ + decimal(g.local_artifacts@.len()),
        "  Cold: "@ + decimal(cold),
        "  Warm: "@ + decimal(g.warm_artifacts@.len()),
        "  Hot: "@ + decimal(g.hot_artifacts@.len()),
    ]
}

pub fn garage_inspect_lines(garage: &GarageStatus) -> (lines: Vec<String>)
    ensures
        texts(lines@) == garage_inspect_spec(
            *garage,
            cold_spec(
                texts(garage.local_artifacts@),
                texts(garage.warm_artifacts@),
                texts(garage.hot_artifacts@),
            ),
        ),
{
    let cold = cold_count(garage);
    let mut lines: Vec<String> = Vec::new();
    lines.push(String::from_str("Garage"));
    lines.push(labelled("  ID: ", garage.id.as_str()));
    lines.push(labelled("  Status: ", garage.health.as_str()));
    lines.push(labelled("  Endpoint: ", garage.endpoint.as_str()));
    lines.push(String::new());
    lines.push(String::from_str("Grid"));
    lines.push(labelled_number("  Lanes: ", garage.total_lanes as u128));
    lines.push(labelled_number("  Active: ", garage.active_lanes as u128));
    lines.push(labelled_number("  Free: ", garage.free_lanes as u128));
    lines.push(labelled_number("  Queue: ", garage.queue_depth as u128));
    lines.push(String::new());
    lines.push(String::from_str("Artifacts"));
    lines.push(labelled_number("  Local: ", garage.local_artifacts.len() as u128));
    lines.push(labelled_number("  Cold: ", cold as u128));
    lines.push(labelled_number("  Warm: ", garage.warm_artifacts.len() as u128));
    lines.push(labelled_number("  Hot: ", garage.hot_artifacts.len() as u128));
    assert(texts(lines@) =~= garage_inspect_spec(
        *garage,
        cold_spec(
            texts(garage.local_artifacts@),
            texts(garage.warm_artifacts@),
            texts(garage.hot_artifacts@),
        ),
    ));
    lines
}

} // verus!
