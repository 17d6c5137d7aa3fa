//! The Cockpit: a read-only terminal view of PitLane's lanes and queue.
//! The terminal itself is driven by the caller; this module lays out the
//! text and decides how the view reacts to keys and fetches.

use vstd::prelude::*;
use vstd::string::StringExecFns;

use crate::text::{
    chars_of, decimal, pad_left, pad_right, push_all, push_decimal, push_padded_left,
    push_padded_right, push_str, string_of, to_upper, upper_of,
};

verus! {

/// At most this many completed executions are shown in the exit row.
pub const MAX_EXIT_TOKENS: usize = 8;

/// The Cockpit's options.
#[derive(Debug)]
pub struct CockpitArgs {
    /// PitLane's loopback read-only control endpoint.
    pub endpoint: String,
    /// Snapshot refresh interval in milliseconds (50 to 2000).
    pub refresh_ms: u64,
    /// Where to save the last received snapshot on exit.
    pub json_on_exit: Option<String>,
}

/// `text` cut to at most `max` characters, a final `…` marking a cut.
pub open spec fn fitted(text: Seq<char>, max: nat) -> Seq<char> {
    if text.len() <= max {
        text
    } else if max == 0 {
        Seq::empty()
    } else if max == 1 {
        seq!['…']
    } else {
        text.subrange(0, max - 1).push('…')
    }
}

/// Cuts `text` to at most `max_chars` characters for a narrow terminal.
pub fn fit_text(text: &str, max_chars: usize) -> (r: String)
    ensures
        r@ == fitted(text@, max_chars as nat),
{
    let t = chars_of(text);
    if t.len() <= max_chars {
        return string_of(&t);
    }
    if max_chars == 0 {
        return String::new();
    }
    let mut out: Vec<char> = Vec::new();
    let mut i: usize = 0;
    while i + 1 < max_chars
        invariant
            max_chars <= t@.len(),
            i < max_chars,
            out@ == t@.subrange(0, i as int),
        decreases max_chars - i,
    {
        out.push(t[i]);
        i = i + 1;
        assert(out@ =~= t@.subrange(0, i as int));
    }
    out.push('…');
    proof {
        if max_chars == 1 {
            assert(out@ =~= seq!['…']);
        }
    }
    string_of(&out)
}

/// The last six characters of an identifier (all of it when shorter).
pub open spec fn short(value: Seq<char>) -> Seq<char> {
    if value.len() <= 6 {
        value
    } else {
        value.subrange(value.len() - 6, value.len() as int)
    }
}

/// The compact form of an execution or release identifier.
pub fn short_id(value: &str) -> (r: String)
    ensures
        r@ == short(value@),
{
    let v = chars_of(value);
    let start: usize = if v.len() <= 6 { 0 } else { v.len() - 6 };
    let mut out: Vec<char> = Vec::new();
    let mut i: usize = start;
    while i < v.len()
        invariant
            start <= i <= v@.len(),
            out@ == v@.subrange(start as int, i as int),
        decreases v.len() - i,
    {
        out.push(v[i]);
        i = i + 1;
        assert(out@ =~= v@.subrange(start as int, i as int));
    }
    assert(v@.len() <= 6 ==> v@.subrange(0, v@.len() as int) =~= v@);
    string_of(&out)
}

/// A resident-memory figure in whole MiB, or `n/a` when unknown.
pub open spec fn bytes_text(value: Option<u64>) -> Seq<char> {
    match value {
        Some(v) => decimal((v / 1024 / 1024) as nat) + "MiB"@,
        None => "n/a"@,
    }
}

pub fn format_bytes(value: Option<u64>) -> (r: String)
    ensures
        r@ == bytes_text(value),
{
    match value {
        Some(v) => {
            let mut out: Vec<char> = Vec::new();
            push_decimal(&mut out, (v / 1024 / 1024) as u128);
            push_str(&mut out, "MiB");
            string_of(&out)
        },
        None => String::from_str("n/a"),
    }
}

/// The colors the Cockpit draws with.
#[derive(Debug, Clone, Copy, PartialEq, Eq, Structural)]
pub enum Color {
    Red,
    Green,
    Yellow,
    Cyan,
    DarkGrey,
    /// The terminal's own color.
    Plain,
}

/// The color of a service's readiness: hot is green, warm yellow, others grey.
pub open spec fn readiness_color_spec(readiness: Seq<char>) -> Color {
    if readiness == "hot"@ {
        Color::Green
    } else if readiness == "warm"@ {
        Color::Yellow
    } else {
        Color::DarkGrey
    }
}

pub fn readiness_color(readiness: &str) -> (c: Color)
    ensures
        c == readiness_color_spec(readiness@),
{
    let r = String::from_str(readiness);
    if r == String::from_str("hot") {
        Color::Green
    } else if r == String::from_str("warm") {
        Color::Yellow
    } else {
        Color::DarkGrey
    }
}


/// `ts` joined by `sep`.
pub open spec fn joined_by(ts: Seq<Seq<char>>, sep: Seq<char>) -> Seq<char>
    decreases ts.len(),
{
    if ts.len() == 0 {
        Seq::empty()
    } else if ts.len() == 1 {
        ts[0]
    } else {
        joined_by(ts.drop_last(), sep) + sep + ts.last()
    }
}

/// `n` as at least two digits (`{:02}`).
pub open spec fn two_digits(n: nat) -> Seq<char> {
    pad_left(decimal(n), 2, '0')
}

fn push_two_digits(out: &mut Vec<char>, n: u128)
    ensures
        final(out)@ == old(out)@ + two_digits(n as nat),
{
    let mut d: Vec<char> = Vec::new();
    push_decimal(&mut d, n);
    assert(d@ =~= decimal(n as nat));
    push_padded_left(out, &d, 2, '0');
}

/// One queued request of the entry row: `[WAITING #01]` for the first.
pub open spec fn waiting_token(i: nat) -> Seq<char> {
    "[WAITING #"@ + two_digits(i + 1) + "]"@
}

/// The entry row: one token per waiting request, at most eight.
pub open spec fn queue_text_spec(queue_count: nat) -> Seq<char> {
    if queue_count == 0 {
        "EMPTY - no work waiting"@
    } else {
        joined_by(
            Seq::new(
                if queue_count < 8 {
                    queue_count
                } else {
                    8
                },
                |i: int| waiting_token(i as nat),
            ),
            "  "@,
        )
    }
}

pub fn queue_text(queue_count: usize) -> (r: String)
    ensures
        r@ == queue_text_spec(queue_count as nat),
{
    if queue_count == 0 {
        return String::from_str("EMPTY - no work waiting");
    }
    let shown: usize = if queue_count < 8 { queue_count } else { 8 };
    let ghost all = Seq::new(shown as nat, |i: int| waiting_token(i as nat));
    let mut out: Vec<char> = Vec::new();
    let mut i: usize = 0;
    while i < shown
        invariant
            i <= shown <= 8,
            all == Seq::new(shown as nat, |i: int| waiting_token(i as nat)),
            out@ == joined_by(all.take(i as int), "  "@),
        decreases shown - i,
    {
        if i > 0 {
            push_str(&mut out, "  ");
        }
        push_str(&mut out, "[WAITING #");
        push_two_digits(&mut out, (i + 1) as u128);
        push_str(&mut out, "]");
        proof {
            let pre = all.take(i + 1);
            assert(pre.drop_last() =~= all.take(i as int));
            assert(pre.last() == waiting_token(i as nat));
            if i == 0 {
                assert(all.take(0) =~= Seq::<Seq<char>>::empty());
            }
        }
        i = i + 1;
    }
    assert(all.take(shown as int) =~= all);
    string_of(&out)
}

/// The detail of the entry row's header: `[WAITING 03]`.
pub fn waiting_detail(queue_count: usize) -> (r: String)
    ensures
        r@ == "[WAITING "@ + two_digits(queue_count as nat) + "]"@,
{
    let mut out: Vec<char> = Vec::new();
    push_str(&mut out, "[WAITING ");
    push_two_digits(&mut out, queue_count as u128);
    push_str(&mut out, "]");
    string_of(&out)
}

/// The lanes' box detail: `[RUNNING running/lanes]`.
pub fn running_detail(running: usize, lane_count: usize) -> (r: String)
    ensures
        r@ == "[RUNNING "@ + decimal(running as nat) + "/"@ + decimal(lane_count as nat) + "]"@,
{
    let mut out: Vec<char> = Vec::new();
    push_str(&mut out, "[RUNNING ");
    push_decimal(&mut out, running as u128);
    push_str(&mut out, "/");
    push_decimal(&mut out, lane_count as u128);
    push_str(&mut out, "]");
    string_of(&out)
}

/// An execution lane of the grid.
#[derive(Debug)]
pub struct Lane {
    pub lane_id: usize,
    pub state: String,
    pub execution_id: Option<String>,
    pub service_id: Option<String>,
    pub release_id: Option<String>,
    pub variant: Option<String>,
    pub shadow: bool,
}

/// An identifier in short form, or `-` when absent.
pub open spec fn short_or_dash(v: Option<String>) -> Seq<char> {
    match v {
        Some(s) => short(s@),
        None => "-"@,
    }
}

pub open spec fn text_or(v: Option<String>, fallback: Seq<char>) -> Seq<char> {
    match v {
        Some(s) => s@,
        None => fallback,
    }
}

/// A lane's line: what it runs, or that it is free.
pub open spec fn lane_text_spec(lane: Lane) -> Seq<char> {
    if lane.state@ == "running"@ {
        "LANE "@ + two_digits((lane.lane_id + 1) as nat) + "  [RUNNING]  "@ + text_or(
            lane.service_id,
            "service?"@,
        ) + "  exec="@ + short_or_dash(lane.execution_id) + "  release="@ + short_or_dash(
            lane.release_id,
        ) + "  "@ + text_or(lane.variant, "-"@) + if lane.shadow {
            "  SHADOW"@
        } else {
            Seq::empty()
        }
    } else {
        "LANE "@ + two_digits((lane.lane_id + 1) as nat) + "  [FREE]     no execution"@
    }
}

fn push_short_or_dash(out: &mut Vec<char>, v: &Option<String>)
    ensures
        final(out)@ == old(out)@ + short_or_dash(*v),
{
    match v {
        Some(s) => {
            let t = short_id(s.as_str());
            push_str(out, t.as_str());
        },
        None => push_str(out, "-"),
    }
}

fn push_text_or(out: &mut Vec<char>, v: &Option<String>, fallback: &str)
    ensures
        final(out)@ == old(out)@ + text_or(*v, fallback@),
{
    match v {
        Some(s) => push_str(out, s.as_str()),
        None => push_str(out, fallback),
    }
}

pub fn lane_text(lane: &Lane) -> (r: String)
    requires
        lane.lane_id < usize::MAX,
    ensures
        r@ == lane_text_spec(*lane),
{
    let mut out: Vec<char> = Vec::new();
    push_str(&mut out, "LANE ");
    push_two_digits(&mut out, (lane.lane_id + 1) as u128);
    if lane.state == String::from_str("running") {
        push_str(&mut out, "  [RUNNING]  ");
        push_text_or(&mut out, &lane.service_id, "service?");
        push_str(&mut out, "  exec=");
        push_short_or_dash(&mut out, &lane.execution_id);
        push_str(&mut out, "  release=");
        push_short_or_dash(&mut out, &lane.release_id);
        push_str(&mut out, "  ");
        push_text_or(&mut out, &lane.variant, "-");
        if lane.shadow {
            push_str(&mut out, "  SHADOW");
        } else {
            assert(out@ + Seq::<char>::empty() =~= out@);
        }
    } else {
        push_str(&mut out, "  [FREE]     no execution");
    }
    string_of(&out)
}

/// A completed or failed execution.
#[derive(Debug)]
pub struct Execution {
    pub request_id: String,
    pub execution_id: String,
    pub service_id: String,
    pub release_id: Option<String>,
    pub variant: Option<String>,
    pub shadow: bool,
    pub lane_id: usize,
    pub status: String,
    pub queue_wait_us: u128,
    pub dispatch_gap_us: u128,
    pub guest_execution_us: u128,
    pub total_us: u128,
}

/// An exit-row token: `[EXIT]` for a completed execution, `[FAILED]` else.
pub open spec fn exit_token(e: Execution) -> Seq<char> {
    "["@ + (if e.status@ == "completed"@ {
        "EXIT"@
    } else {
        "FAILED"@
    }) + "] "@ + e.service_id@ + " · exec="@ + short(e.execution_id@)
}

/// The exit row: the most recent executions first, at most eight.
pub open spec fn exit_text_spec(recent: Seq<Execution>) -> Seq<char> {
    if recent.len() == 0 {
        "EMPTY - no completed executions yet"@
    } else {
        joined_by(
            Seq::new(
                if recent.len() < 8 {
                    recent.len()
                } else {
                    8
                },
                |k: int| exit_token(recent[recent.len() - 1 - k]),
            ),
            "  "@,
        )
    }
}

pub fn exit_text(recent: &Vec<Execution>) -> (r: String)
    ensures
        r@ == exit_text_spec(recent@),
{
    let n = recent.len();
    if n == 0 {
        return String::from_str("EMPTY - no completed executions yet");
    }
    let shown: usize = if n < MAX_EXIT_TOKENS { n } else { MAX_EXIT_TOKENS };
    let ghost all = Seq::new(shown as nat, |k: int| exit_token(recent@[n - 1 - k]));
    let mut out: Vec<char> = Vec::new();
    let mut k: usize = 0;
    while k < shown
        invariant
            k <= shown <= n,
            n == recent@.len(),
            shown <= 8,
            all == Seq::new(shown as nat, |k: int| exit_token(recent@[n - 1 - k])),
            out@ == joined_by(all.take(k as int), "  "@),
        decreases shown - k,
    {
        if k > 0 {
            push_str(&mut out, "  ");
        }
        let e = &recent[n - 1 - k];
        push_str(&mut out, "[");
        if e.status == String::from_str("completed") {
            push_str(&mut out, "EXIT");
        } else {
            push_str(&mut out, "FAILED");
        }
        push_str(&mut out, "] ");
        push_str(&mut out, e.service_id.as_str());
        push_str(&mut out, " · exec=");
        let sid = short_id(e.execution_id.as_str());
        push_str(&mut out, sid.as_str());
        proof {
            let pre = all.take(k + 1);
            assert(pre.drop_last() =~= all.take(k as int));
            assert(pre.last() == exit_token(recent@[n - 1 - k]));
            if k == 0 {
                assert(all.take(0) =~= Seq::<Seq<char>>::empty());
            }
            assert(out@ =~= joined_by(all.take(k + 1), "  "@));
        }
        k = k + 1;
    }
    assert(all.take(shown as int) =~= all);
    string_of(&out)
}


pub open spec fn dashes(n: nat) -> Seq<char> {
    Seq::new(n, |i: int| '-')
}

/// A box's top border: `+-- TITLE DETAIL ---…-+`, as wide as the terminal
/// when the title fits.
pub open spec fn box_header_spec(title: Seq<char>, detail: Seq<char>, width: nat) -> Seq<char> {
    let prefix = "+-- "@ + title + " "@ + detail + " "@;
    let fill = if width > prefix.len() + 1 {
        (width - prefix.len() - 1) as nat
    } else {
        0
    };
    prefix + dashes(fill) + "+"@
}

pub fn box_header_text(title: &str, detail: &str, width: u16) -> (r: String)
    ensures
        r@ == box_header_spec(title@, detail@, width as nat),
{
    let mut out: Vec<char> = Vec::new();
    push_str(&mut out, "+-- ");
    push_str(&mut out, title);
    push_str(&mut out, " ");
    push_str(&mut out, detail);
    push_str(&mut out, " ");
    let ghost prefix = out@;
    let w = width as usize;
    let fill: usize = if w > 0 && out.len() < w - 1 { w - 1 - out.len() } else { 0 };
    let mut k: usize = 0;
    while k < fill
        invariant
            k <= fill,
            out@ == prefix + dashes(k as nat),
        decreases fill - k,
    {
        out.push('-');
        k = k + 1;
        assert(out@ =~= prefix + dashes(k as nat));
    }
    push_str(&mut out, "+");
    string_of(&out)
}

/// A box's inner line: `| text |`, the text cut or padded to the inside width.
pub open spec fn box_line_spec(text: Seq<char>, width: nat) -> Seq<char> {
    let inner = if width > 4 {
        (width - 4) as nat
    } else {
        0
    };
    "| "@ + pad_right(fitted(text, inner), inner) + " |"@
}

pub fn box_line_text(text: &str, width: u16) -> (r: String)
    ensures
        r@ == box_line_spec(text@, width as nat),
{
    let w = width as usize;
    let inner: usize = if w > 4 { w - 4 } else { 0 };
    let fitted_text = fit_text(text, inner);
    let f = chars_of(fitted_text.as_str());
    let mut out: Vec<char> = Vec::new();
    push_str(&mut out, "| ");
    push_padded_right(&mut out, &f, inner);
    push_str(&mut out, " |");
    string_of(&out)
}

/// The arrow between two boxes, labelled, cut to the terminal width.
pub open spec fn flow_arrow_spec(label: Seq<char>, width: nat) -> Seq<char> {
    fitted("                         |  "@ + label + "  v"@, width)
}

pub fn flow_arrow_text(label: &str, width: u16) -> (r: String)
    ensures
        r@ == flow_arrow_spec(label@, width as nat),
{
    let mut out: Vec<char> = Vec::new();
    push_str(&mut out, "                         |  ");
    push_str(&mut out, label);
    push_str(&mut out, "  v");
    let t = string_of(&out);
    fit_text(t.as_str(), width as usize)
}

/// The detail line about the latest execution.
pub open spec fn detail_spec(e: Execution) -> Seq<char> {
    "DETAIL latest="@ + e.execution_id@ + " req="@ + e.request_id@ + " service="@ + e.service_id@
        + " release="@ + text_or(e.release_id, "n/a"@) + " variant="@ + text_or(
        e.variant,
        "stable"@,
    ) + (if e.shadow {
        " shadow"@
    } else {
        Seq::empty()
    }) + " lane="@ + decimal((e.lane_id + 1) as nat) + " queue-wait="@ + decimal(
        e.queue_wait_us as nat,
    ) + "us dispatch-gap="@ + decimal(e.dispatch_gap_us as nat) + "us guest="@ + decimal(
        e.guest_execution_us as nat,
    ) + "us total="@ + decimal(e.total_us as nat) + "us"@
}

pub fn detail_text(e: &Execution) -> (r: String)
    requires
        e.lane_id < usize::MAX,
    ensures
        r@ == detail_spec(*e),
{
    let mut out: Vec<char> = Vec::new();
    push_str(&mut out, "DETAIL latest=");
    push_str(&mut out, e.execution_id.as_str());
    push_str(&mut out, " req=");
    push_str(&mut out, e.request_id.as_str());
    push_str(&mut out, " service=");
    push_str(&mut out, e.service_id.as_str());
    push_str(&mut out, " release=");
    push_text_or(&mut out, &e.release_id, "n/a");
    push_str(&mut out, " variant=");
    push_text_or(&mut out, &e.variant, "stable");
    if e.shadow {
        push_str(&mut out, " shadow");
    } else {
        assert(out@ + Seq::<char>::empty() =~= out@);
    }
    push_str(&mut out, " lane=");
    push_decimal(&mut out, (e.lane_id + 1) as u128);
    push_str(&mut out, " queue-wait=");
    push_decimal(&mut out, e.queue_wait_us);
    push_str(&mut out, "us dispatch-gap=");
    push_decimal(&mut out, e.dispatch_gap_us);
    push_str(&mut out, "us guest=");
    push_decimal(&mut out, e.guest_execution_us);
    push_str(&mut out, "us total=");
    push_decimal(&mut out, e.total_us);
    push_str(&mut out, "us");
    string_of(&out)
}

/// The state the Cockpit keeps between refreshes.
#[derive(Debug)]
pub struct CockpitState {
    pub paused: bool,
    /// The body of the last snapshot that decoded.
    pub last_json: Option<String>,
    /// The failure of the last fetch, if it failed.
    pub error: Option<String>,
}

/// What one fetch of the snapshot gave.
#[derive(Debug)]
pub enum FetchOutcome {
    /// The body decoded as a snapshot.
    Decoded(String),
    /// The body did not decode; the decoder's message.
    Undecodable(String),
    /// The request failed after reaching PitLane (an HTTP error status or
    /// an unreadable body); the error's message.
    Failed(String),
    /// PitLane could not be reached; the error's message.
    Unreachable(String),
}

/// A key press as the Cockpit reads it.
#[derive(Debug, Clone, Copy, PartialEq, Eq, Structural)]
pub enum CockpitKey {
    /// `q` or Escape.
    Quit,
    /// `p` or space.
    Pause,
    Other,
}

/// What the Cockpit does after a key press.
#[derive(Debug)]
pub enum CockpitAction {
    Continue,
    /// Leave; save `json` to `path` first when both are known.
    Exit { save: Option<(String, String)> },
}

impl CockpitState {
    pub fn new() -> (s: CockpitState)
        ensures
            !s.paused,
            s.last_json is None,
            s.error is None,
    {
        CockpitState { paused: false, last_json: None, error: None }
    }

    /// Whether the next refresh fetches a snapshot (not while paused).
    pub fn should_fetch(&self) -> (r: bool)
        ensures
            r == !self.paused,
    {
        !self.paused
    }

    /// Records a fetch: a decoded body becomes the last snapshot and clears
    /// the error; any failure is kept as the error, with the last snapshot.
    pub fn record_fetch(&mut self, outcome: FetchOutcome)
        ensures
            final(self).paused == old(self).paused,
            match outcome {
                FetchOutcome::Decoded(body) => opt_text(final(self).last_json) == Some(body@)
                    && final(self).error is None,
                FetchOutcome::Undecodable(d) => opt_text(final(self).last_json) == opt_text(
                    old(self).last_json,
                ) && opt_text(final(self).error) == Some("invalid snapshot: "@ + d@),
                FetchOutcome::Failed(d) => opt_text(final(self).last_json) == opt_text(
                    old(self).last_json,
                ) && opt_text(final(self).error) == Some(d@),
                FetchOutcome::Unreachable(d) => opt_text(final(self).last_json) == opt_text(
                    old(self).last_json,
                ) && opt_text(final(self).error) == Some("PitLane unavailable: "@ + d@),
            },
    {
        match outcome {
            FetchOutcome::Decoded(body) => {
                self.last_json = Some(body);
                self.error = None;
            },
            FetchOutcome::Undecodable(d) => {
                let mut m: Vec<char> = Vec::new();
                push_str(&mut m, "invalid snapshot: ");
                push_str(&mut m, d.as_str());
                self.error = Some(string_of(&m));
            },
            FetchOutcome::Failed(d) => {
                self.error = Some(d);
            },
            FetchOutcome::Unreachable(d) => {
                let mut m: Vec<char> = Vec::new();
                push_str(&mut m, "PitLane unavailable: ");
                push_str(&mut m, d.as_str());
                self.error = Some(string_of(&m));
            },
        }
    }

    /// Reacts to a key: quitting saves the last snapshot where `--json-on-exit`
    /// asks; pausing toggles; other keys change nothing.
    pub fn on_key(&mut self, key: CockpitKey, json_on_exit: &Option<String>) -> (a: CockpitAction)
        ensures
            final(self).last_json == old(self).last_json,
            key == CockpitKey::Pause ==> final(self).paused == !old(self).paused && a is Continue,
            key == CockpitKey::Other ==> final(self).paused == old(self).paused && a is Continue,
            key == CockpitKey::Quit ==> match a {
                CockpitAction::Exit { save } => match (*json_on_exit, old(self).last_json) {
                    (Some(p), Some(j)) => save matches Some(s) && s.0@ == p@ && s.1@ == j@,
                    _ => save is None,
                },
                _ => false,
            },
    {
        match key {
            CockpitKey::Quit => {
                let save = match (json_on_exit, &self.last_json) {
                    (Some(p), Some(j)) => Some((p.clone(), j.clone())),
                    _ => None,
                };
                CockpitAction::Exit { save }
            },
            CockpitKey::Pause => {
                self.paused = !self.paused;
                CockpitAction::Continue
            },
            CockpitKey::Other => CockpitAction::Continue,
        }
    }
}

pub open spec fn opt_text(o: Option<String>) -> Option<Seq<char>> {
    match o {
        Some(s) => Some(s@),
        None => None,
    }
}


/// The terminal size the Cockpit draws for: the size reported (120×36 when
/// unknown), but never below 120×36 in the order that compares width first
/// and height only between equal widths.
pub open spec fn frame_size_spec(reported: Option<(u16, u16)>) -> (u16, u16) {
    let (w, h) = match reported {
        Some(s) => s,
        None => (120u16, 36u16),
    };
    if w > 120 || (w == 120 && h > 36) {
        (w, h)
    } else {
        (120u16, 36u16)
    }
}

pub fn frame_size(reported: Option<(u16, u16)>) -> (r: (u16, u16))
    ensures
        r == frame_size_spec(reported),
{
    let (w, h) = match reported {
        Some(s) => s,
        None => (120u16, 36u16),
    };
    if w > 120 || (w == 120 && h > 36) {
        (w, h)
    } else {
        (120u16, 36u16)
    }
}

/// The mark after the title: paused or live.
pub open spec fn title_status(paused: bool) -> Seq<char> {
    if paused {
        " [PAUSED]"@
    } else {
        " [LIVE]"@
    }
}

/// The rule after the title: `─` to the terminal's width less 22.
pub open spec fn title_rule_spec(width: nat) -> Seq<char> {
    "   "@ + Seq::new(if width > 22 { (width - 22) as nat } else { 0 }, |i: int| '─')
}

pub fn title_tail(paused: bool, width: u16) -> (r: String)
    ensures
        r@ == title_status(paused) + title_rule_spec(width as nat),
{
    let mut out: Vec<char> = Vec::new();
    if paused {
        push_str(&mut out, " [PAUSED]");
    } else {
        push_str(&mut out, " [LIVE]");
    }
    push_str(&mut out, "   ");
    let ghost start = out@;
    let n: usize = if width > 22 { (width - 22) as usize } else { 0 };
    let mut k: usize = 0;
    while k < n
        invariant
            k <= n,
            out@ == start + Seq::new(k as nat, |i: int| '─'),
        decreases n - k,
    {
        out.push('─');
        k = k + 1;
        assert(out@ =~= start + Seq::new(k as nat, |i: int| '─'));
    }
    assert(out@ =~= title_status(paused) + title_rule_spec(width as nat));
    string_of(&out)
}

/// A service of the snapshot.
#[derive(Debug)]
pub struct CockpitService {
    pub service_id: String,
    pub deployed: bool,
    pub readiness: String,
    pub active_executions: usize,
    pub total_requests: u64,
    pub failures: u64,
    /// Whether the snapshot records any activity of the service.
    pub last_activity_seen: bool,
}

/// A service's row, given its readiness in capitals: id and readiness in
/// columns, its counters, and whether it has been seen.
pub open spec fn service_row_text(s: CockpitService, readiness: Seq<char>) -> Seq<char> {
    "  "@ + pad_right(s.service_id@, 14) + " "@ + pad_right(readiness, 5)
        + " active="@ + decimal(s.active_executions as nat) + " requests="@ + decimal(
        s.total_requests as nat,
    ) + " failures="@ + decimal(s.failures as nat) + " last="@ + if s.last_activity_seen {
        "seen"@
    } else {
        "-"@
    }
}

/// A service's row, with its readiness as `str::to_uppercase` writes it.
pub open spec fn service_row_spec(s: CockpitService) -> Seq<char> {
    service_row_text(s, upper_of(s.readiness@))
}

/// Writes a service's row around its readiness already in capitals.
pub fn service_row_with(s: &CockpitService, readiness: &str) -> (r: String)
    ensures
        r@ == service_row_text(*s, readiness@),
{
    let mut out: Vec<char> = Vec::new();
    push_str(&mut out, "  ");
    push_padded_right(&mut out, &chars_of(s.service_id.as_str()), 14);
    push_str(&mut out, " ");
    push_padded_right(&mut out, &chars_of(readiness), 5);
    push_str(&mut out, " active=");
    push_decimal(&mut out, s.active_executions as u128);
    push_str(&mut out, " requests=");
    push_decimal(&mut out, s.total_requests as u128);
    push_str(&mut out, " failures=");
    push_decimal(&mut out, s.failures as u128);
    push_str(&mut out, " last=");
    if s.last_activity_seen {
        push_str(&mut out, "seen");
    } else {
        push_str(&mut out, "-");
    }
    string_of(&out)
}

pub fn service_row(s: &CockpitService) -> (r: String)
    ensures
        r@ == service_row_spec(*s),
{
    let readiness = to_upper(s.readiness.as_str());
    service_row_with(s, readiness.as_str())
}

/// How many of the services are deployed.
pub open spec fn deployed_count_spec(ss: Seq<CockpitService>) -> nat
    decreases ss.len(),
{
    if ss.len() == 0 {
        0
    } else {
        deployed_count_spec(ss.drop_last()) + if ss.last().deployed {
            1nat
        } else {
            0nat
        }
    }
}

pub fn deployed_count(ss: &Vec<CockpitService>) -> (r: usize)
    ensures
        r == deployed_count_spec(ss@),
{
    let mut n: usize = 0;
    let mut i: usize = 0;
    while i < ss.len()
        invariant
            i <= ss@.len(),
            n <= i,
            n == deployed_count_spec(ss@.take(i as int)),
        decreases ss.len() - i,
    {
        assert(ss@.take(i + 1).drop_last() =~= ss@.take(i as int));
        if ss[i].deployed {
            n = n + 1;
        }
        i = i + 1;
    }
    assert(ss@.take(i as int) =~= ss@);
    n
}

/// The grid counters of the summary panel.
#[derive(Debug)]
pub struct GridCounters {
    pub lane_count: usize,
    pub running: usize,
    pub queue_depth: usize,
    pub completed: u64,
    pub failed: u64,
    pub peak_active_lanes: usize,
}

/// The first summary line; `grid_percent` is the grid's utilization in
/// percent, already written out.
pub open spec fn summary_line_spec(deployed: nat, g: GridCounters, grid_percent: Seq<char>) -> Seq<char> {
    "  services="@ + decimal(deployed) + "  queue="@ + decimal(g.queue_depth as nat) + "  running="@
        + decimal(g.running as nat) + "/"@ + decimal(g.lane_count as nat) + "  completed="@
        + decimal(g.completed as nat) + "  failed="@ + decimal(g.failed as nat) + "  peak-lanes="@
        + decimal(g.peak_active_lanes as nat) + "  grid="@ + grid_percent + "%"@
}

pub fn summary_line(services: &Vec<CockpitService>, g: &GridCounters, grid_percent: &str) -> (r: String)
    ensures
        r@ == summary_line_spec(deployed_count_spec(services@), *g, grid_percent@),
{
    let deployed = deployed_count(services);
    let mut out: Vec<char> = Vec::new();
    push_str(&mut out, "  services=");
    push_decimal(&mut out, deployed as u128);
    push_str(&mut out, "  queue=");
    push_decimal(&mut out, g.queue_depth as u128);
    push_str(&mut out, "  running=");
    push_decimal(&mut out, g.running as u128);
    push_str(&mut out, "/");
    push_decimal(&mut out, g.lane_count as u128);
    push_str(&mut out, "  completed=");
    push_decimal(&mut out, g.completed as u128);
    push_str(&mut out, "  failed=");
    push_decimal(&mut out, g.failed as u128);
    push_str(&mut out, "  peak-lanes=");
    push_decimal(&mut out, g.peak_active_lanes as u128);
    push_str(&mut out, "  grid=");
    push_str(&mut out, grid_percent);
    push_str(&mut out, "%");
    string_of(&out)
}

/// The process and store counters of the summary panel.
#[derive(Debug)]
pub struct SystemCounters {
    pub host_logical_cpus: Option<usize>,
    pub process_rss_bytes: Option<u64>,
    pub active_guest_executions: usize,
    pub active_stores: usize,
    pub hot_artifacts: usize,
    pub warm_artifacts: usize,
}

/// The second summary line; `cpu` is the process CPU figure, already
/// written out.
pub open spec fn system_line_spec(s: SystemCounters, cpu: Seq<char>) -> Seq<char> {
    "  Process CPU="@ + cpu + "  host-cpus="@ + (match s.host_logical_cpus {
        Some(n) => decimal(n as nat),
        None => "n/a"@,
    }) + "  RSS="@ + bytes_text(s.process_rss_bytes) + "  guest="@ + decimal(
        s.active_guest_executions as nat,
    ) + "  stores="@ + decimal(s.active_stores as nat) + "  HOT="@ + decimal(s.hot_artifacts as nat)
        + "  WARM="@ + decimal(s.warm_artifacts as nat)
}

pub fn system_line(s: &SystemCounters, cpu: &str) -> (r: String)
    ensures
        r@ == system_line_spec(*s, cpu@),
{
    let mut out: Vec<char> = Vec::new();
    push_str(&mut out, "  Process CPU=");
    push_str(&mut out, cpu);
    push_str(&mut out, "  host-cpus=");
    match s.host_logical_cpus {
        Some(n) => push_decimal(&mut out, n as u128),
        None => push_str(&mut out, "n/a"),
    }
    push_str(&mut out, "  RSS=");
    let b = format_bytes(s.process_rss_bytes);
    push_str(&mut out, b.as_str());
    push_str(&mut out, "  guest=");
    push_decimal(&mut out, s.active_guest_executions as u128);
    push_str(&mut out, "  stores=");
    push_decimal(&mut out, s.active_stores as u128);
    push_str(&mut out, "  HOT=");
    push_decimal(&mut out, s.hot_artifacts as u128);
    push_str(&mut out, "  WARM=");
    push_decimal(&mut out, s.warm_artifacts as u128);
    string_of(&out)
}

/// Where each part of a frame is drawn, for a grid of `lanes` lanes and a
/// terminal `height` rows high: the entry box at rows 3 to 5, the lanes'
/// box from row 6 with its lanes from row 8, then the arrow, the exit box,
/// the summary panel (at least two rows below it, else twelve rows above
/// the bottom) and the detail and error lines near the bottom.
#[derive(Debug, Clone, Copy, PartialEq, Eq, Structural)]
pub struct FrameRows {
    pub entry_header: u32,
    pub entry_line: u32,
    pub entry_arrow: u32,
    pub lanes_header: u32,
    pub first_lane: u32,
    pub lanes_arrow: u32,
    pub exit_header: u32,
    pub exit_line: u32,
    pub panel: u32,
    pub detail: u32,
    pub error: u32,
}

pub open spec fn frame_rows_spec(lanes: nat, height: nat) -> FrameRows {
    let exit_line = 10 + lanes;
    let low = if height > 12 { (height - 12) as nat } else { 0nat };
    FrameRows {
        entry_header: 3,
        entry_line: 4,
        entry_arrow: 5,
        lanes_header: 6,
        first_lane: 8,
        lanes_arrow: (8 + lanes) as u32,
        exit_header: (9 + lanes) as u32,
        exit_line: exit_line as u32,
        panel: (if low > exit_line + 2 { low } else { exit_line + 2 }) as u32,
        detail: (if height > 3 { height - 3 } else { 0 }) as u32,
        error: (if height > 1 { height - 1 } else { 0 }) as u32,
    }
}

pub fn frame_rows(lanes: u16, height: u16) -> (r: FrameRows)
    ensures
        r == frame_rows_spec(lanes as nat, height as nat),
{
    let n = lanes as u32;
    let h = height as u32;
    let exit_line = 10 + n;
    let low: u32 = if h > 12 { h - 12 } else { 0 };
    FrameRows {
        entry_header: 3,
        entry_line: 4,
        entry_arrow: 5,
        lanes_header: 6,
        first_lane: 8,
        lanes_arrow: 8 + n,
        exit_header: 9 + n,
        exit_line,
        panel: if low > exit_line + 2 { low } else { exit_line + 2 },
        detail: if h > 3 { h - 3 } else { 0 },
        error: if h > 1 { h - 1 } else { 0 },
    }
}

/// How many service rows fit: rows run from five below the panel down to
/// the bottom of the terminal.
pub fn visible_services(panel: u32, height: u16, services: usize) -> (r: usize)
    ensures
        r <= services,
        r as int == if panel + 5 >= height {
            0
        } else if services < height - (panel + 5) {
            services as int
        } else {
            height - (panel + 5)
        },
{
    let first = panel as u64 + 5;
    let h = height as u64;
    if first >= h {
        0
    } else {
        let room = (h - first) as usize;
        if services < room {
            services
        } else {
            room
        }
    }
}

/// A label cut for the terminal never exceeds the room it is given; a label
/// that fits is kept whole, and a cut one keeps its beginning and ends in
/// `…`.
pub proof fn law_fitted_bounded(text: Seq<char>, max: nat)
    ensures
        fitted(text, max).len() <= max,
        text.len() <= max ==> fitted(text, max) == text,
        text.len() > max && max > 0 ==> fitted(text, max).last() == '…' && fitted(text, max).drop_last()
            == text.subrange(0, max - 1),
{
    if text.len() > max && max > 1 {
        assert(fitted(text, max).drop_last() =~= text.subrange(0, max - 1));
    }
    if text.len() > max && max == 1 {
        assert(fitted(text, max).drop_last() =~= text.subrange(0, 0));
    }
}

/// The compact form of an identifier is its last six characters, or all of
/// it when shorter.
pub proof fn law_short_is_suffix(value: Seq<char>)
    ensures
        short(value).len() == if value.len() < 6 { value.len() } else { 6 },
        forall|i: int|
            0 <= i < short(value).len() ==> short(value)[i] == value[value.len() - short(value).len() + i],
{
}

/// The frame is never smaller than 120 columns, and never lower than 36
/// rows when exactly 120 columns wide.
pub proof fn law_frame_size_floor(reported: Option<(u16, u16)>)
    ensures
        frame_size_spec(reported).0 >= 120,
        frame_size_spec(reported).0 == 120 ==> frame_size_spec(reported).1 >= 36,
        frame_size_spec(Some(frame_size_spec(reported))) == frame_size_spec(reported),
{
}

/// A line of a frame: the row it is drawn on, its text, color and weight.
#[derive(Debug)]
pub struct FrameLine {
    pub row: u32,
    pub text: String,
    pub color: Color,
    pub bold: bool,
}

pub open spec fn frame_view(v: Seq<FrameLine>) -> Seq<(u32, Seq<char>, Color, bool)> {
    v.map_values(|l: FrameLine| (l.row, l.text@, l.color, l.bold))
}

/// What a decoded snapshot shows; the two figures written from floating
/// point values (the grid's utilization and the process CPU) come as text.
#[derive(Debug)]
pub struct CockpitView {
    pub grid: GridCounters,
    pub lanes: Vec<Lane>,
    pub services: Vec<CockpitService>,
    pub recent: Vec<Execution>,
    pub system: SystemCounters,
    pub grid_percent: String,
    pub cpu: String,
}

/// The frame's rows stay inside a terminal's `u16` rows, and each lane and
/// the latest execution has a next lane number.
pub open spec fn view_fits(v: CockpitView) -> bool {
    &&& v.lanes@.len() + 17 <= u16::MAX
    &&& forall|i: int| 0 <= i < v.lanes@.len() ==> (#[trigger] v.lanes@[i]).lane_id < usize::MAX
    &&& v.recent@.len() > 0 ==> v.recent@.last().lane_id < usize::MAX
}

pub open spec fn lane_line(l: Lane, row: int, width: nat) -> (u32, Seq<char>, Color, bool) {
    (
        row as u32,
        box_line_spec(lane_text_spec(l), width),
        if l.state@ == "running"@ {
            Color::Red
        } else {
            Color::DarkGrey
        },
        false,
    )
}

pub open spec fn service_line(s: CockpitService, row: int) -> (u32, Seq<char>, Color, bool) {
    (row as u32, service_row_spec(s), readiness_color_spec(s.readiness@), false)
}

pub open spec fn visible_count(panel: nat, height: nat, services: nat) -> nat {
    if panel + 5 >= height {
        0
    } else if services < height - (panel + 5) {
        services
    } else {
        (height - (panel + 5)) as nat
    }
}

/// The frame below the title for a snapshot (or none yet) and the last
/// failure: the entry box, one line per lane, the exit box, the summary
/// panel, as many services as fit, the latest execution and the failure.
pub open spec fn frame_spec(view: Option<CockpitView>, error: Option<Seq<char>>, width: nat, height: nat) -> Seq<
    (u32, Seq<char>, Color, bool),
> {
    let error_line = |row: int| match error {
        Some(e) => seq![(row as u32, e, Color::Red, false)],
        None => Seq::empty(),
    };
    match view {
        None => seq![(3u32, "Waiting for PitLane snapshot..."@, Color::Yellow, false)] + error_line(4),
        Some(v) => {
            let n = v.lanes@.len();
            let rows = frame_rows_spec(n, height);
            let shown = visible_count(rows.panel as nat, height, v.services@.len());
            seq![
                (3u32, box_header_spec("PIT ENTRY QUEUE"@, "[WAITING "@ + two_digits(v.grid.queue_depth as nat) + "]"@, width), Color::Yellow, true),
                (4u32, box_line_spec(queue_text_spec(v.grid.queue_depth as nat), width), Color::Yellow, false),
                (5u32, flow_arrow_spec("PIT ENTRY"@, width), Color::Yellow, false),
                (6u32, box_header_spec("ACTIVE EXECUTIONS"@, "[RUNNING "@ + decimal(v.grid.running as nat) + "/"@ + decimal(v.grid.lane_count as nat) + "]"@, width), Color::Red, true),
            ] + Seq::new(n, |i: int| lane_line(v.lanes@[i], 8 + i, width)) + seq![
                (rows.lanes_arrow, flow_arrow_spec("LANES"@, width), Color::Red, false),
                (rows.exit_header, box_header_spec("EXIT / COMPLETED"@, "[RECENT]"@, width), Color::Green, true),
                (rows.exit_line, box_line_spec(exit_text_spec(v.recent@), width), Color::Green, false),
                (rows.panel, "SUMMARY"@, Color::Cyan, false),
                ((rows.panel + 1) as u32, summary_line_spec(deployed_count_spec(v.services@), v.grid, v.grid_percent@), Color::Plain, false),
                ((rows.panel + 2) as u32, system_line_spec(v.system, v.cpu@), Color::Plain, false),
                ((rows.panel + 4) as u32, "SERVICES"@, Color::Cyan, false),
            ] + Seq::new(shown, |k: int| service_line(v.services@[k], rows.panel + 5 + k)) + (if v.recent@.len() > 0 {
                seq![(rows.detail, detail_spec(v.recent@.last()), Color::DarkGrey, false)]
            } else {
                Seq::empty()
            }) + error_line(rows.error as int)
        },
    }
}

fn push_line(lines: &mut Vec<FrameLine>, row: u32, text: String, color: Color, bold: bool)
    ensures
        frame_view(final(lines)@) == frame_view(old(lines)@).push((row, text@, color, bold)),
{
    let l = FrameLine { row, text, color, bold };
    lines.push(l);
    assert(frame_view(lines@) =~= frame_view(old(lines)@).push((row, l.text@, color, bold)));
}

fn push_error(lines: &mut Vec<FrameLine>, row: u32, error: &Option<String>)
    ensures
        frame_view(final(lines)@) == frame_view(old(lines)@) + match error {
            Some(e) => seq![(row, e@, Color::Red, false)],
            None => Seq::empty(),
        },
{
    match error {
        Some(e) => {
            push_line(lines, row, e.clone(), Color::Red, false);
            assert(frame_view(lines@) =~= frame_view(old(lines)@) + seq![(row, e@, Color::Red, false)]);
        },
        None => {
            assert(frame_view(lines@) =~= frame_view(old(lines)@) + Seq::empty());
        },
    }
}

pub fn frame_lines(view: &Option<CockpitView>, error: &Option<String>, width: u16, height: u16) -> (lines: Vec<FrameLine>)
    requires
        view matches Some(v) ==> view_fits(*v),
    ensures
        frame_view(lines@) == frame_spec(*view, opt_text(*error), width as nat, height as nat),
{
    let mut lines: Vec<FrameLine> = Vec::new();
    match view {
        None => {
            push_line(&mut lines, 3, String::from_str("Waiting for PitLane snapshot..."), Color::Yellow, false);
            push_error(&mut lines, 4, error);
            assert(frame_view(lines@) =~= frame_spec(*view, opt_text(*error), width as nat, height as nat));
            lines
        },
        Some(v) => {
            let n = v.lanes.len();
            let rows = frame_rows(n as u16, height);
            push_line(&mut lines, 3, box_header_text("PIT ENTRY QUEUE", waiting_detail(v.grid.queue_depth).as_str(), width), Color::Yellow, true);
            push_line(&mut lines, 4, box_line_text(queue_text(v.grid.queue_depth).as_str(), width), Color::Yellow, false);
            push_line(&mut lines, 5, flow_arrow_text("PIT ENTRY", width), Color::Yellow, false);
            push_line(&mut lines, 6, box_header_text("ACTIVE EXECUTIONS", running_detail(v.grid.running, v.grid.lane_count).as_str(), width), Color::Red, true);
            let ghost head = frame_view(lines@);
            let ghost lane_lines = Seq::new(n as nat, |i: int| lane_line(v.lanes@[i], 8 + i, width as nat));
            let mut i: usize = 0;
            while i < n
                invariant
                    i <= n == v.lanes@.len(),
                    n + 17 <= u16::MAX,
                    forall|k: int| 0 <= k < v.lanes@.len() ==> (#[trigger] v.lanes@[k]).lane_id < usize::MAX,
                    lane_lines == Seq::new(n as nat, |i: int| lane_line(v.lanes@[i], 8 + i, width as nat)),
                    frame_view(lines@) =~= head + lane_lines.take(i as int),
                decreases n - i,
            {
                let l = &v.lanes[i];
                let fg = if l.state == String::from_str("running") { Color::Red } else { Color::DarkGrey };
                let row: u32 = 8 + i as u32;
                let text = box_line_text(lane_text(l).as_str(), width);
                let ghost before = frame_view(lines@);
                push_line(&mut lines, row, text, fg, false);
                assert(lane_lines[i as int] == (row, text@, fg, false));
                i = i + 1;
                assert(frame_view(lines@) =~= head + lane_lines.take(i as int));
            }
            assert(lane_lines.take(n as int) =~= lane_lines);
            push_line(&mut lines, rows.lanes_arrow, flow_arrow_text("LANES", width), Color::Red, false);
            push_line(&mut lines, rows.exit_header, box_header_text("EXIT / COMPLETED", "[RECENT]", width), Color::Green, true);
            push_line(&mut lines, rows.exit_line, box_line_text(exit_text(&v.recent).as_str(), width), Color::Green, false);
            push_line(&mut lines, rows.panel, String::from_str("SUMMARY"), Color::Cyan, false);
            push_line(&mut lines, rows.panel + 1, summary_line(&v.services, &v.grid, v.grid_percent.as_str()), Color::Plain, false);
            push_line(&mut lines, rows.panel + 2, system_line(&v.system, v.cpu.as_str()), Color::Plain, false);
            push_line(&mut lines, rows.panel + 4, String::from_str("SERVICES"), Color::Cyan, false);
            let ghost mid = frame_view(lines@);
            let shown = visible_services(rows.panel, height, v.services.len());
            let ghost service_lines = Seq::new(shown as nat, |k: int| service_line(v.services@[k], rows.panel + 5 + k));
            let mut k: usize = 0;
            while k < shown
                invariant
                    k <= shown <= v.services@.len(),
                    shown == visible_count(rows.panel as nat, height as nat, v.services@.len()),
                    rows == frame_rows_spec(n as nat, height as nat),
                    n + 17 <= u16::MAX,
                    service_lines == Seq::new(shown as nat, |k: int| service_line(v.services@[k], rows.panel + 5 + k)),
                    frame_view(lines@) =~= mid + service_lines.take(k as int),
                decreases shown - k,
            {
                let svc = &v.services[k];
                let row: u32 = rows.panel + 5 + k as u32;
                let text = service_row(svc);
                let fg = readiness_color(svc.readiness.as_str());
                push_line(&mut lines, row, text, fg, false);
                assert(service_lines[k as int] == (row, text@, fg, false));
                k = k + 1;
                assert(frame_view(lines@) =~= mid + service_lines.take(k as int));
            }
            assert(service_lines.take(shown as int) =~= service_lines);
            let ghost tail0 = frame_view(lines@);
            if v.recent.len() > 0 {
                let latest = &v.recent[v.recent.len() - 1];
                push_line(&mut lines, rows.detail, detail_text(latest), Color::DarkGrey, false);
            }
            let ghost tail1 = frame_view(lines@);
            assert(tail1 =~= tail0 + if v.recent@.len() > 0 {
                seq![(rows.detail, detail_spec(v.recent@.last()), Color::DarkGrey, false)]
            } else {
                Seq::<(u32, Seq<char>, Color, bool)>::empty()
            });
            push_error(&mut lines, rows.error, error);
            assert(frame_view(lines@) =~= frame_spec(*view, opt_text(*error), width as nat, height as nat));
            lines
        },
    }
}
} // verus!
