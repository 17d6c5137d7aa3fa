//! `pit init`: the language and build hints a project is initialized with,
//! and the report of what was found. Inspecting the project's files runs in
//! the language builders, outside this library.

use vstd::prelude::*;
use vstd::string::StringExecFns;

use crate::commands::up::Finding;
use crate::manifest::{copy_opt_text, opt_view};
use crate::project::{InitError, Language};
use crate::text::{push_str, string_of};

verus! {

#[derive(Debug)]
pub struct InitArgs {
    /// Source language; detected when absent.
    pub language: Option<Language>,
    /// Application interface, for example asgi or wasi-http.
    pub interface: Option<String>,
    /// Application entrypoint, for example `main:app`.
    pub entry: Option<String>,
    /// Built-in adapter id or project-local adapter directory.
    pub adapter: Option<String>,
    /// Explain the proposed configuration without modifying the project.
    pub dry_run: bool,
}

/// The language `pit init` uses: the one given, else the only one
/// detected.
pub open spec fn choose_language_spec(explicit: Option<Language>, detected: Seq<Language>) -> Result<
    Language,
    Seq<char>,
> {
    match explicit {
        Some(l) => Ok(l),
        None => if detected.len() == 1 {
            Ok(detected[0])
        } else if detected.len() == 0 {
            Err("unable to detect a language; use --language"@)
        } else {
            Err("multiple languages detected; use --language"@)
        },
    }
}

pub fn choose_language(explicit: Option<Language>, detected: &Vec<Language>) -> (r: Result<
    Language,
    InitError,
>)
    ensures
        match r {
            Ok(l) => choose_language_spec(explicit, detected@) == Ok::<Language, Seq<char>>(l),
            Err(e) => choose_language_spec(explicit, detected@) == Err::<Language, Seq<char>>(e.message@),
        },
{
    match explicit {
        Some(l) => Ok(l),
        None => {
            if detected.len() == 1 {
                Ok(detected[0])
            } else if detected.len() == 0 {
                Err(InitError { message: String::from_str("unable to detect a language; use --language") })
            } else {
                Err(InitError { message: String::from_str("multiple languages detected; use --language") })
            }
        },
    }
}

/// One piece of evidence a language builder found.
#[derive(Debug)]
pub struct Evidence {
    pub source: String,
    pub detail: String,
}

/// What a language builder proposes for a project.
#[derive(Debug)]
pub struct Candidate {
    pub language: Language,
    pub confidence: u32,
    pub application_interface: Option<String>,
    pub entrypoint: Option<String>,
    pub framework_hint: Option<String>,
    pub evidence: Vec<Evidence>,
}

/// The candidate `pit init` follows: among those for `language`, one of the
/// highest confidence, the last of them on a tie.
pub open spec fn is_best_candidate(cs: Seq<Candidate>, language: Language, i: int) -> bool {
    &&& 0 <= i < cs.len()
    &&& cs[i].language == language
    &&& forall|k: int| 0 <= k < cs.len() && cs[k].language == language ==> cs[k].confidence <= cs[i].confidence
    &&& forall|k: int| i < k < cs.len() && cs[k].language == language ==> cs[k].confidence < cs[i].confidence
}

pub fn best_candidate(candidates: &Vec<Candidate>, language: Language) -> (r: Option<usize>)
    ensures
        match r {
            Some(i) => is_best_candidate(candidates@, language, i as int),
            None => forall|k: int| 0 <= k < candidates@.len() ==> candidates@[k].language != language,
        },
{
    let mut best: Option<usize> = None;
    let mut i: usize = 0;
    while i < candidates.len()
        invariant
            i <= candidates@.len(),
            match best {
                Some(b) => b < i && candidates@[b as int].language == language
                    && (forall|k: int| 0 <= k < i && candidates@[k].language == language ==> candidates@[k].confidence <= candidates@[b as int].confidence)
                    && (forall|k: int| b < k < i && candidates@[k].language == language ==> candidates@[k].confidence < candidates@[b as int].confidence),
                None => forall|k: int| 0 <= k < i ==> candidates@[k].language != language,
            },
        decreases candidates.len() - i,
    {
        if candidates[i].language == language {
            match best {
                Some(b) => {
                    if candidates[i].confidence >= candidates[b].confidence {
                        best = Some(i);
                    }
                },
                None => {
                    best = Some(i);
                },
            }
        }
        i = i + 1;
    }
    best
}

/// The interface and entrypoint `pit init` records: the ones given, else
/// the candidate's.
pub fn init_hints(args: &InitArgs, candidate: Option<&Candidate>) -> (r: (Option<String>, Option<String>))
    ensures
        opt_view(r.0) == match args.interface {
            Some(i) => Some(i@),
            None => match candidate {
                Some(c) => opt_view(c.application_interface),
                None => None,
            },
        },
        opt_view(r.1) == match args.entry {
            Some(e) => Some(e@),
            None => match candidate {
                Some(c) => opt_view(c.entrypoint),
                None => None,
            },
        },
{
    let interface = match &args.interface {
        Some(_) => copy_opt_text(&args.interface),
        None => match candidate {
            Some(c) => copy_opt_text(&c.application_interface),
            None => None,
        },
    };
    let entry = match &args.entry {
        Some(_) => copy_opt_text(&args.entry),
        None => match candidate {
            Some(c) => copy_opt_text(&c.entrypoint),
            None => None,
        },
    };
    (interface, entry)
}

pub open spec fn texts(v: Seq<String>) -> Seq<Seq<char>> {
    v.map_values(|s: String| s@)
}

pub open spec fn evidence_lines(ev: Seq<Evidence>) -> Seq<Seq<char>> {
    ev.map_values(|e: Evidence| "  ✓ "@ + e.source@ + ": "@ + e.detail@)
}

/// Appends `  ✓ source: detail` for each piece of evidence.
pub fn push_evidence(lines: &mut Vec<String>, evidence: &Vec<Evidence>)
    ensures
        texts(final(lines)@) == texts(old(lines)@) + evidence_lines(evidence@),
{
    let ghost start = texts(lines@);
    let ghost want = evidence_lines(evidence@);
    let mut i: usize = 0;
    while i < evidence.len()
        invariant
            i <= evidence@.len(),
            want == evidence_lines(evidence@),
            texts(lines@) =~= start + want.take(i as int),
        decreases evidence.len() - i,
    {
        let e = &evidence[i];
        let mut l: Vec<char> = Vec::new();
        push_str(&mut l, "  ✓ ");
        push_str(&mut l, e.source.as_str());
        push_str(&mut l, ": ");
        push_str(&mut l, e.detail.as_str());
        let row = string_of(&l);
        assert(want[i as int] == row@);
        let ghost before = lines@;
        lines.push(row);
        assert(texts(lines@) =~= texts(before).push(row@));
        i = i + 1;
        assert(texts(lines@) =~= start + want.take(i as int));
    }
    assert(want.take(i as int) =~= want);
}

fn titled(title: &str, value: &str) -> (r: String)
    ensures
        r@ == title@ + value@,
{
    let mut l: Vec<char> = Vec::new();
    push_str(&mut l, title);
    push_str(&mut l, value);
    string_of(&l)
}

/// What `pit init` reports of its inspection: the language, the chosen
/// candidate's framework hint and evidence, and the interface and
/// entrypoint it settled on.
pub open spec fn init_report_spec(
    language: Language,
    candidate: Option<Candidate>,
    interface: Option<Seq<char>>,
    entry: Option<Seq<char>>,
) -> Seq<Seq<char>> {
    seq!["Inspecting project..."@, "\nLanguage\n  "@ + language.name()] + (match candidate {
        Some(c) => (match c.framework_hint {
            Some(h) => seq!["\nFramework hint\n  "@ + h@],
            None => Seq::empty(),
        }) + seq!["\nEvidence"@] + evidence_lines(c.evidence@),
        None => Seq::empty(),
    }) + (match interface {
        Some(i) => seq!["\nApplication interface\n  "@ + i],
        None => Seq::empty(),
    }) + (match entry {
        Some(e) => seq!["\nEntrypoint\n  "@ + e],
        None => Seq::empty(),
    })
}

pub fn init_report(
    language: Language,
    candidate: Option<&Candidate>,
    interface: &Option<String>,
    entry: &Option<String>,
) -> (lines: Vec<String>)
    ensures
        texts(lines@) == init_report_spec(
            language,
            match candidate {
                Some(c) => Some(*c),
                None => None,
            },
            opt_view(*interface),
            opt_view(*entry),
        ),
{
    let mut lines: Vec<String> = Vec::new();
    lines.push(String::from_str("Inspecting project..."));
    lines.push(titled("\nLanguage\n  ", language.as_str()));
    let ghost a = texts(lines@);
    match candidate {
        Some(c) => {
            match &c.framework_hint {
                Some(h) => lines.push(titled("\nFramework hint\n  ", h.as_str())),
                None => {},
            }
            lines.push(String::from_str("\nEvidence"));
            push_evidence(&mut lines, &c.evidence);
        },
        None => {},
    }
    let ghost b = texts(lines@);
    assert(b =~= a + match candidate {
        Some(c) => (match c.framework_hint {
            Some(h) => seq!["\nFramework hint\n  "@ + h@],
            None => Seq::<Seq<char>>::empty(),
        }) + seq!["\nEvidence"@] + evidence_lines(c.evidence@),
        None => Seq::<Seq<char>>::empty(),
    });
    match interface {
        Some(i) => lines.push(titled("\nApplication interface\n  ", i.as_str())),
        None => {},
    }
    let ghost c2 = texts(lines@);
    assert(c2 =~= b + match interface {
        Some(i) => seq!["\nApplication interface\n  "@ + i@],
        None => Seq::<Seq<char>>::empty(),
    });
    match entry {
        Some(e) => lines.push(titled("\nEntrypoint\n  ", e.as_str())),
        None => {},
    }
    assert(texts(lines@) =~= c2 + match entry {
        Some(e) => seq!["\nEntrypoint\n  "@ + e@],
        None => Seq::<Seq<char>>::empty(),
    });
    assert(texts(lines@) =~= init_report_spec(
        language,
        match candidate {
            Some(c) => Some(*c),
            None => None,
        },
        opt_view(*interface),
        opt_view(*entry),
    ));
    lines
}

pub open spec fn finding_lines(f: Finding) -> Seq<Seq<char>> {
    seq![
        "  "@ + (if f.blocks_build { "✗"@ } else { "⚠"@ }) + " ["@ + f.category@ + "] "@ + f.reason@,
        "    action: "@ + f.recommendation@,
    ]
}

pub open spec fn findings_lines(fs: Seq<Finding>) -> Seq<Seq<char>>
    decreases fs.len(),
{
    if fs.len() == 0 {
        Seq::empty()
    } else {
        findings_lines(fs.drop_last()) + finding_lines(fs.last())
    }
}

/// The compatibility section of `pit init`: the status, then each finding
/// with its recommended action, or the report's messages when it has no
/// findings.
pub open spec fn compatibility_spec(status: Seq<char>, findings: Seq<Finding>, messages: Seq<Seq<char>>) -> Seq<
    Seq<char>,
> {
    seq!["\nCompatibility\n  status: "@ + status] + findings_lines(findings) + if findings.len() == 0 {
        messages.map_values(|m: Seq<char>| "  ✓ "@ + m)
    } else {
        Seq::empty()
    }
}

pub fn compatibility_lines(status: &str, findings: &Vec<Finding>, messages: &Vec<String>) -> (lines:
    Vec<String>)
    ensures
        texts(lines@) == compatibility_spec(status@, findings@, texts(messages@)),
{
    let mut lines: Vec<String> = Vec::new();
    lines.push(titled("\nCompatibility\n  status: ", status));
    let ghost head = texts(lines@);
    let mut i: usize = 0;
    while i < findings.len()
        invariant
            i <= findings@.len(),
            texts(lines@) =~= head + findings_lines(findings@.take(i as int)),
        decreases findings.len() - i,
    {
        let f = &findings[i];
        let mut l: Vec<char> = Vec::new();
        push_str(&mut l, "  ");
        if f.blocks_build {
            push_str(&mut l, "✗");
        } else {
            push_str(&mut l, "⚠");
        }
        push_str(&mut l, " [");
        push_str(&mut l, f.category.as_str());
        push_str(&mut l, "] ");
        push_str(&mut l, f.reason.as_str());
        let first = string_of(&l);
        let second = titled("    action: ", f.recommendation.as_str());
        let ghost before = lines@;
        lines.push(first);
        lines.push(second);
        proof {
            let next = findings@.take(i + 1);
            assert(next.drop_last() =~= findings@.take(i as int));
            assert(next.last() == *f);
            assert(texts(lines@) =~= texts(before) + finding_lines(*f));
        }
        i = i + 1;
    }
    assert(findings@.take(i as int) =~= findings@);
    if findings.len() == 0 {
        let ghost mid = texts(lines@);
        let ghost want = texts(messages@).map_values(|m: Seq<char>| "  ✓ "@ + m);
        let mut j: usize = 0;
        while j < messages.len()
            invariant
                j <= messages@.len(),
                want == texts(messages@).map_values(|m: Seq<char>| "  ✓ "@ + m),
                texts(lines@) =~= mid + want.take(j as int),
            decreases messages.len() - j,
        {
            let row = titled("  ✓ ", messages[j].as_str());
            assert(want[j as int] == row@);
            let ghost before = lines@;
            lines.push(row);
            assert(texts(lines@) =~= texts(before).push(row@));
            j = j + 1;
            assert(texts(lines@) =~= mid + want.take(j as int));
        }
        assert(want.take(j as int) =~= want);
    }
    lines
}

/// What `pit init` prints once it has written the project files.
pub fn init_done_lines(created: bool) -> (lines: Vec<String>)
    ensures
        texts(lines@) == seq![
            "PitFast project initialized"@,
            if created { "✓ Created app.pit"@ } else { "✓ Kept existing Pit Manifest"@ },
            "✓ .pit/ is ignored as generated output"@,
            Seq::empty(),
            "Next steps:"@,
            "  pit doctor"@,
            "  pit up"@,
        ],
{
    let mut lines: Vec<String> = Vec::new();
    lines.push(String::from_str("PitFast project initialized"));
    if created {
        lines.push(String::from_str("✓ Created app.pit"));
    } else {
        lines.push(String::from_str("✓ Kept existing Pit Manifest"));
    }
    lines.push(String::from_str("✓ .pit/ is ignored as generated output"));
    lines.push(String::new());
    lines.push(String::from_str("Next steps:"));
    lines.push(String::from_str("  pit doctor"));
    lines.push(String::from_str("  pit up"));
    assert(texts(lines@) =~= seq![
        "PitFast project initialized"@,
        if created { "✓ Created app.pit"@ } else { "✓ Kept existing Pit Manifest"@ },
        "✓ .pit/ is ignored as generated output"@,
        Seq::empty(),
        "Next steps:"@,
        "  pit doctor"@,
        "  pit up"@,
    ]);
    lines
}

} // verus!
