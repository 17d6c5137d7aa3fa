//! `pit doctor`: the compatibility report for the current project and the
//! table of language toolchains. Detecting languages and probing
//! toolchains run in the language builders, outside this library.

use vstd::prelude::*;
use vstd::string::StringExecFns;

use crate::commands::cockpit::joined_by;
use crate::commands::init::{evidence_lines, push_evidence, texts, Candidate};
use crate::manifest::opt_view;
use crate::project::Language;
use crate::text::{chars_of, pad_right, push_padded_right, push_str, string_of};

verus! {

/// The languages, in the order the toolchain table lists them.
pub open spec fn all_languages_spec() -> Seq<Language> {
    seq![
        Language::Rust,
        Language::Go,
        Language::C,
        Language::Cpp,
        Language::JavaScript,
        Language::TypeScript,
        Language::Python,
        Language::CSharp,
        Language::Java,
    ]
}

pub fn all_languages() -> (r: Vec<Language>)
    ensures
        r@ == all_languages_spec(),
{
    let r = vec![
        Language::Rust,
        Language::Go,
        Language::C,
        Language::Cpp,
        Language::JavaScript,
        Language::TypeScript,
        Language::Python,
        Language::CSharp,
        Language::Java,
    ];
    assert(r@ =~= all_languages_spec());
    r
}

/// The heading of the toolchain table.
pub fn toolchain_header() -> (r: String)
    ensures
        r@ == "LANGUAGE      TOOLCHAIN                 STATUS"@,
{
    String::from_str("LANGUAGE      TOOLCHAIN                 STATUS")
}

/// What the table names when a toolchain probe fails.
pub open spec fn toolchain_fallback(l: Language) -> Seq<char> {
    match l {
        Language::Rust => "rustc/rustup"@,
        Language::Go => "Go + componentize-go"@,
        _ => l.name(),
    }
}

/// One row of the table, from the probe's toolchain name and version, or
/// its failure.
pub open spec fn toolchain_row_spec(l: Language, probe: Result<(Seq<char>, Seq<char>), Seq<char>>) -> Seq<
    char,
> {
    let (toolchain, status) = match probe {
        Ok((name, version)) => (name + " "@ + version, "ready"@),
        Err(e) => (toolchain_fallback(l), "blocked: "@ + e),
    };
    pad_right(l.name(), 13) + " "@ + pad_right(toolchain, 42) + " "@ + status
}

pub fn toolchain_row(language: Language, probe: &Result<(String, String), String>) -> (r: String)
    ensures
        r@ == toolchain_row_spec(
            language,
            match probe {
                Ok((n, v)) => Ok((n@, v@)),
                Err(e) => Err(e@),
            },
        ),
{
    let mut toolchain: Vec<char> = Vec::new();
    let mut status: Vec<char> = Vec::new();
    match probe {
        Ok((n, v)) => {
            push_str(&mut toolchain, n.as_str());
            push_str(&mut toolchain, " ");
            push_str(&mut toolchain, v.as_str());
            push_str(&mut status, "ready");
        },
        Err(e) => {
            match language {
                Language::Rust => push_str(&mut toolchain, "rustc/rustup"),
                Language::Go => push_str(&mut toolchain, "Go + componentize-go"),
                _ => push_str(&mut toolchain, language.as_str()),
            }
            push_str(&mut status, "blocked: ");
            push_str(&mut status, e.as_str());
        },
    }
    let mut out: Vec<char> = Vec::new();
    push_padded_right(&mut out, &chars_of(language.as_str()), 13);
    push_str(&mut out, " ");
    push_padded_right(&mut out, &toolchain, 42);
    push_str(&mut out, " ");
    crate::text::push_all(&mut out, &status);
    string_of(&out)
}

/// The name of a language as its `Debug` form writes it.
pub open spec fn debug_name(l: Language) -> Seq<char> {
    match l {
        Language::Rust => "Rust"@,
        Language::Go => "Go"@,
        Language::Python => "Python"@,
        Language::JavaScript => "JavaScript"@,
        Language::TypeScript => "TypeScript"@,
        Language::C => "C"@,
        Language::Cpp => "Cpp"@,
        Language::CSharp => "CSharp"@,
        Language::Java => "Java"@,
    }
}

fn debug_str(l: Language) -> (s: &'static str)
    ensures
        s@ == debug_name(l),
{
    match l {
        Language::Rust => "Rust",
        Language::Go => "Go",
        Language::Python => "Python",
        Language::JavaScript => "JavaScript",
        Language::TypeScript => "TypeScript",
        Language::C => "C",
        Language::Cpp => "Cpp",
        Language::CSharp => "CSharp",
        Language::Java => "Java",
    }
}

/// A list of languages as `Debug` writes it: `[Rust, Go]`.
pub open spec fn debug_list(ls: Seq<Language>) -> Seq<char> {
    "["@ + joined_by(ls.map_values(|l: Language| debug_name(l)), ", "@) + "]"@
}

fn push_debug_list(out: &mut Vec<char>, ls: &Vec<Language>)
    ensures
        final(out)@ == old(out)@ + debug_list(ls@),
{
    push_str(out, "[");
    let ghost start = out@;
    let ghost names = ls@.map_values(|l: Language| debug_name(l));
    let mut i: usize = 0;
    while i < ls.len()
        invariant
            i <= ls@.len(),
            names == ls@.map_values(|l: Language| debug_name(l)),
            out@ == start + joined_by(names.take(i as int), ", "@),
        decreases ls.len() - i,
    {
        if i > 0 {
            push_str(out, ", ");
        }
        push_str(out, debug_str(ls[i]));
        proof {
            let next = names.take(i + 1);
            assert(next.drop_last() =~= names.take(i as int));
            assert(next.last() == debug_name(ls@[i as int]));
        }
        i = i + 1;
        assert(out@ =~= start + joined_by(names.take(i as int), ", "@));
    }
    assert(names.take(i as int) =~= names);
    push_str(out, "]");
}

fn titled2(title: &str, value: &str) -> (r: String)
    ensures
        r@ == title@ + value@,
{
    let mut l: Vec<char> = Vec::new();
    push_str(&mut l, title);
    push_str(&mut l, value);
    string_of(&l)
}

fn titled(title: &str, value: &str, tail: &str) -> (r: String)
    ensures
        r@ == title@ + value@ + tail@,
{
    let mut l: Vec<char> = Vec::new();
    push_str(&mut l, title);
    push_str(&mut l, value);
    push_str(&mut l, tail);
    string_of(&l)
}

/// The language section: the single detected language, else the one
/// `pit.toml` configures, else a note that none or several were found.
pub open spec fn language_section(detected: Seq<Language>, configured: Option<Seq<char>>) -> Seq<char> {
    if detected.len() == 1 {
        "\nLanguage\n  ✓ "@ + detected[0].name()
    } else {
        match configured {
            Some(l) => "\nLanguage\n  ✓ "@ + l + " (pit.toml)"@,
            None => if detected.len() == 0 {
                "\nLanguage\n  ? no language detected"@
            } else {
                "\nLanguage\n  ! multiple candidates: "@ + debug_list(detected)
            },
        }
    }
}

/// What the project's `pit.toml` says of how it is built.
pub struct ConfiguredBuild {
    pub language: Option<String>,
    pub interface: Option<String>,
    pub entry: Option<String>,
}

/// The rest of the report: the first candidate's interface, entrypoint,
/// framework hint and evidence; else what `pit.toml` configures; else a
/// request to configure an interface.
pub open spec fn details_section(candidate: Option<Candidate>, interface: Option<Seq<char>>, entry: Option<
    Seq<char>,
>) -> Seq<Seq<char>> {
    match candidate {
        Some(c) => (match c.application_interface {
            Some(i) => seq!["\nInterface\n  ✓ "@ + i@],
            None => Seq::empty(),
        }) + (match c.entrypoint {
            Some(e) => seq!["\nEntrypoint\n  ✓ "@ + e@],
            None => Seq::empty(),
        }) + (match c.framework_hint {
            Some(f) => seq!["\nFramework hint\n  "@ + f@ + " (convenience metadata only)"@],
            None => Seq::empty(),
        }) + seq!["\nEvidence"@] + evidence_lines(c.evidence@) + seq![
            "\nCapabilities\n  ✓ interface adapter can target wasi:http/proxy"@,
        ],
        None => match interface {
            Some(i) => seq!["\nInterface\n  ✓ "@ + i + " (pit.toml)"@] + (match entry {
                Some(e) => seq!["\nEntrypoint\n  ✓ "@ + e + " (pit.toml)"@],
                None => Seq::empty(),
            }) + seq!["\nCapabilities\n  ✓ manually configured interface; run pit build to validate"@],
            None => seq!["\nInterface\n  ? specify [build].interface or --interface"@],
        },
    }
}

/// The lines of `pit doctor` for the current project.
pub fn project_report(detected: &Vec<Language>, config: &ConfiguredBuild, candidate: Option<&Candidate>) -> (lines:
    Vec<String>)
    ensures
        texts(lines@) == seq!["PitFast Compatibility"@, language_section(detected@, opt_view(config.language))]
            + details_section(
            match candidate {
                Some(c) => Some(*c),
                None => None,
            },
            opt_view(config.interface),
            opt_view(config.entry),
        ),
{
    let mut lines: Vec<String> = Vec::new();
    lines.push(String::from_str("PitFast Compatibility"));
    if detected.len() == 1 {
        lines.push(titled2("\nLanguage\n  ✓ ", detected[0].as_str()));
    } else {
        match &config.language {
            Some(l) => lines.push(titled("\nLanguage\n  ✓ ", l.as_str(), " (pit.toml)")),
            None => {
                if detected.len() == 0 {
                    lines.push(String::from_str("\nLanguage\n  ? no language detected"));
                } else {
                    let mut l: Vec<char> = Vec::new();
                    push_str(&mut l, "\nLanguage\n  ! multiple candidates: ");
                    push_debug_list(&mut l, detected);
                    lines.push(string_of(&l));
                }
            },
        }
    }
    let ghost head = texts(lines@);
    assert(head =~= seq!["PitFast Compatibility"@, language_section(detected@, opt_view(config.language))]);
    match candidate {
        Some(c) => {
            match &c.application_interface {
                Some(i) => lines.push(titled2("\nInterface\n  ✓ ", i.as_str())),
                None => {},
            }
            let ghost a = texts(lines@);
            match &c.entrypoint {
                Some(e) => lines.push(titled2("\nEntrypoint\n  ✓ ", e.as_str())),
                None => {},
            }
            let ghost b = texts(lines@);
            match &c.framework_hint {
                Some(f) => lines.push(titled("\nFramework hint\n  ", f.as_str(), " (convenience metadata only)")),
                None => {},
            }
            let ghost d = texts(lines@);
            lines.push(String::from_str("\nEvidence"));
            let ghost e0 = texts(lines@);
            assert(e0 =~= d + seq!["\nEvidence"@]);
            push_evidence(&mut lines, &c.evidence);
            let ghost e1 = texts(lines@);
            lines.push(String::from_str("\nCapabilities\n  ✓ interface adapter can target wasi:http/proxy"));
            assert(texts(lines@) =~= e1 + seq!["\nCapabilities\n  ✓ interface adapter can target wasi:http/proxy"@]);
            assert(a =~= head + match c.application_interface {
                Some(i) => seq!["\nInterface\n  ✓ "@ + i@],
                None => Seq::<Seq<char>>::empty(),
            });
            assert(b =~= a + match c.entrypoint {
                Some(e) => seq!["\nEntrypoint\n  ✓ "@ + e@],
                None => Seq::<Seq<char>>::empty(),
            });
            assert(d =~= b + match c.framework_hint {
                Some(f) => seq!["\nFramework hint\n  "@ + f@ + " (convenience metadata only)"@],
                None => Seq::<Seq<char>>::empty(),
            });
        },
        None => match &config.interface {
            Some(i) => {
                lines.push(titled("\nInterface\n  ✓ ", i.as_str(), " (pit.toml)"));
                let ghost f0 = texts(lines@);
                match &config.entry {
                    Some(e) => lines.push(titled("\nEntrypoint\n  ✓ ", e.as_str(), " (pit.toml)")),
                    None => {},
                }
                assert(texts(lines@) =~= f0 + match config.entry {
                    Some(e) => seq!["\nEntrypoint\n  ✓ "@ + e@ + " (pit.toml)"@],
                    None => Seq::<Seq<char>>::empty(),
                });
                lines.push(
                    String::from_str(
                        "\nCapabilities\n  ✓ manually configured interface; run pit build to validate",
                    ),
                );
            },
            None => lines.push(String::from_str("\nInterface\n  ? specify [build].interface or --interface")),
        },
    }
    assert(texts(lines@) =~= head + details_section(
        match candidate {
            Some(c) => Some(*c),
            None => None,
        },
        opt_view(config.interface),
        opt_view(config.entry),
    ));
    lines
}

} // verus!
