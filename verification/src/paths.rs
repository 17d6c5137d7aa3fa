//! Unix path text: joining and the final segment.

use vstd::prelude::*;

use crate::text::{chars_of, push_all, string_of};

verus! {

/// What `Path::join` gives on Unix: an absolute `p` replaces `base`; otherwise
/// `p` is appended, with a `/` between unless `base` is empty or ends in one.
pub open spec fn joined(base: Seq<char>, p: Seq<char>) -> Seq<char> {
    if p.len() > 0 && p[0] == '/' {
        p
    } else if base.len() == 0 || base.last() == '/' {
        base + p
    } else {
        base + seq!['/'] + p
    }
}

pub fn join_path(base: &str, p: &str) -> (out: String)
    ensures
        out@ == joined(base@, p@),
{
    let b = chars_of(base);
    let t = chars_of(p);
    let mut out: Vec<char> = Vec::new();
    if t.len() > 0 && t[0] == '/' {
        push_all(&mut out, &t);
    } else {
        push_all(&mut out, &b);
        if !(b.len() == 0 || b[b.len() - 1] == '/') {
            out.push('/');
        }
        push_all(&mut out, &t);
    }
    string_of(&out)
}

/// The text after the last `/` of `s` (all of `s` when it holds none).
pub open spec fn last_segment(s: Seq<char>) -> Seq<char>
    decreases s.len(),
{
    if s.len() == 0 {
        s
    } else if s.last() == '/' {
        Seq::empty()
    } else {
        last_segment(s.drop_last()).push(s.last())
    }
}

pub fn last_segment_of(s: &Vec<char>) -> (out: Vec<char>)
    ensures
        out@ == last_segment(s@),
{
    let mut j: usize = s.len();
    assert(s@.subrange(0, j as int) =~= s@);
    assert(last_segment(s@) =~= last_segment(s@) + s@.subrange(j as int, j as int));
    while j > 0 && s[j - 1] != '/'
        invariant
            j <= s@.len(),
            last_segment(s@) == last_segment(s@.subrange(0, j as int)) + s@.subrange(
                j as int,
                s@.len() as int,
            ),
        decreases j,
    {
        let ghost pre = s@.subrange(0, j as int);
        assert(pre.drop_last() =~= s@.subrange(0, j - 1));
        assert(s@.subrange(j - 1, s@.len() as int) =~= seq![pre.last()] + s@.subrange(
            j as int,
            s@.len() as int,
        ));
        assert(last_segment(pre) == last_segment(pre.drop_last()).push(pre.last()));
        assert(last_segment(pre.drop_last()).push(pre.last()) + s@.subrange(j as int, s@.len() as int)
            =~= last_segment(pre.drop_last()) + s@.subrange(j - 1, s@.len() as int));
        j = j - 1;
    }
    let mut out: Vec<char> = Vec::new();
    let mut k: usize = j;
    while k < s.len()
        invariant
            j <= k <= s@.len(),
            out@ == s@.subrange(j as int, k as int),
        decreases s.len() - k,
    {
        out.push(s[k]);
        k = k + 1;
        assert(out@ =~= s@.subrange(j as int, k as int));
    }
    proof {
        let pre = s@.subrange(0, j as int);
        assert(last_segment(pre).len() == 0);
        assert(last_segment(s@) =~= out@);
    }
    out
}

} // verus!

verus! {

/// What `Path::file_name` gives for the path text `p` (its last component
/// when that is a normal name).
pub uninterp spec fn file_name_of(p: Seq<char>) -> Option<Seq<char>>;

/// What `Path::parent` gives for the path text `p`.
pub uninterp spec fn parent_of(p: Seq<char>) -> Option<Seq<char>>;

/// Trusted: std's `Path::file_name`; the contract names its result, which
/// depends on the path text alone (a `&str` path always converts back to
/// `str`).
#[verifier::external_body]
pub(crate) fn path_file_name(p: &str) -> (r: Option<String>)
    ensures
        match r {
            Some(s) => file_name_of(p@) == Some(s@),
            None => file_name_of(p@) is None,
        },
{
    std::path::Path::new(p).file_name().and_then(|n| n.to_str()).map(|n| n.to_string())
}

/// Trusted: std's `Path::parent`; the contract names its result, which
/// depends on the path text alone.
#[verifier::external_body]
pub(crate) fn path_parent(p: &str) -> (r: Option<String>)
    ensures
        match r {
            Some(s) => parent_of(p@) == Some(s@),
            None => parent_of(p@) is None,
        },
{
    std::path::Path::new(p).parent().and_then(|n| n.to_str()).map(|n| n.to_string())
}

} // verus!

verus! {

/// `s` without its trailing `/` characters (`trim_end_matches('/')`).
pub open spec fn trim_end_slashes(s: Seq<char>) -> Seq<char>
    decreases s.len(),
{
    if s.len() > 0 && s.last() == '/' {
        trim_end_slashes(s.drop_last())
    } else {
        s
    }
}

pub fn trim_end_slashes_of(s: &str) -> (r: Vec<char>)
    ensures
        r@ == trim_end_slashes(s@),
{
    let mut c = chars_of(s);
    while c.len() > 0 && c[c.len() - 1] == '/'
        invariant
            trim_end_slashes(c@) == trim_end_slashes(s@),
        decreases c.len(),
    {
        let ghost before = c@;
        c.pop();
        assert(c@ =~= before.drop_last());
    }
    c
}

/// An HTTP endpoint with `path` appended after trimming its trailing `/`.
pub open spec fn endpoint_url_spec(endpoint: Seq<char>, path: Seq<char>) -> Seq<char> {
    trim_end_slashes(endpoint) + path
}

pub fn endpoint_url(endpoint: &str, path: &str) -> (r: String)
    ensures
        r@ == endpoint_url_spec(endpoint@, path@),
{
    let mut out = trim_end_slashes_of(endpoint);
    let p = chars_of(path);
    push_all(&mut out, &p);
    string_of(&out)
}

} // verus!
