//! Character-level text helpers shared by the library.

use vstd::prelude::*;
use vstd::std_specs::iter::IteratorSpec;

verus! {

/// The characters of `s`, in order.
pub fn chars_of(s: &str) -> (out: Vec<char>)
    ensures
        out@ == s@,
{
    broadcast use vstd::string::axiom_spec_iter;
    let mut out: Vec<char> = Vec::new();
    for c in iter: s.chars()
        invariant
            iter.seq() == s@,
            out@ == s@.take(iter.index() as int),
    {
        out.push(c);
    }
    assert(out@ =~= s@);
    out
}

} // verus!

verus! {

/// The `String` holding exactly the characters of `chars`.
/// Trusted: std's `FromIterator<char>` for `String` (via `Iterator::collect`)
/// appends each character in order, as its documentation states.
#[verifier::external_body]
pub(crate) fn string_of(chars: &Vec<char>) -> (s: String)
    ensures
        s@ == chars@,
{
    chars.iter().collect::<String>()
}

/// What `str::to_uppercase` gives for a text: its Unicode upper-case form.
pub uninterp spec fn upper_of(s: Seq<char>) -> Seq<char>;

/// What `str::to_lowercase` gives for a text: its Unicode lower-case form.
pub uninterp spec fn lower_of(s: Seq<char>) -> Seq<char>;

/// Trusted: std's `str::to_uppercase`, a function of the text alone; its
/// result is named `upper_of` and nothing more is claimed of it.
#[verifier::external_body]
pub(crate) fn to_upper(s: &str) -> (r: String)
    ensures
        r@ == upper_of(s@),
{
    s.to_uppercase()
}

/// Trusted: std's `str::to_lowercase`, a function of the text alone; its
/// result is named `lower_of` and nothing more is claimed of it.
#[verifier::external_body]
pub(crate) fn to_lower(s: &str) -> (r: String)
    ensures
        r@ == lower_of(s@),
{
    s.to_lowercase()
}

/// Unicode `White_Space`, the set that `char::is_whitespace` and `str::trim` use.
pub open spec fn is_ws(c: char) -> bool {
    ||| ('\t' <= c && c <= '\r')
    ||| c == ' '
    ||| c == '\u{85}'
    ||| c == '\u{a0}'
    ||| c == '\u{1680}'
    ||| ('\u{2000}' <= c && c <= '\u{200a}')
    ||| c == '\u{2028}'
    ||| c == '\u{2029}'
    ||| c == '\u{202f}'
    ||| c == '\u{205f}'
    ||| c == '\u{3000}'
}

pub fn is_whitespace(c: char) -> (b: bool)
    ensures
        b == is_ws(c),
{
    ('\t' <= c && c <= '\r') || c == ' ' || c == '\u{85}' || c == '\u{a0}' || c == '\u{1680}'
        || ('\u{2000}' <= c && c <= '\u{200a}') || c == '\u{2028}' || c == '\u{2029}'
        || c == '\u{202f}' || c == '\u{205f}' || c == '\u{3000}'
}

/// `s` without its leading white space.
pub open spec fn trim_start(s: Seq<char>) -> Seq<char>
    decreases s.len(),
{
    if s.len() > 0 && is_ws(s[0]) {
        trim_start(s.drop_first())
    } else {
        s
    }
}

/// `s` without its trailing white space.
pub open spec fn trim_end(s: Seq<char>) -> Seq<char>
    decreases s.len(),
{
    if s.len() > 0 && is_ws(s.last()) {
        trim_end(s.drop_last())
    } else {
        s
    }
}

/// What `str::trim` returns.
pub open spec fn trim(s: Seq<char>) -> Seq<char> {
    trim_end(trim_start(s))
}

proof fn lemma_trim_start_shape(s: Seq<char>)
    ensures
        trim_start(s).len() == 0 || !is_ws(trim_start(s)[0]),
        trim_start(trim_start(s)) == trim_start(s),
    decreases s.len(),
{
    if s.len() > 0 && is_ws(s[0]) {
        lemma_trim_start_shape(s.drop_first());
    }
}

proof fn lemma_trim_end_shape(s: Seq<char>)
    ensures
        trim_end(s).len() <= s.len(),
        trim_end(s) == s.subrange(0, trim_end(s).len() as int),
        s.len() > 0 && !is_ws(s[0]) ==> trim_end(s).len() > 0,
        trim_end(trim_end(s)) == trim_end(s),
    decreases s.len(),
{
    if s.len() > 0 && is_ws(s.last()) {
        lemma_trim_end_shape(s.drop_last());
        let t = trim_end(s.drop_last());
        assert(s.drop_last().subrange(0, t.len() as int) =~= s.subrange(0, t.len() as int));
        if s.len() > 1 && !is_ws(s[0]) {
            assert(s.drop_last()[0] == s[0]);
        }
    } else {
        assert(s.subrange(0, s.len() as int) =~= s);
    }
}

/// Trimming twice trims no more than trimming once.
pub proof fn law_trim_idempotent(s: Seq<char>)
    ensures
        trim(trim(s)) == trim(s),
{
    let y = trim_start(s);
    lemma_trim_start_shape(s);
    lemma_trim_end_shape(y);
    let z = trim_end(y);
    if z.len() > 0 {
        assert(z[0] == y[0]);
        assert(!is_ws(z[0]));
    }
    assert(trim_start(z) == z);
}

pub fn trim_chars(s: &Vec<char>) -> (out: Vec<char>)
    ensures
        out@ == trim(s@),
{
    let n = s.len();
    let mut i: usize = 0;
    assert(s@.skip(0) =~= s@);
    while i < n && is_whitespace(s[i])
        invariant
            i <= n,
            n == s@.len(),
            trim_start(s@) == trim_start(s@.skip(i as int)),
        decreases n - i,
    {
        assert(s@.skip(i as int).drop_first() =~= s@.skip(i + 1));
        i = i + 1;
    }
    assert(trim_start(s@.skip(i as int)) == s@.skip(i as int));
    let mut j: usize = n;
    while j > i && is_whitespace(s[j - 1])
        invariant
            i <= j <= n,
            n == s@.len(),
            trim(s@) == trim_end(s@.subrange(i as int, j as int)),
        decreases j,
    {
        assert(s@.subrange(i as int, j as int).drop_last() =~= s@.subrange(i as int, j - 1));
        j = j - 1;
    }
    assert(s@.skip(i as int) =~= s@.subrange(i as int, n as int));
    let mut out: Vec<char> = Vec::new();
    let mut k: usize = i;
    while k < j
        invariant
            i <= k <= j <= n,
            n == s@.len(),
            out@ == s@.subrange(i as int, k as int),
        decreases j - k,
    {
        out.push(s[k]);
        k = k + 1;
        assert(out@ =~= s@.subrange(i as int, k as int));
    }
    out
}

/// Whether two character sequences are equal.
pub fn same_chars(a: &Vec<char>, b: &Vec<char>) -> (r: bool)
    ensures
        r == (a@ == b@),
{
    if a.len() != b.len() {
        return false;
    }
    let mut i: usize = 0;
    while i < a.len()
        invariant
            a@.len() == b@.len(),
            i <= a@.len(),
            forall|k: int| 0 <= k < i ==> a@[k] == b@[k],
        decreases a.len() - i,
    {
        if a[i] != b[i] {
            return false;
        }
        i = i + 1;
    }
    assert(a@ =~= b@);
    true
}

pub open spec fn starts_with(s: Seq<char>, prefix: Seq<char>) -> bool {
    prefix.len() <= s.len() && s.subrange(0, prefix.len() as int) == prefix
}

pub open spec fn ends_with(s: Seq<char>, suffix: Seq<char>) -> bool {
    suffix.len() <= s.len() && s.subrange(s.len() - suffix.len(), s.len() as int) == suffix
}

pub fn has_prefix(s: &Vec<char>, prefix: &Vec<char>) -> (r: bool)
    ensures
        r == starts_with(s@, prefix@),
{
    if prefix.len() > s.len() {
        return false;
    }
    let mut i: usize = 0;
    while i < prefix.len()
        invariant
            prefix@.len() <= s@.len(),
            i <= prefix@.len(),
            forall|k: int| 0 <= k < i ==> s@[k] == prefix@[k],
        decreases prefix.len() - i,
    {
        if s[i] != prefix[i] {
            assert(s@.subrange(0, prefix@.len() as int)[i as int] != prefix@[i as int]);
            return false;
        }
        i = i + 1;
    }
    assert(s@.subrange(0, prefix@.len() as int) =~= prefix@);
    true
}

pub fn has_suffix(s: &Vec<char>, suffix: &Vec<char>) -> (r: bool)
    ensures
        r == ends_with(s@, suffix@),
{
    if suffix.len() > s.len() {
        return false;
    }
    let off = s.len() - suffix.len();
    let mut i: usize = 0;
    while i < suffix.len()
        invariant
            suffix@.len() <= s@.len(),
            off + suffix.len() == s.len(),
            i <= suffix@.len(),
            forall|k: int| 0 <= k < i ==> s@[off + k] == suffix@[k],
        decreases suffix.len() - i,
    {
        if s[off + i] != suffix[i] {
            assert(s@.subrange(off as int, s@.len() as int)[i as int] != suffix@[i as int]);
            return false;
        }
        i = i + 1;
    }
    assert(s@.subrange(off as int, s@.len() as int) =~= suffix@);
    true
}

/// Whether `c` occurs in `s`.
pub fn has_char(s: &Vec<char>, c: char) -> (r: bool)
    ensures
        r == s@.contains(c),
{
    let mut i: usize = 0;
    while i < s.len()
        invariant
            i <= s@.len(),
            forall|k: int| 0 <= k < i ==> s@[k] != c,
        decreases s.len() - i,
    {
        if s[i] == c {
            assert(s@[i as int] == c);
            return true;
        }
        i = i + 1;
    }
    false
}

/// Appends the characters of `tail` to `out`.
pub fn push_all(out: &mut Vec<char>, tail: &Vec<char>)
    ensures
        final(out)@ == old(out)@ + tail@,
{
    let mut i: usize = 0;
    while i < tail.len()
        invariant
            i <= tail@.len(),
            out@ == old(out)@ + tail@.subrange(0, i as int),
        decreases tail.len() - i,
    {
        out.push(tail[i]);
        i = i + 1;
        assert(out@ =~= old(out)@ + tail@.subrange(0, i as int));
    }
    assert(tail@.subrange(0, tail@.len() as int) =~= tail@);
}

/// Appends the characters of `tail` to `out`.
pub fn push_str(out: &mut Vec<char>, tail: &str)
    ensures
        final(out)@ == old(out)@ + tail@,
{
    let t = chars_of(tail);
    push_all(out, &t);
}

/// The digit character for `d < 10`.
pub open spec fn digit_char(d: nat) -> char {
    (48 + d) as char
}

/// The decimal numeral of `n`, as `Display` writes an unsigned integer.
pub open spec fn decimal(n: nat) -> Seq<char>
    decreases n,
{
    if n < 10 {
        seq![digit_char(n)]
    } else {
        decimal(n / 10).push(digit_char(n % 10))
    }
}

pub fn push_decimal(out: &mut Vec<char>, n: u128)
    ensures
        final(out)@ == old(out)@ + decimal(n as nat),
    decreases n,
{
    if n >= 10 {
        push_decimal(out, n / 10);
    }
    let d: u8 = (n % 10) as u8;
    let c: char = (48u8 + d) as char;
    assert(c == digit_char((n % 10) as nat));
    out.push(c);
    assert(out@ =~= old(out)@ + decimal(n as nat));
}

/// `n` spaces.
pub open spec fn spaces(n: nat) -> Seq<char> {
    Seq::new(n, |i: int| ' ')
}

/// `s` padded on the right with spaces to `width` characters (`{:<width}`).
pub open spec fn pad_right(s: Seq<char>, width: nat) -> Seq<char> {
    if s.len() < width {
        s + spaces((width - s.len()) as nat)
    } else {
        s
    }
}

/// `s` padded on the left with `fill` to `width` characters (`{:>width}`).
pub open spec fn pad_left(s: Seq<char>, width: nat, fill: char) -> Seq<char> {
    if s.len() < width {
        Seq::new((width - s.len()) as nat, |i: int| fill) + s
    } else {
        s
    }
}

pub fn push_padded_right(out: &mut Vec<char>, s: &Vec<char>, width: usize)
    ensures
        final(out)@ == old(out)@ + pad_right(s@, width as nat),
{
    push_all(out, s);
    if s.len() < width {
        let ghost mid = out@;
        let mut k: usize = s.len();
        while k < width
            invariant
                s@.len() <= k <= width,
                out@ == mid + spaces((k - s@.len()) as nat),
            decreases width - k,
        {
            out.push(' ');
            k = k + 1;
            assert(out@ =~= mid + spaces((k - s@.len()) as nat));
        }
    }
    assert(out@ =~= old(out)@ + pad_right(s@, width as nat));
}

pub fn push_padded_left(out: &mut Vec<char>, s: &Vec<char>, width: usize, fill: char)
    ensures
        final(out)@ == old(out)@ + pad_left(s@, width as nat, fill),
{
    if s.len() < width {
        let ghost start = out@;
        let mut k: usize = s.len();
        while k < width
            invariant
                s@.len() <= k <= width,
                out@ == start + Seq::new((k - s@.len()) as nat, |i: int| fill),
            decreases width - k,
        {
            out.push(fill);
            k = k + 1;
            assert(out@ =~= start + Seq::new((k - s@.len()) as nat, |i: int| fill));
        }
    }
    let ghost before = out@;
    push_all(out, s);
    assert(out@ =~= old(out)@ + pad_left(s@, width as nat, fill));
}

/// The decimal numeral of `n` as a character vector.
pub fn decimal_chars(n: u128) -> (out: Vec<char>)
    ensures
        out@ == decimal(n as nat),
{
    let mut out: Vec<char> = Vec::new();
    push_decimal(&mut out, n);
    assert(out@ =~= decimal(n as nat));
    out
}

} // verus!

verus! {

/// Lexicographic order of character sequences by code point (the byte
/// order of their UTF-8 encodings).
pub open spec fn lex_lt(a: Seq<char>, b: Seq<char>) -> bool
    decreases a.len(),
{
    if a.len() == 0 {
        b.len() > 0
    } else if b.len() == 0 {
        false
    } else if a[0] != b[0] {
        a[0] < b[0]
    } else {
        lex_lt(a.drop_first(), b.drop_first())
    }
}

pub proof fn lemma_lex_lt_transitive(a: Seq<char>, b: Seq<char>, c: Seq<char>)
    requires
        lex_lt(a, b),
        lex_lt(b, c),
    ensures
        lex_lt(a, c),
    decreases a.len(),
{
    if a.len() > 0 && b.len() > 0 && c.len() > 0 && a[0] == b[0] && b[0] == c[0] {
        lemma_lex_lt_transitive(a.drop_first(), b.drop_first(), c.drop_first());
    }
}

pub proof fn lemma_lex_lt_irreflexive(a: Seq<char>)
    ensures
        !lex_lt(a, a),
    decreases a.len(),
{
    if a.len() > 0 {
        lemma_lex_lt_irreflexive(a.drop_first());
    }
}

/// No element is followed by a strictly smaller one.
pub open spec fn lex_sorted(s: Seq<Seq<char>>) -> bool {
    forall|i: int, j: int| 0 <= i < j < s.len() ==> !lex_lt(#[trigger] s[j], #[trigger] s[i])
}

pub fn chars_lt(a: &Vec<char>, b: &Vec<char>) -> (r: bool)
    ensures
        r == lex_lt(a@, b@),
{
    let mut i: usize = 0;
    assert(a@.skip(0) =~= a@ && b@.skip(0) =~= b@);
    while i < a.len() && i < b.len() && a[i] == b[i]
        invariant
            i <= a@.len(),
            i <= b@.len(),
            lex_lt(a@, b@) == lex_lt(a@.skip(i as int), b@.skip(i as int)),
        decreases a.len() - i,
    {
        assert(a@.skip(i as int).drop_first() =~= a@.skip(i + 1));
        assert(b@.skip(i as int).drop_first() =~= b@.skip(i + 1));
        i = i + 1;
    }
    if i == a.len() {
        i < b.len()
    } else if i == b.len() {
        false
    } else {
        a[i] < b[i]
    }
}

/// The texts of `v` in lexicographic order.
pub fn sort_texts(v: Vec<Vec<char>>) -> (out: Vec<Vec<char>>)
    ensures
        out@.map_values(|t: Vec<char>| t@).to_multiset() == v@.map_values(|t: Vec<char>| t@).to_multiset(),
        lex_sorted(out@.map_values(|t: Vec<char>| t@)),
{
    broadcast use vstd::seq_lib::group_to_multiset_ensures;
    let ghost input = v@.map_values(|t: Vec<char>| t@).to_multiset();
    let mut out: Vec<Vec<char>> = Vec::new();
    let mut rest = v;
    while rest.len() > 0
        invariant
            out@.map_values(|t: Vec<char>| t@).to_multiset().add(
                rest@.map_values(|t: Vec<char>| t@).to_multiset(),
            ) == input,
            lex_sorted(out@.map_values(|t: Vec<char>| t@)),
        decreases rest.len(),
    {
        let ghost rs = rest@.map_values(|t: Vec<char>| t@);
        let x = rest.pop().unwrap();
        proof {
            assert(rs =~= rest@.map_values(|t: Vec<char>| t@).push(x@));
        }
        let ghost xs = out@.map_values(|t: Vec<char>| t@);
        let mut pos: usize = 0;
        while pos < out.len() && !chars_lt(&x, &out[pos])
            invariant
                pos <= out@.len(),
                xs == out@.map_values(|t: Vec<char>| t@),
                forall|k: int| 0 <= k < pos ==> !lex_lt(x@, #[trigger] xs[k]),
            decreases out.len() - pos,
        {
            pos = pos + 1;
        }
        out.insert(pos, x);
        proof {
            let ys = out@.map_values(|t: Vec<char>| t@);
            assert(ys =~= xs.insert(pos as int, x@));
            assert forall|a: int, b: int| 0 <= a < b < ys.len() implies !lex_lt(
                #[trigger] ys[b],
                #[trigger] ys[a],
            ) by {
                if b < pos {
                    assert(ys[a] == xs[a] && ys[b] == xs[b]);
                    assert(!lex_lt(xs[b], xs[a]));
                } else if b == pos {
                    assert(ys[a] == xs[a] && ys[b] == x@);
                    assert(!lex_lt(x@, xs[a]));
                } else if a < pos {
                    assert(ys[a] == xs[a] && ys[b] == xs[b - 1]);
                    assert(!lex_lt(xs[b - 1], xs[a]));
                } else if a == pos {
                    assert(ys[a] == x@ && ys[b] == xs[b - 1]);
                    assert(lex_lt(x@, xs[pos as int]));
                    if pos < b - 1 {
                        assert(!lex_lt(xs[b - 1], xs[pos as int]));
                    } else {
                        lemma_lex_lt_irreflexive(xs[pos as int]);
                    }
                    if lex_lt(ys[b], x@) {
                        lemma_lex_lt_transitive(ys[b], x@, xs[pos as int]);
                    }
                } else {
                    assert(ys[a] == xs[a - 1] && ys[b] == xs[b - 1]);
                    assert(!lex_lt(xs[b - 1], xs[a - 1]));
                }
            }
            vstd::seq_lib::to_multiset_insert(xs, pos as int, x@);
            assert(ys.to_multiset() == xs.to_multiset().insert(x@));
            rest@.map_values(|t: Vec<char>| t@).to_multiset_ensures();
            assert(rs.to_multiset() == rest@.map_values(|t: Vec<char>| t@).to_multiset().insert(
                x@,
            ));
            assert(ys.to_multiset().add(rest@.map_values(|t: Vec<char>| t@).to_multiset())
                =~= xs.to_multiset().add(rs.to_multiset()));
        }
    }
    assert(rest@.map_values(|t: Vec<char>| t@) =~= Seq::<Seq<char>>::empty());
    assert(out@.map_values(|t: Vec<char>| t@).to_multiset() =~= input);
    out
}

} // verus!

verus! {

/// The text `a`, `x`, `b` in sequence.
pub fn text3(a: &str, x: &str, b: &str) -> (r: String)
    ensures
        r@ == a@ + x@ + b@,
{
    let mut out: Vec<char> = Vec::new();
    push_str(&mut out, a);
    push_str(&mut out, x);
    push_str(&mut out, b);
    string_of(&out)
}

/// The text `a`, `x`, `b`, `y` in sequence.
pub fn text4(a: &str, x: &str, b: &str, y: &str) -> (r: String)
    ensures
        r@ == a@ + x@ + b@ + y@,
{
    let mut out: Vec<char> = Vec::new();
    push_str(&mut out, a);
    push_str(&mut out, x);
    push_str(&mut out, b);
    push_str(&mut out, y);
    string_of(&out)
}

/// The text `a`, `x`, `b`, `y`, `c` in sequence.
pub fn text5(a: &str, x: &str, b: &str, y: &str, c: &str) -> (r: String)
    ensures
        r@ == a@ + x@ + b@ + y@ + c@,
{
    let mut out: Vec<char> = Vec::new();
    push_str(&mut out, a);
    push_str(&mut out, x);
    push_str(&mut out, b);
    push_str(&mut out, y);
    push_str(&mut out, c);
    string_of(&out)
}

/// The text `a`, `x`, `b`, `y`, `c`, `z`, `d` in sequence.
pub fn text7(a: &str, x: &str, b: &str, y: &str, c: &str, z: &str, d: &str) -> (r: String)
    ensures
        r@ == a@ + x@ + b@ + y@ + c@ + z@ + d@,
{
    let mut out: Vec<char> = Vec::new();
    push_str(&mut out, a);
    push_str(&mut out, x);
    push_str(&mut out, b);
    push_str(&mut out, y);
    push_str(&mut out, c);
    push_str(&mut out, z);
    push_str(&mut out, d);
    string_of(&out)
}

/// Whether `t` is one of `ts`.
pub fn contains_text(ts: &Vec<String>, t: &String) -> (r: bool)
    ensures
        r == ts@.map_values(|s: String| s@).contains(t@),
{
    let ghost tv = ts@.map_values(|s: String| s@);
    let mut i: usize = 0;
    while i < ts.len()
        invariant
            i <= ts@.len(),
            tv == ts@.map_values(|s: String| s@),
            forall|k: int| 0 <= k < i ==> tv[k] != t@,
        decreases ts.len() - i,
    {
        if ts[i] == *t {
            assert(tv[i as int] == t@);
            return true;
        }
        i = i + 1;
    }
    false
}

} // verus!
