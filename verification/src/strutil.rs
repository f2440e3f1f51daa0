//! Verified string helpers shared across the crate: equality, prefix and
//! substring tests, ASCII case folding, trimming, and splitting into lines.
//!
//! Everything here is specified against the character-sequence views of
//! `&str` and `String`.

use vstd::prelude::*;
use vstd::string::StrSliceExecFns;

verus! {

/// Character-level equality of two string slices.
pub fn str_eq(a: &str, b: &str) -> (r: bool)
    ensures
        r == (a@ == b@),
{
    let an = a.unicode_len();
    let bn = b.unicode_len();
    if an != bn {
        return false;
    }
    let mut i: usize = 0;
    while i < an
        invariant
            i <= an,
            an == a@.len(),
            an == b@.len(),
            forall|k: int| 0 <= k < i ==> a@[k] == b@[k],
        decreases an - i,
    {
        if a.get_char(i) != b.get_char(i) {
            return false;
        }
        i += 1;
    }
    proof {
        assert(a@ =~= b@);
    }
    true
}

/// Character-level equality of two strings.
pub fn string_eq(a: &String, b: &String) -> (r: bool)
    ensures
        r == (a@ == b@),
{
    str_eq(a.as_str(), b.as_str())
}

/// Character-level equality of a string and a string slice.
pub fn string_eq_str(a: &String, b: &str) -> (r: bool)
    ensures
        r == (a@ == b@),
{
    str_eq(a.as_str(), b)
}

/// True when `p` is a prefix of `s`.
pub open spec fn is_prefix_of(p: Seq<char>, s: Seq<char>) -> bool {
    p.len() <= s.len() && s.take(p.len() as int) == p
}

/// True when `p` is a suffix of `s`.
pub open spec fn is_suffix_of(p: Seq<char>, s: Seq<char>) -> bool {
    p.len() <= s.len() && s.skip(s.len() - p.len()) == p
}

/// Whether `s` starts with `prefix`, at the character level.
pub fn starts_with(s: &str, prefix: &str) -> (r: bool)
    ensures
        r == is_prefix_of(prefix@, s@),
{
    let pn = prefix.unicode_len();
    let sn = s.unicode_len();
    if pn > sn {
        return false;
    }
    let mut i: usize = 0;
    while i < pn
        invariant
            i <= pn,
            pn == prefix@.len(),
            sn == s@.len(),
            pn <= sn,
            forall|k: int| 0 <= k < i ==> s@[k] == prefix@[k],
        decreases pn - i,
    {
        if s.get_char(i) != prefix.get_char(i) {
            proof {
                if is_prefix_of(prefix@, s@) {
                    assert(s@.take(pn as int)[i as int] == s@[i as int]);
                }
            }
            return false;
        }
        i += 1;
    }
    proof {
        assert(s@.take(pn as int) =~= prefix@);
    }
    true
}

/// Whether `s` ends with `suffix`, at the character level.
pub fn ends_with(s: &str, suffix: &str) -> (r: bool)
    ensures
        r == is_suffix_of(suffix@, s@),
{
    let pn = suffix.unicode_len();
    let sn = s.unicode_len();
    if pn > sn {
        return false;
    }
    let off = sn - pn;
    let mut i: usize = 0;
    while i < pn
        invariant
            i <= pn,
            pn == suffix@.len(),
            sn == s@.len(),
            off == sn - pn,
            forall|k: int| 0 <= k < i ==> s@[off + k] == suffix@[k],
        decreases pn - i,
    {
        if s.get_char(off + i) != suffix.get_char(i) {
            proof {
                if is_suffix_of(suffix@, s@) {
                    assert(s@.skip(off as int)[i as int] == s@[off + i]);
                }
            }
            return false;
        }
        i += 1;
    }
    proof {
        assert(s@.skip(off as int) =~= suffix@);
    }
    true
}

/// True when `needle` occurs in `hay` starting at position `at`.
pub open spec fn occurs_at(hay: Seq<char>, needle: Seq<char>, at: int) -> bool {
    0 <= at && at + needle.len() <= hay.len() && hay.subrange(at, at + needle.len()) == needle
}

/// Whether `needle` occurs anywhere in `hay`, at the character level.
pub fn contains_str(hay: &str, needle: &str) -> (r: bool)
    ensures
        r == exists|at: int| occurs_at(hay@, needle@, at),
{
    let nn = needle.unicode_len();
    let hn = hay.unicode_len();
    if nn > hn {
        return false;
    }
    if nn == 0 {
        proof {
            assert(hay@.subrange(0, 0) =~= needle@);
            assert(occurs_at(hay@, needle@, 0));
        }
        return true;
    }
    let last = hn - nn;
    let mut start: usize = 0;
    loop
        invariant
            start <= last + 1,
            last == hn - nn,
            1 <= nn == needle@.len(),
            hn == hay@.len(),
            nn <= hn,
            forall|at: int| 0 <= at < start ==> !occurs_at(hay@, needle@, at),
        decreases last + 1 - start,
    {
        if start > last {
            proof {
                assert(forall|at: int| occurs_at(hay@, needle@, at) ==> 0 <= at <= last);
            }
            return false;
        }
        let mut i: usize = 0;
        let mut matched = true;
        while i < nn && matched
            invariant
                i <= nn,
                start <= last,
                last == hn - nn,
                nn == needle@.len(),
                hn == hay@.len(),
                matched ==> forall|k: int| 0 <= k < i ==> hay@[start + k] == needle@[k],
                !matched ==> !occurs_at(hay@, needle@, start as int),
            decreases nn - i,
        {
            if hay.get_char(start + i) != needle.get_char(i) {
                proof {
                    if occurs_at(hay@, needle@, start as int) {
                        assert(hay@.subrange(start as int, start + nn)[i as int] == hay@[start
                            + i]);
                    }
                }
                matched = false;
                i = nn;
            } else {
                i += 1;
            }
        }
        if matched {
            proof {
                assert(hay@.subrange(start as int, start + nn) =~= needle@);
                assert(occurs_at(hay@, needle@, start as int));
            }
            return true;
        }
        start += 1;
    }
}

/// The index of the first `'\n'` in `s`, or `s.len()` if there is none.
pub open spec fn first_newline(s: Seq<char>) -> int
    decreases s.len(),
{
    if s.len() == 0 {
        0
    } else if s[0] == '\n' {
        0
    } else {
        1 + first_newline(s.drop_first())
    }
}

/// `first_newline` returns the least index holding `'\n'`, or the length.
pub proof fn lemma_first_newline(s: Seq<char>)
    ensures
        0 <= first_newline(s) <= s.len(),
        first_newline(s) < s.len() ==> s[first_newline(s)] == '\n',
        forall|k: int| 0 <= k < first_newline(s) ==> s[k] != '\n',
    decreases s.len(),
{
    if s.len() == 0 {
    } else if s[0] == '\n' {
    } else {
        lemma_first_newline(s.drop_first());
        assert(forall|k: int| 1 <= k < first_newline(s) ==> s[k] == s.drop_first()[k - 1]);
    }
}

/// A line with a trailing carriage return stripped.
pub open spec fn strip_cr(l: Seq<char>) -> Seq<char> {
    if l.len() > 0 && l[l.len() - 1] == '\r' {
        l.drop_last()
    } else {
        l
    }
}

/// The lines of `s`, split at `'\n'`, each with a trailing `'\r'`
/// removed; a trailing newline produces no extra empty line.
pub open spec fn lines_of(s: Seq<char>) -> Seq<Seq<char>>
    decreases s.len(),
    via lines_of_decreases
{
    if s.len() == 0 {
        Seq::<Seq<char>>::empty()
    } else {
        let i = first_newline(s);
        if i == s.len() {
            seq![strip_cr(s)]
        } else {
            seq![strip_cr(s.take(i))] + lines_of(s.skip(i + 1))
        }
    }
}

#[via_fn]
proof fn lines_of_decreases(s: Seq<char>) {
    lemma_first_newline(s);
}

/// The nonempty lines of `s`, in order.
pub open spec fn nonempty_lines(s: Seq<char>) -> Seq<Seq<char>> {
    lines_of(s).filter(|l: Seq<char>| l.len() > 0)
}

/// The index of the first `'\n'` at or after `from`, or the length.
fn find_newline(s: &str, from: usize) -> (r: usize)
    requires
        from <= s@.len(),
    ensures
        from <= r <= s@.len(),
        r - from == first_newline(s@.skip(from as int)),
{
    let n = s.unicode_len();
    let ghost suff = s@.skip(from as int);
    proof {
        lemma_first_newline(suff);
    }
    let mut i = from;
    while i < n
        invariant
            from <= i <= n,
            n == s@.len(),
            suff == s@.skip(from as int),
            forall|k: int| 0 <= k < i - from ==> suff[k] != '\n',
        decreases n - i,
    {
        if s.get_char(i) == '\n' {
            proof {
                assert(suff[i - from] == s@[i as int]);
                lemma_first_newline_exact(suff, i - from);
            }
            return i;
        }
        proof {
            assert(suff[i - from] == s@[i as int]);
        }
        i += 1;
    }
    proof {
        lemma_first_newline_exact(suff, suff.len() as int);
    }
    n
}

/// Any index that holds the first `'\n'` (or is the length, with none
/// before it) is `first_newline`.
proof fn lemma_first_newline_exact(s: Seq<char>, i: int)
    requires
        0 <= i <= s.len(),
        forall|k: int| 0 <= k < i ==> s[k] != '\n',
        i < s.len() ==> s[i] == '\n',
    ensures
        first_newline(s) == i,
{
    lemma_first_newline(s);
    let f = first_newline(s);
    if f < i {
        assert(s[f] == '\n');
    }
    if i < f {
        assert(s[i] != '\n');
    }
}

/// The nonempty lines of `s`: split at `'\n'`, strip one trailing `'\r'`
/// from each piece, drop empty pieces.
pub fn split_nonempty_lines(s: &str) -> (r: Vec<String>)
    ensures
        r.deep_view() == nonempty_lines(s@),
{
    let n = s.unicode_len();
    let mut r: Vec<String> = Vec::new();
    let mut p: usize = 0;
    proof {
        assert(s@.skip(0) =~= s@);
        assert(Seq::<Seq<char>>::empty().filter(|l: Seq<char>| l.len() > 0) =~~= Seq::<
            Seq<char>,
        >::empty());
        assert(r.deep_view() =~~= Seq::<Seq<char>>::empty());
        assert(nonempty_lines(s@) =~~= r.deep_view() + nonempty_lines(s@.skip(0)));
    }
    while p < n
        invariant
            p <= n,
            n == s@.len(),
            nonempty_lines(s@) == r.deep_view() + nonempty_lines(s@.skip(p as int)),
        decreases n - p,
    {
        let ghost suff = s@.skip(p as int);
        let ghost pred = |l: Seq<char>| l.len() > 0;
        let ghost old_dv = r.deep_view();
        let nl = find_newline(s, p);
        proof {
            lemma_first_newline(suff);
        }
        let line_end = if nl > p && s.get_char(nl - 1) == '\r' {
            proof {
                assert(suff[nl - 1 - p] == s@[nl - 1]);
            }
            nl - 1
        } else {
            nl
        };
        let line = s.substring_char(p, line_end).to_owned();
        let ghost i = first_newline(suff);
        proof {
            // the piece equals strip_cr of the suffix's first line
            if i == suff.len() {
                assert(suff.take(i) =~= suff);
            }
            assert(suff.take(i) =~= s@.subrange(p as int, p + i));
            if i > 0 && suff[i - 1] == '\r' {
                assert(suff.take(i).drop_last() =~= s@.subrange(p as int, p + i - 1));
                assert(line@ == strip_cr(suff.take(i)));
            } else {
                assert(strip_cr(suff.take(i)) == suff.take(i));
                assert(line@ == strip_cr(suff.take(i)));
            }
        }
        let ghost l0 = strip_cr(suff.take(i));
        proof {
            // nonempty_lines of the suffix: first line plus the rest
            Seq::<Seq<char>>::empty().lemma_filter_push(l0, pred);
            assert(Seq::<Seq<char>>::empty().filter(pred) =~~= Seq::<Seq<char>>::empty());
            assert(seq![l0] =~~= Seq::<Seq<char>>::empty().push(l0));
            assert(seq![l0].filter(pred) == Seq::<Seq<char>>::empty().push(l0).filter(pred));
            if i == suff.len() {
                assert(lines_of(suff) == seq![strip_cr(suff)]);
                assert(strip_cr(suff) == l0);
                assert(nonempty_lines(suff) == seq![l0].filter(pred));
            } else {
                assert(lines_of(suff) == seq![l0] + lines_of(suff.skip(i + 1)));
                Seq::<Seq<char>>::filter_distributes_over_add(
                    seq![l0],
                    lines_of(suff.skip(i + 1)),
                    pred,
                );
                assert(nonempty_lines(suff) == seq![l0].filter(pred) + nonempty_lines(
                    suff.skip(i + 1),
                ));
            }
        }
        if line.unicode_len() > 0 {
            r.push(line);
            proof {
                assert(r.deep_view() =~~= old_dv.push(l0));
                assert(seq![l0].filter(pred) =~~= seq![l0]);
                assert(old_dv.push(l0) =~~= old_dv + seq![l0]);
            }
        } else {
            proof {
                assert(seq![l0].filter(pred) =~~= Seq::<Seq<char>>::empty());
            }
        }
        if nl >= n {
            proof {
                assert(i == suff.len());
                if line@.len() > 0 {
                    assert(nonempty_lines(s@) =~~= r.deep_view());
                } else {
                    assert(nonempty_lines(suff) =~~= Seq::<Seq<char>>::empty());
                    assert(nonempty_lines(s@) =~~= r.deep_view());
                }
            }
            return r;
        }
        proof {
            assert(i < suff.len());
            assert(suff.skip(i + 1) =~= s@.skip(p + i + 1));
            assert(nonempty_lines(s@) =~~= r.deep_view() + nonempty_lines(s@.skip(p + i + 1)));
        }
        p = nl + 1;
    }
    proof {
        assert(s@.skip(p as int) =~= Seq::<char>::empty());
        assert(nonempty_lines(Seq::<char>::empty()) =~~= Seq::<Seq<char>>::empty());
        assert(nonempty_lines(s@) =~~= r.deep_view());
    }
    r
}

/// The index of the last `'/'` in `s`, or -1 if there is none.
pub open spec fn last_slash_at(s: Seq<char>) -> int
    decreases s.len(),
{
    if s.len() == 0 {
        -1
    } else if s[s.len() - 1] == '/' {
        s.len() - 1
    } else {
        last_slash_at(s.drop_last())
    }
}

/// `last_slash_at` returns the greatest index holding `'/'`, or -1.
pub proof fn lemma_last_slash(s: Seq<char>)
    ensures
        -1 <= last_slash_at(s) < s.len(),
        last_slash_at(s) >= 0 ==> s[last_slash_at(s)] == '/',
        forall|k: int| last_slash_at(s) < k < s.len() ==> s[k] != '/',
    decreases s.len(),
{
    if s.len() == 0 {
    } else if s[s.len() - 1] == '/' {
    } else {
        lemma_last_slash(s.drop_last());
        assert(forall|k: int| 0 <= k < s.len() - 1 ==> s[k] == s.drop_last()[k]);
    }
}

/// Any index holding the last `'/'` (or -1, with none at all) is
/// `last_slash_at`.
proof fn lemma_last_slash_exact(s: Seq<char>, i: int)
    requires
        -1 <= i < s.len(),
        i >= 0 ==> s[i] == '/',
        forall|k: int| i < k < s.len() ==> s[k] != '/',
    ensures
        last_slash_at(s) == i,
{
    lemma_last_slash(s);
    let f = last_slash_at(s);
    if f < i {
        assert(s[i] == '/');
    }
    if i < f {
        assert(s[f] == '/');
    }
}

/// The directory part of a path: everything before the last `'/'`, or
/// nothing when there is no separator.
pub open spec fn parent_of(p: Seq<char>) -> Option<Seq<char>> {
    if last_slash_at(p) >= 0 {
        Some(p.take(last_slash_at(p)))
    } else {
        None
    }
}

/// The directory part of a path.
pub fn parent_dir(p: &str) -> (r: Option<String>)
    ensures
        match r {
            Some(d) => parent_of(p@) == Some(d@),
            None => parent_of(p@) is None,
        },
{
    let n = p.unicode_len();
    let mut j: usize = n;
    while j > 0 && p.get_char(j - 1) != '/'
        invariant
            j <= n,
            n == p@.len(),
            forall|k: int| j <= k < n ==> p@[k] != '/',
        decreases j,
    {
        j -= 1;
    }
    if j == 0 {
        proof {
            lemma_last_slash_exact(p@, -1);
        }
        None
    } else {
        proof {
            assert(p@[j - 1] == '/');
            lemma_last_slash_exact(p@, j - 1);
        }
        let d = p.substring_char(0, j - 1).to_owned();
        proof {
            assert(d@ =~= p@.take(j - 1));
        }
        Some(d)
    }
}

/// True for the ASCII whitespace characters trimmed from command output.
pub open spec fn is_ws(c: char) -> bool {
    c == ' ' || c == '\t' || c == '\n' || c == '\r'
}

/// Whether `c` is ASCII whitespace.
pub fn char_is_ws(c: char) -> (r: bool)
    ensures
        r == is_ws(c),
{
    c == ' ' || c == '\t' || c == '\n' || c == '\r'
}

/// The number of leading whitespace characters of `s`.
pub open spec fn leading_ws(s: Seq<char>) -> int
    decreases s.len(),
{
    if s.len() == 0 {
        0
    } else if !is_ws(s[0]) {
        0
    } else {
        1 + leading_ws(s.drop_first())
    }
}

/// `s` with leading and trailing ASCII whitespace removed.
pub open spec fn trim_spec(s: Seq<char>) -> Seq<char> {
    let a = leading_ws(s);
    let rest = s.skip(a);
    let b = leading_ws(rest.reverse());
    rest.take(rest.len() - b)
}

/// `leading_ws` counts exactly the whitespace prefix.
pub proof fn lemma_leading_ws(s: Seq<char>)
    ensures
        0 <= leading_ws(s) <= s.len(),
        leading_ws(s) < s.len() ==> !is_ws(s[leading_ws(s)]),
        forall|k: int| 0 <= k < leading_ws(s) ==> is_ws(s[k]),
    decreases s.len(),
{
    if s.len() == 0 {
    } else if !is_ws(s[0]) {
    } else {
        lemma_leading_ws(s.drop_first());
        assert(forall|k: int| 1 <= k < leading_ws(s) ==> s[k] == s.drop_first()[k - 1]);
    }
}

/// Any index bounding a maximal whitespace prefix is `leading_ws`.
proof fn lemma_leading_ws_exact(s: Seq<char>, i: int)
    requires
        0 <= i <= s.len(),
        forall|k: int| 0 <= k < i ==> is_ws(s[k]),
        i < s.len() ==> !is_ws(s[i]),
    ensures
        leading_ws(s) == i,
{
    lemma_leading_ws(s);
    let f = leading_ws(s);
    if f < i {
        assert(is_ws(s[f]));
    }
    if i < f {
        assert(is_ws(s[i]));
    }
}

/// `s` with leading and trailing ASCII whitespace removed.
pub fn trim_ascii(s: &str) -> (r: String)
    ensures
        r@ == trim_spec(s@),
{
    let n = s.unicode_len();
    let mut a: usize = 0;
    while a < n && char_is_ws(s.get_char(a))
        invariant
            a <= n,
            n == s@.len(),
            forall|k: int| 0 <= k < a ==> is_ws(s@[k]),
        decreases n - a,
    {
        a += 1;
    }
    // a == leading_ws(s@): the loop stopped at a non-ws char or the end
    proof {
        lemma_leading_ws_exact(s@, a as int);
    }
    let mut b: usize = n;
    while b > a && char_is_ws(s.get_char(b - 1))
        invariant
            a <= b <= n,
            n == s@.len(),
            forall|k: int| b <= k < n ==> is_ws(s@[k]),
        decreases b,
    {
        b -= 1;
    }
    let r = s.substring_char(a, b).to_owned();
    proof {
        let rest = s@.skip(a as int);
        let rev = rest.reverse();
        assert(forall|k: int| 0 <= k < rest.len() ==> rev[k] == rest[rest.len() - 1 - k]);
        assert(forall|k: int| 0 <= k < (n - b) ==> is_ws(rev[k])) by {
            assert(forall|k: int|
                0 <= k < (n - b) ==> rev[k] == s@[b + ((n - b) - 1 - k)] && b <= b + ((n - b) - 1
                    - k) < n);
        }
        if b > a {
            assert(!is_ws(rev[(n - b) as int])) by {
                assert(rev[(n - b) as int] == rest[rest.len() - 1 - (n - b)]);
                assert(rest[rest.len() - 1 - (n - b)] == s@[b - 1]);
            }
        }
        lemma_leading_ws_exact(rev, n - b);
        assert(r@ =~= trim_spec(s@)) by {
            assert(r@ == s@.subrange(a as int, b as int));
            assert(rest.take(rest.len() - (n - b)) =~= s@.subrange(a as int, b as int));
        }
    }
    r
}

/// ASCII lowercase of one character: `A`..`Z` map to `a`..`z`, everything
/// else is unchanged.
pub open spec fn lower_char(c: char) -> char {
    if 'A' <= c <= 'Z' {
        (((c as u8) + 32) as u8) as char
    } else {
        c
    }
}

/// The sequence with every ASCII uppercase letter lowered.
pub open spec fn lower_chars(s: Seq<char>) -> Seq<char> {
    s.map_values(|c: char| lower_char(c))
}

/// ASCII-lowercases a string slice.  Non-ASCII characters pass through
/// unchanged.
pub fn to_ascii_lowercase(s: &str) -> (r: String)
    ensures
        r@ == lower_chars(s@),
{
    let n = s.unicode_len();
    let mut r = String::new();
    let mut i: usize = 0;
    while i < n
        invariant
            i <= n,
            n == s@.len(),
            r@ == lower_chars(s@).take(i as int),
        decreases n - i,
    {
        let c = s.get_char(i);
        let lc: char = if 'A' <= c && c <= 'Z' {
            (((c as u8) + 32) as u8) as char
        } else {
            c
        };
        proof {
            assert(lc == lower_char(s@[i as int]));
        }
        crate::decimal::string_push(&mut r, lc);
        i += 1;
        proof {
            assert(r@ =~= lower_chars(s@).take(i as int));
        }
    }
    proof {
        assert(r@ =~= lower_chars(s@));
    }
    r
}

} // verus!
