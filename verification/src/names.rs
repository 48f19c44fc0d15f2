//! The device-name cleaning transform. The operating system sometimes
//! decorates a friendly name with numeric suffixes ("Speakers (2- Realtek)
//! (2)"); the cleaned form is the identity used wherever a name is stored,
//! compared or shown. The transform splits a name of the shape
//! "<friendly> (<junk><device>)" — junk being digits, whitespace, `-` and
//! `|` — at the last such group, strips "(digit)" groups and a leading
//! "digit-" prefix from the friendly part, trims it, and reassembles
//! "<friendly> (<device>)"; a name without that shape stays as it is.
//! Splitting is leftmost and greedy: the split with the earliest start,
//! then the longest friendly part, then the longest junk run, then the
//! longest device part.

use vstd::prelude::*;

verus! {

/// The whitespace class of the splitting pattern.
pub open spec fn spec_is_pat_ws(c: char) -> bool {
    c == '\t' || c == '\n' || c == '\u{B}' || c == '\u{C}' || c == '\r' || c == ' '
}

pub open spec fn spec_is_digit(c: char) -> bool {
    '0' <= c && c <= '9'
}

/// The junk class between the opening parenthesis and the device part.
pub open spec fn spec_is_junk(c: char) -> bool {
    spec_is_pat_ws(c) || spec_is_digit(c) || c == '-' || c == '|'
}

/// The whitespace that trimming strips: the Unicode white-space
/// characters.
pub open spec fn spec_is_trim_ws(c: char) -> bool {
    ||| c == '\t'
    ||| c == '\n'
    ||| c == '\u{B}'
    ||| c == '\u{C}'
    ||| c == '\r'
    ||| c == ' '
    ||| c == '\u{85}'
    ||| c == '\u{A0}'
    ||| c == '\u{1680}'
    ||| ('\u{2000}' <= c && c <= '\u{200A}')
    ||| c == '\u{2028}'
    ||| c == '\u{2029}'
    ||| c == '\u{202F}'
    ||| c == '\u{205F}'
    ||| c == '\u{3000}'
}

fn is_pat_ws(c: char) -> (r: bool)
    ensures
        r == spec_is_pat_ws(c),
{
    c == '\t' || c == '\n' || c == '\u{B}' || c == '\u{C}' || c == '\r' || c == ' '
}

fn is_digit(c: char) -> (r: bool)
    ensures
        r == spec_is_digit(c),
{
    '0' <= c && c <= '9'
}

fn is_junk(c: char) -> (r: bool)
    ensures
        r == spec_is_junk(c),
{
    is_pat_ws(c) || is_digit(c) || c == '-' || c == '|'
}

fn is_trim_ws(c: char) -> (r: bool)
    ensures
        r == spec_is_trim_ws(c),
{
    c == '\t' || c == '\n' || c == '\u{B}' || c == '\u{C}' || c == '\r' || c == ' '
        || c == '\u{85}' || c == '\u{A0}' || c == '\u{1680}' || ('\u{2000}' <= c && c
        <= '\u{200A}') || c == '\u{2028}' || c == '\u{2029}' || c == '\u{202F}' || c == '\u{205F}'
        || c == '\u{3000}'
}

/// The length of the "(digit)" group match at position `q` of the friendly
/// part, optionally preceded by one whitespace; zero when none starts
/// there.
pub open spec fn spec_paren_digit_len(f: Seq<char>, q: int) -> int {
    if q + 3 < f.len() && spec_is_pat_ws(f[q]) && f[q + 1] == '(' && spec_is_digit(f[q + 2]) && f[
        q + 3
    ] == ')' {
        4
    } else if q + 2 < f.len() && f[q] == '(' && spec_is_digit(f[q + 1]) && f[q + 2] == ')' {
        3
    } else {
        0
    }
}

/// The number of consecutive digits at position `q`.
pub open spec fn spec_digit_run(f: Seq<char>, q: int) -> int
    decreases f.len() - q,
{
    if 0 <= q < f.len() && spec_is_digit(f[q]) {
        1 + spec_digit_run(f, q + 1)
    } else {
        0
    }
}

/// The length of the leading "digits, optional space, dash, optional
/// space" prefix match; zero when the friendly part has none. Only
/// position zero can hold it.
pub open spec fn spec_leading_num_len(f: Seq<char>) -> int {
    let t = spec_digit_run(f, 0);
    if t == 0 {
        0
    } else if t < f.len() && spec_is_pat_ws(f[t]) && t + 1 < f.len() && f[t + 1] == '-' {
        if t + 2 < f.len() && spec_is_pat_ws(f[t + 2]) {
            t + 3
        } else {
            t + 2
        }
    } else if t < f.len() && f[t] == '-' {
        if t + 1 < f.len() && spec_is_pat_ws(f[t + 1]) {
            t + 2
        } else {
            t + 1
        }
    } else {
        0
    }
}

/// The length of the cleaner match starting at `q`, zero when none starts
/// there: a "(digit)" group first, else, at the start only, the leading
/// number prefix.
pub open spec fn spec_cleaner_len(f: Seq<char>, q: int) -> int {
    if spec_paren_digit_len(f, q) > 0 {
        spec_paren_digit_len(f, q)
    } else if q == 0 {
        spec_leading_num_len(f)
    } else {
        0
    }
}

/// The friendly part from position `q` on with every cleaner match
/// removed, scanning left to right over non-overlapping matches.
pub open spec fn spec_cleaned_from(f: Seq<char>, q: int) -> Seq<char>
    decreases f.len() - q,
{
    if !(0 <= q < f.len()) {
        Seq::empty()
    } else {
        let len = spec_cleaner_len(f, q);
        if len > 0 {
            spec_cleaned_from(f, q + len)
        } else {
            seq![f[q]] + spec_cleaned_from(f, q + 1)
        }
    }
}

/// `f` without its leading trim whitespace.
pub open spec fn spec_trim_start(f: Seq<char>) -> Seq<char>
    decreases f.len(),
{
    if f.len() > 0 && spec_is_trim_ws(f[0]) {
        spec_trim_start(f.drop_first())
    } else {
        f
    }
}

/// `f` without its trailing trim whitespace.
pub open spec fn spec_trim_end(f: Seq<char>) -> Seq<char>
    decreases f.len(),
{
    if f.len() > 0 && spec_is_trim_ws(f.last()) {
        spec_trim_end(f.drop_last())
    } else {
        f
    }
}

/// The friendly part as the cleaned name shows it: cleaner matches
/// removed, then trimmed at both ends.
pub open spec fn spec_cleaned_friendly(f: Seq<char>) -> Seq<char> {
    spec_trim_end(spec_trim_start(spec_cleaned_from(f, 0)))
}

/// The length of the cleaner match starting at `q`.
fn cleaner_len(f: &str, q: usize) -> (len: usize)
    requires
        q < f@.len(),
    ensures
        len == spec_cleaner_len(f@, q as int),
        q + len <= f@.len(),
{
    let n = f.unicode_len();
    if n - q > 3 && is_pat_ws(f.get_char(q)) && f.get_char(q + 1) == '(' && is_digit(
        f.get_char(q + 2),
    ) && f.get_char(q + 3) == ')' {
        return 4;
    }
    if n - q > 2 && f.get_char(q) == '(' && is_digit(f.get_char(q + 1)) && f.get_char(q + 2)
        == ')' {
        return 3;
    }
    if q != 0 {
        return 0;
    }
    let mut t: usize = 0;
    while t < n && is_digit(f.get_char(t))
        invariant
            n == f@.len(),
            0 <= t <= n,
            forall|x: int| 0 <= x < t ==> spec_is_digit(f@[x]),
            spec_digit_run(f@, 0) == t + spec_digit_run(f@, t as int),
        decreases n - t,
    {
        t = t + 1;
    }
    proof {
        assert(spec_digit_run(f@, t as int) == 0);
        assert(spec_digit_run(f@, 0) == t);
    }
    if t == 0 {
        return 0;
    }
    if t < n && is_pat_ws(f.get_char(t)) && n - t > 1 && f.get_char(t + 1) == '-' {
        if n - t > 2 && is_pat_ws(f.get_char(t + 2)) {
            t + 3
        } else {
            t + 2
        }
    } else if t < n && f.get_char(t) == '-' {
        if n - t > 1 && is_pat_ws(f.get_char(t + 1)) {
            t + 2
        } else {
            t + 1
        }
    } else {
        0
    }
}

/// Removes every cleaner match from the friendly part.
fn remove_cleaner_matches(f: &str) -> (out: String)
    ensures
        out@ == spec_cleaned_from(f@, 0),
{
    let n = f.unicode_len();
    let mut out = String::new();
    let mut q: usize = 0;
    while q < n
        invariant
            n == f@.len(),
            0 <= q <= n,
            spec_cleaned_from(f@, 0) == out@ + spec_cleaned_from(f@, q as int),
        decreases n - q,
    {
        let len = cleaner_len(f, q);
        if len > 0 {
            q = q + len;
        } else {
            let piece = f.substring_char(q, q + 1);
            proof {
                assert(piece@ =~= seq![f@[q as int]]);
                assert(out@ + seq![f@[q as int]] + spec_cleaned_from(f@, q as int + 1) =~= out@
                    + spec_cleaned_from(f@, q as int));
            }
            out.append(piece);
            q = q + 1;
        }
    }
    proof {
        assert(spec_cleaned_from(f@, q as int) =~= Seq::<char>::empty());
        assert(out@ =~= spec_cleaned_from(f@, 0));
    }
    out
}

proof fn lemma_trim_start_at(f: Seq<char>, a: int)
    requires
        0 <= a <= f.len(),
        forall|x: int| 0 <= x < a ==> spec_is_trim_ws(f[x]),
        a < f.len() ==> !spec_is_trim_ws(f[a]),
    ensures
        spec_trim_start(f) =~= f.skip(a),
    decreases a,
{
    if a == 0 {
        assert(f.skip(0) =~= f);
    } else {
        lemma_trim_start_at(f.drop_first(), a - 1);
        assert(f.drop_first().skip(a - 1) =~= f.skip(a));
    }
}

proof fn lemma_trim_end_at(f: Seq<char>, b: int)
    requires
        0 <= b <= f.len(),
        forall|x: int| b <= x < f.len() ==> spec_is_trim_ws(f[x]),
        b > 0 ==> !spec_is_trim_ws(f[b - 1]),
    ensures
        spec_trim_end(f) =~= f.take(b),
    decreases f.len() - b,
{
    if b == f.len() {
        assert(f.take(b) =~= f);
    } else {
        lemma_trim_end_at(f.drop_last(), b);
        assert(f.drop_last().take(b) =~= f.take(b));
    }
}

/// Trims trim whitespace from both ends.
fn trim_str(f: &str) -> (out: String)
    ensures
        out@ == spec_trim_end(spec_trim_start(f@)),
{
    let n = f.unicode_len();
    let mut a: usize = 0;
    while a < n && is_trim_ws(f.get_char(a))
        invariant
            n == f@.len(),
            0 <= a <= n,
            forall|x: int| 0 <= x < a ==> spec_is_trim_ws(f@[x]),
        decreases n - a,
    {
        a = a + 1;
    }
    proof {
        lemma_trim_start_at(f@, a as int);
    }
    let mut b: usize = n;
    while b > a && is_trim_ws(f.get_char(b - 1))
        invariant
            n == f@.len(),
            a <= b <= n,
            forall|x: int| b <= x < n ==> spec_is_trim_ws(f@[x]),
        decreases b,
    {
        b = b - 1;
    }
    let out = f.substring_char(a, b);
    proof {
        let started = f@.skip(a as int);
        lemma_trim_end_at(started, b - a);
        assert(started.take(b - a) =~= f@.subrange(a as int, b as int));
        if b == a {
            assert(spec_trim_end(started) =~= out@);
        }
    }
    String::from_str(out)
}

/// A valid tail of a decomposition from position `m` (just inside the
/// opening parenthesis): junk up to `k`, a nonempty newline-free device
/// part up to `j`, and the closing parenthesis at `j`.
pub open spec fn spec_suffix_ok(s: Seq<char>, m: int, k: int, j: int) -> bool {
    &&& m <= k < j
    &&& j < s.len()
    &&& forall|x: int| m <= x < k ==> spec_is_junk(#[trigger] s[x])
    &&& forall|x: int| k <= x < j ==> (#[trigger] s[x]) != '\n'
    &&& s[j] == ')'
}

/// A valid decomposition of `s`: a nonempty newline-free friendly part
/// from `p` to `i`, one whitespace at `i`, the opening parenthesis at
/// `i + 1`, and a valid tail from `i + 2`.
pub open spec fn spec_split_at(s: Seq<char>, p: int, i: int, k: int, j: int) -> bool {
    &&& 0 <= p < i
    &&& i + 1 < s.len()
    &&& forall|x: int| p <= x < i ==> (#[trigger] s[x]) != '\n'
    &&& spec_is_pat_ws(s[i])
    &&& s[i + 1] == '('
    &&& spec_suffix_ok(s, i + 2, k, j)
}

pub open spec fn spec_has_split(s: Seq<char>) -> bool {
    exists|p: int, i: int, k: int, j: int| spec_split_at(s, p, i, k, j)
}

/// The decomposition the matcher selects: the earliest start, then the
/// longest friendly part, then the longest junk run, then the longest
/// device part.
pub open spec fn spec_preferred_split(s: Seq<char>, p: int, i: int, k: int, j: int) -> bool {
    &&& spec_split_at(s, p, i, k, j)
    &&& forall|p2: int, i2: int, k2: int, j2: int| spec_split_at(s, p2, i2, k2, j2) ==> p <= p2
    &&& forall|i2: int, k2: int, j2: int| spec_split_at(s, p, i2, k2, j2) ==> i2 <= i
    &&& forall|k2: int, j2: int| spec_split_at(s, p, i, k2, j2) ==> k2 <= k
    &&& forall|j2: int| spec_split_at(s, p, i, k, j2) ==> j2 <= j
}

/// The greedy tail search from `m`: the longest junk run, then the
/// longest device part that still closes.
fn suffix_match(s: &str, m: usize) -> (r: Option<(usize, usize)>)
    requires
        m <= s@.len(),
    ensures
        match r {
            Some(kj) => {
                &&& spec_suffix_ok(s@, m as int, kj.0 as int, kj.1 as int)
                &&& forall|k2: int, j2: int|
                    spec_suffix_ok(s@, m as int, k2, j2) ==> k2 <= kj.0
                &&& forall|j2: int|
                    spec_suffix_ok(s@, m as int, kj.0 as int, j2) ==> j2 <= kj.1
            },
            None => forall|k2: int, j2: int| !spec_suffix_ok(s@, m as int, k2, j2),
        },
{
    let n = s.unicode_len();
    let mut kmax = m;
    while kmax < n && is_junk(s.get_char(kmax))
        invariant
            n == s@.len(),
            m <= kmax <= n,
            forall|x: int| m <= x < kmax ==> spec_is_junk(#[trigger] s@[x]),
        decreases n - kmax,
    {
        kmax = kmax + 1;
    }
    proof {
        assert forall|k2: int, j2: int| k2 > kmax implies !spec_suffix_ok(
            s@,
            m as int,
            k2,
            j2,
        ) by {
            if spec_suffix_ok(s@, m as int, k2, j2) {
                assert(k2 < s@.len());
                assert(spec_is_junk(s@[kmax as int]));
            }
        }
    }
    let mut kk = kmax;
    let mut done = false;
    while !done
        invariant
            n == s@.len(),
            m <= kk <= kmax,
            kmax <= n,
            forall|x: int| m <= x < kmax ==> spec_is_junk(#[trigger] s@[x]),
            !done ==> forall|k2: int, j2: int|
                k2 > kk ==> !spec_suffix_ok(s@, m as int, k2, j2),
            done ==> forall|k2: int, j2: int| !spec_suffix_ok(s@, m as int, k2, j2),
        decreases kk, (if done {
            0int
        } else {
            1int
        }),
    {
        let k = kk;
        let mut nl = k;
        while nl < n && s.get_char(nl) != '\n'
            invariant
                n == s@.len(),
                k <= nl <= n,
                forall|x: int| k <= x < nl ==> (#[trigger] s@[x]) != '\n',
            decreases n - nl,
        {
            nl = nl + 1;
        }
        proof {
            assert forall|j2: int| j2 >= nl implies !spec_suffix_ok(
                s@,
                m as int,
                k as int,
                j2,
            ) by {
                if spec_suffix_ok(s@, m as int, k as int, j2) {
                    assert(j2 < s@.len());
                    assert(nl < n);
                    if j2 == nl {
                        assert(s@[j2] == ')');
                    } else {
                        assert(s@[nl as int] != '\n');
                    }
                }
            }
        }
        let mut jj = nl;
        while jj > k && jj - 1 > k
            invariant
                n == s@.len(),
                m <= k,
                k <= kmax <= n,
                k <= jj,
                jj <= nl,
                nl <= n,
                forall|x: int| k <= x < nl ==> (#[trigger] s@[x]) != '\n',
                forall|x: int| m <= x < kmax ==> spec_is_junk(#[trigger] s@[x]),
                forall|k2: int, j2: int| k2 > k ==> !spec_suffix_ok(s@, m as int, k2, j2),
                forall|j2: int| j2 >= jj ==> !spec_suffix_ok(s@, m as int, k as int, j2),
            decreases jj,
        {
            jj = jj - 1;
            if s.get_char(jj) == ')' {
                proof {
                    assert(spec_suffix_ok(s@, m as int, k as int, jj as int));
                }
                return Some((k, jj));
            }
            proof {
                assert forall|j2: int| j2 >= jj implies !spec_suffix_ok(
                    s@,
                    m as int,
                    k as int,
                    j2,
                ) by {
                    if j2 == jj {
                        assert(s@[j2] != ')');
                    }
                }
            }
        }
        proof {
            assert forall|j2: int| !spec_suffix_ok(s@, m as int, k as int, j2) by {
                if j2 >= jj {
                } else {
                    assert(j2 <= k);
                }
            }
        }
        if kk == m {
            done = true;
            proof {
                assert forall|k2: int, j2: int| !spec_suffix_ok(s@, m as int, k2, j2) by {
                    if k2 > kk {
                    } else if k2 == kk {
                    } else {
                        assert(k2 < m);
                    }
                }
            }
        } else {
            kk = kk - 1;
        }
    }
    None
}

/// The greedy split search: the earliest start, then the longest friendly
/// part that still lets the tail match.
fn find_split(s: &str) -> (r: Option<(usize, usize, usize, usize)>)
    ensures
        match r {
            Some(t) => spec_preferred_split(s@, t.0 as int, t.1 as int, t.2 as int, t.3 as int),
            None => !spec_has_split(s@),
        },
{
    let n = s.unicode_len();
    if n < 2 {
        return None;
    }
    for p in 0..n
        invariant
            n == s@.len(),
            n >= 2,
            forall|p2: int, i2: int, k2: int, j2: int|
                p2 < p ==> !spec_split_at(s@, p2, i2, k2, j2),
    {
        let mut nl = p;
        while nl < n && s.get_char(nl) != '\n'
            invariant
                n == s@.len(),
                p <= nl <= n,
                forall|x: int| p <= x < nl ==> (#[trigger] s@[x]) != '\n',
            decreases n - nl,
        {
            nl = nl + 1;
        }
        let ihi = if nl < n - 2 {
            nl
        } else {
            n - 2
        };
        proof {
            assert forall|i2: int, k2: int, j2: int| i2 > ihi implies !spec_split_at(
                s@,
                p as int,
                i2,
                k2,
                j2,
            ) by {
                if spec_split_at(s@, p as int, i2, k2, j2) {
                    assert(i2 + 1 < n);
                    assert(i2 > nl);
                    assert(nl < n);
                    assert(s@[nl as int] != '\n');
                    assert(s@[nl as int] == '\n');
                }
            }
        }
        let mut ii = ihi;
        let mut idone = ihi <= p;
        proof {
            if idone {
                assert forall|i2: int, k2: int, j2: int| !spec_split_at(
                    s@,
                    p as int,
                    i2,
                    k2,
                    j2,
                ) by {
                    if spec_split_at(s@, p as int, i2, k2, j2) {
                        assert(i2 > p as int);
                        assert(i2 > ihi);
                    }
                }
            }
        }
        while !idone
            invariant
                n == s@.len(),
                n >= 2,
                p < n,
                p <= nl,
                nl <= n,
                nl < n ==> s@[nl as int] == '\n',
                ihi <= n - 2,
                ihi <= nl,
                forall|x: int| p <= x < nl ==> (#[trigger] s@[x]) != '\n',
                forall|p2: int, i2: int, k2: int, j2: int|
                    p2 < p ==> !spec_split_at(s@, p2, i2, k2, j2),
                !idone ==> p < ii && ii <= ihi,
                !idone ==> forall|i2: int, k2: int, j2: int|
                    i2 > ii ==> !spec_split_at(s@, p as int, i2, k2, j2),
                idone ==> forall|i2: int, k2: int, j2: int|
                    !spec_split_at(s@, p as int, i2, k2, j2),
            decreases ii, (if idone {
                0int
            } else {
                1int
            }),
        {
            let i = ii;
            if is_pat_ws(s.get_char(i)) && s.get_char(i + 1) == '(' {
                match suffix_match(s, i + 2) {
                    Some((k, j)) => {
                        proof {
                            assert(spec_split_at(s@, p as int, i as int, k as int, j as int));
                            assert forall|p2: int, i2: int, k2: int, j2: int|
                                spec_split_at(s@, p2, i2, k2, j2) implies p as int <= p2 by {
                                if p2 < p {
                                    assert(!spec_split_at(s@, p2, i2, k2, j2));
                                }
                            }
                            assert forall|i2: int, k2: int, j2: int|
                                spec_split_at(s@, p as int, i2, k2, j2) implies i2 <= i as int by {
                                if i2 > i {
                                    assert(!spec_split_at(s@, p as int, i2, k2, j2));
                                }
                            }
                            assert forall|k2: int, j2: int|
                                spec_split_at(s@, p as int, i as int, k2, j2) implies k2
                                <= k as int by {
                                assert(spec_suffix_ok(s@, i as int + 2, k2, j2));
                            }
                            assert forall|j2: int|
                                spec_split_at(s@, p as int, i as int, k as int, j2) implies j2
                                <= j as int by {
                                assert(spec_suffix_ok(s@, i as int + 2, k as int, j2));
                            }
                        }
                        return Some((p, i, k, j));
                    },
                    None => {
                        proof {
                            assert forall|k2: int, j2: int|
                                !spec_split_at(s@, p as int, i as int, k2, j2) by {
                                if spec_split_at(s@, p as int, i as int, k2, j2) {
                                    assert(spec_suffix_ok(s@, i as int + 2, k2, j2));
                                }
                            }
                        }
                    },
                }
            } else {
                proof {
                    assert(forall|k2: int, j2: int| !spec_split_at(s@, p as int, i as int, k2, j2));
                }
            }
            if ii == p + 1 {
                idone = true;
                proof {
                    assert forall|i2: int, k2: int, j2: int| !spec_split_at(
                        s@,
                        p as int,
                        i2,
                        k2,
                        j2,
                    ) by {
                        if spec_split_at(s@, p as int, i2, k2, j2) {
                            assert(i2 > p as int);
                            if i2 > ii {
                            } else {
                                assert(i2 == ii as int);
                            }
                        }
                    }
                }
            } else {
                ii = ii - 1;
            }
        }
    }
    proof {
        assert forall|p2: int, i2: int, k2: int, j2: int|
            !spec_split_at(s@, p2, i2, k2, j2) by {
            if spec_split_at(s@, p2, i2, k2, j2) {
                assert(i2 + 1 < n);
                assert(0 <= p2 < n);
            }
        }
    }
    None
}

/// The cleaned name a preferred decomposition yields.
pub open spec fn spec_split_result(s: Seq<char>, p: int, i: int, k: int, j: int) -> Seq<char> {
    spec_cleaned_friendly(s.subrange(p, i)) + " ("@ + s.subrange(k, j) + ")"@
}

/// What cleaning returns: on a name with a decomposition, the preferred
/// one's cleaned friendly part reassembled with its device part; on any
/// other name, the name itself.
pub open spec fn spec_clean_name_ok(s: Seq<char>, r: Seq<char>) -> bool {
    if spec_has_split(s) {
        exists|p: int, i: int, k: int, j: int|
            spec_preferred_split(s, p, i, k, j) && r == spec_split_result(s, p, i, k, j)
    } else {
        r == s
    }
}

/// Cleans a friendly device name. This transform is applied everywhere a
/// name is stored, compared or shown.
pub fn clean_device_name(name: &str) -> (cleaned: String)
    ensures
        spec_clean_name_ok(name@, cleaned@),
{
    match find_split(name) {
        None => String::from_str(name),
        Some((p, i, k, j)) => {
            let friendly = name.substring_char(p, i);
            let device = name.substring_char(k, j);
            let stripped = remove_cleaner_matches(friendly);
            let trimmed = trim_str(stripped.as_str());
            let out = trimmed.concat(" (").concat(device).concat(")");
            proof {
                assert(out@ == spec_split_result(name@, p as int, i as int, k as int, j as int));
            }
            out
        },
    }
}

} // verus!
