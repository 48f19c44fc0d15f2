//! Small string helpers: decimal rendering for notification bodies, and
//! prefix/suffix tests for the policy-interface id packing.

use vstd::prelude::*;

verus! {

/// The character of one decimal digit.
pub open spec fn spec_dec_digit(d: int) -> char {
    if d == 0 {
        '0'
    } else if d == 1 {
        '1'
    } else if d == 2 {
        '2'
    } else if d == 3 {
        '3'
    } else if d == 4 {
        '4'
    } else if d == 5 {
        '5'
    } else if d == 6 {
        '6'
    } else if d == 7 {
        '7'
    } else if d == 8 {
        '8'
    } else {
        '9'
    }
}

/// The usual decimal rendering of `n`, without leading zeros.
pub open spec fn spec_dec_of(n: nat) -> Seq<char>
    decreases n,
{
    if n < 10 {
        seq![spec_dec_digit(n as int)]
    } else {
        spec_dec_of(n / 10) + seq![spec_dec_digit((n % 10) as int)]
    }
}

/// One decimal digit as a string slice.
fn dec_digit_str(d: u64) -> (s: &'static str)
    requires
        d < 10,
    ensures
        s@ == seq![spec_dec_digit(d as int)],
{
    proof {
        reveal_strlit("0");
        reveal_strlit("1");
        reveal_strlit("2");
        reveal_strlit("3");
        reveal_strlit("4");
        reveal_strlit("5");
        reveal_strlit("6");
        reveal_strlit("7");
        reveal_strlit("8");
        reveal_strlit("9");
    }
    let s: &'static str = if d == 0 {
        "0"
    } else if d == 1 {
        "1"
    } else if d == 2 {
        "2"
    } else if d == 3 {
        "3"
    } else if d == 4 {
        "4"
    } else if d == 5 {
        "5"
    } else if d == 6 {
        "6"
    } else if d == 7 {
        "7"
    } else if d == 8 {
        "8"
    } else {
        "9"
    };
    proof {
        assert(s@ =~= seq![spec_dec_digit(d as int)]);
    }
    s
}

/// Renders `n` in decimal.
pub fn u64_to_string(n: u64) -> (s: String)
    ensures
        s@ == spec_dec_of(n as nat),
    decreases n,
{
    if n < 10 {
        String::from_str(dec_digit_str(n))
    } else {
        let prefix = u64_to_string(n / 10);
        prefix.concat(dec_digit_str(n % 10))
    }
}

/// Whether `s` begins with `prefix`, character for character.
pub open spec fn spec_starts_with(s: Seq<char>, prefix: Seq<char>) -> bool {
    s.len() >= prefix.len() && s.subrange(0, prefix.len() as int) == prefix
}

/// Whether `s` ends with `suffix`, character for character.
pub open spec fn spec_ends_with(s: Seq<char>, suffix: Seq<char>) -> bool {
    s.len() >= suffix.len() && s.subrange(s.len() - suffix.len(), s.len() as int) == suffix
}

/// Whether two string slices hold the same characters.
pub fn str_eq(a: &str, b: &str) -> (r: bool)
    ensures
        r == (a@ == b@),
{
    let n = a.unicode_len();
    let m = b.unicode_len();
    if n != m {
        return false;
    }
    for i in 0..n
        invariant
            n == a@.len(),
            n == b@.len(),
            forall|j: int| 0 <= j < i ==> a@[j] == b@[j],
    {
        if a.get_char(i) != b.get_char(i) {
            return false;
        }
    }
    proof {
        assert(a@ =~= b@);
    }
    true
}

pub fn str_starts_with(s: &str, prefix: &str) -> (r: bool)
    ensures
        r == spec_starts_with(s@, prefix@),
{
    let n = s.unicode_len();
    let m = prefix.unicode_len();
    if n < m {
        proof {
            assert(!spec_starts_with(s@, prefix@));
        }
        return false;
    }
    for i in 0..m
        invariant
            n == s@.len(),
            m == prefix@.len(),
            m <= n,
            forall|j: int| 0 <= j < i ==> s@[j] == prefix@[j],
    {
        if s.get_char(i) != prefix.get_char(i) {
            proof {
                if spec_starts_with(s@, prefix@) {
                    assert(s@.subrange(0, m as int)[i as int] == prefix@[i as int]);
                }
            }
            return false;
        }
    }
    proof {
        assert(s@.subrange(0, m as int) =~= prefix@);
    }
    true
}

pub fn str_ends_with(s: &str, suffix: &str) -> (r: bool)
    ensures
        r == spec_ends_with(s@, suffix@),
{
    let n = s.unicode_len();
    let m = suffix.unicode_len();
    if n < m {
        proof {
            assert(!spec_ends_with(s@, suffix@));
        }
        return false;
    }
    let off = n - m;
    for i in 0..m
        invariant
            n == s@.len(),
            m == suffix@.len(),
            m <= n,
            off == n - m,
            forall|j: int| 0 <= j < i ==> s@[off + j] == suffix@[j],
    {
        if s.get_char(off + i) != suffix.get_char(i) {
            proof {
                if spec_ends_with(s@, suffix@) {
                    assert(s@.subrange(n - m, n as int)[i as int] == suffix@[i as int]);
                }
            }
            return false;
        }
    }
    proof {
        assert(s@.subrange(n - m, n as int) =~= suffix@);
    }
    true
}

} // verus!
