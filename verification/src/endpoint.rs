//! Well-formedness of socket endpoint URLs.
//!
//! An endpoint is accepted when it has the shape
//! `ws://HOST`, `ws://HOST:PORT`, `wss://HOST` or `wss://HOST:PORT`,
//! where `HOST` is a nonempty run of letters, digits, `.` or `-`, and
//! `PORT` is one to five decimal digits whose value is at most 65535.

use vstd::prelude::*;
use vstd::string::StrSliceExecFns;

verus! {

/// Characters allowed in the host part of an endpoint.
pub open spec fn is_host_char(c: char) -> bool {
    ('a' <= c && c <= 'z') || ('A' <= c && c <= 'Z') || ('0' <= c && c <= '9') || c == '.'
        || c == '-'
}

pub open spec fn is_digit_char(c: char) -> bool {
    '0' <= c && c <= '9'
}

pub open spec fn digit_value(c: char) -> int {
    c as int - '0' as int
}

pub open spec fn all_host_chars(s: Seq<char>) -> bool {
    forall|i: int| 0 <= i < s.len() ==> is_host_char(s[i])
}

pub open spec fn all_digit_chars(s: Seq<char>) -> bool {
    forall|i: int| 0 <= i < s.len() ==> is_digit_char(s[i])
}

/// Numeric value of a run of decimal digits, most significant first.
pub open spec fn digits_value(s: Seq<char>) -> int
    decreases s.len(),
{
    if s.len() == 0 {
        0
    } else {
        digits_value(s.drop_last()) * 10 + digit_value(s.last())
    }
}

/// The string starts with the insecure socket scheme `ws://`.
pub open spec fn has_ws_scheme(s: Seq<char>) -> bool {
    s.len() >= 5 && s[0] == 'w' && s[1] == 's' && s[2] == ':' && s[3] == '/' && s[4] == '/'
}

/// The string starts with the secure socket scheme `wss://`.
pub open spec fn has_wss_scheme(s: Seq<char>) -> bool {
    s.len() >= 6 && s[0] == 'w' && s[1] == 's' && s[2] == 's' && s[3] == ':' && s[4] == '/'
        && s[5] == '/'
}

/// Length of the scheme prefix, or -1 when neither scheme is present.
pub open spec fn scheme_len(s: Seq<char>) -> int {
    if has_wss_scheme(s) {
        6
    } else if has_ws_scheme(s) {
        5
    } else {
        -1
    }
}

/// Position of the first `:` at or after `i`, or -1 when there is none.
pub open spec fn colon_from(s: Seq<char>, i: int) -> int
    decreases s.len() - i,
{
    if i < 0 || i >= s.len() {
        -1
    } else if s[i] == ':' {
        i
    } else {
        colon_from(s, i + 1)
    }
}

/// One to five decimal digits whose value is at most 65535.
pub open spec fn valid_port(p: Seq<char>) -> bool {
    1 <= p.len() <= 5 && all_digit_chars(p) && digits_value(p) <= 65535
}

/// What follows the scheme: a nonempty host, optionally `:` and a port.
pub open spec fn valid_authority(a: Seq<char>) -> bool {
    let c = colon_from(a, 0);
    if c < 0 {
        a.len() > 0 && all_host_chars(a)
    } else {
        c > 0 && all_host_chars(a.subrange(0, c)) && valid_port(
            a.subrange(c + 1, a.len() as int),
        )
    }
}

/// A well-formed endpoint: a socket scheme followed by a valid authority.
pub open spec fn is_well_formed_endpoint(s: Seq<char>) -> bool {
    scheme_len(s) >= 0 && valid_authority(s.subrange(scheme_len(s), s.len() as int))
}

/// Decides whether `s` is a well-formed endpoint URL.
pub fn check_endpoint(s: &str) -> (b: bool)
    ensures
        b == is_well_formed_endpoint(s@),
{
    let n = s.unicode_len();
    let scheme: usize;
    if n >= 6 && s.get_char(0) == 'w' && s.get_char(1) == 's' && s.get_char(2) == 's' && s.get_char(
        3,
    ) == ':' && s.get_char(4) == '/' && s.get_char(5) == '/' {
        scheme = 6;
    } else if n >= 5 && s.get_char(0) == 'w' && s.get_char(1) == 's' && s.get_char(2) == ':'
        && s.get_char(3) == '/' && s.get_char(4) == '/' {
        scheme = 5;
    } else {
        assert(scheme_len(s@) == -1);
        return false;
    }
    assert(scheme == scheme_len(s@));
    let authority = s.substring_char(scheme, n);
    check_authority(authority)
}

/// Decides whether `a` is a valid authority (host, optionally `:` port).
fn check_authority(a: &str) -> (b: bool)
    ensures
        b == valid_authority(a@),
{
    let m = a.unicode_len();
    let mut j: usize = 0;
    while j < m && a.get_char(j) != ':'
        invariant
            0 <= j <= m,
            m == a@.len(),
            forall|k: int| 0 <= k < j ==> a@[k] != ':',
        decreases m - j,
    {
        j += 1;
    }
    proof {
        lemma_colon_from(a@, 0, j as int);
    }
    if j == m {
        // no port part
        assert(a@.subrange(0, m as int) =~= a@);
        m > 0 && check_host(a, 0, m)
    } else {
        if j == 0 {
            return false;
        }
        let host_ok = check_host(a, 0, j);
        if !host_ok {
            return false;
        }
        check_port(a, j + 1, m)
    }
}

/// Decides whether the characters of `a` in `[from, to)` are all host characters.
fn check_host(a: &str, from: usize, to: usize) -> (b: bool)
    requires
        from <= to <= a@.len(),
    ensures
        b == all_host_chars(a@.subrange(from as int, to as int)),
{
    let mut i: usize = from;
    while i < to
        invariant
            from <= i <= to <= a@.len(),
            forall|k: int| from <= k < i ==> is_host_char(a@[k]),
        decreases to - i,
    {
        let c = a.get_char(i);
        let ok = ('a' <= c && c <= 'z') || ('A' <= c && c <= 'Z') || ('0' <= c && c <= '9') || c
            == '.' || c == '-';
        if !ok {
            assert(!all_host_chars(a@.subrange(from as int, to as int))) by {
                assert(a@.subrange(from as int, to as int)[i - from] == a@[i as int]);
            }
            return false;
        }
        i += 1;
    }
    assert forall|k: int| 0 <= k < to - from implies is_host_char(
        a@.subrange(from as int, to as int)[k],
    ) by {
        assert(a@.subrange(from as int, to as int)[k] == a@[k + from]);
    }
    true
}

/// Decides whether the characters of `a` in `[from, to)` form a valid port.
fn check_port(a: &str, from: usize, to: usize) -> (b: bool)
    requires
        from <= to <= a@.len(),
    ensures
        b == valid_port(a@.subrange(from as int, to as int)),
{
    let ghost p = a@.subrange(from as int, to as int);
    if to - from < 1 || to - from > 5 {
        return false;
    }
    let mut i: usize = from;
    let mut val: u32 = 0;
    while i < to
        invariant
            from <= i <= to <= a@.len(),
            to - from <= 5,
            p == a@.subrange(from as int, to as int),
            forall|k: int| from <= k < i ==> is_digit_char(a@[k]),
            val == digits_value(p.subrange(0, i - from)),
            val < pow10((i - from) as nat),
        decreases to - i,
    {
        let c = a.get_char(i);
        if !('0' <= c && c <= '9') {
            assert(!all_digit_chars(p)) by {
                assert(p[i - from] == a@[i as int]);
            }
            return false;
        }
        let d: u32 = (c as u32) - ('0' as u32);
        proof {
            lemma_pow10_bound((i - from) as nat);
            assert(p.subrange(0, i - from + 1).drop_last() =~= p.subrange(0, i - from));
            assert(p.subrange(0, i - from + 1).last() == a@[i as int]);
        }
        val = val * 10 + d;
        i += 1;
    }
    assert(p.subrange(0, to - from) =~= p);
    assert(all_digit_chars(p)) by {
        assert forall|k: int| 0 <= k < p.len() implies is_digit_char(p[k]) by {
            assert(p[k] == a@[k + from]);
        }
    }
    val <= 65535
}

spec fn pow10(n: nat) -> int
    decreases n,
{
    if n == 0 {
        1
    } else {
        10 * pow10((n - 1) as nat)
    }
}

proof fn lemma_pow10_bound(n: nat)
    requires
        n <= 5,
    ensures
        pow10(n) <= 100000,
{
    assert(pow10(0) == 1);
    assert(pow10(1) == 10);
    assert(pow10(2) == 100);
    assert(pow10(3) == 1000);
    assert(pow10(4) == 10000);
    assert(pow10(5) == 100000);
}

/// Where no `:` occurs in `[i, j)` and `j` is the end or holds `:`,
/// the first `:` at or after `i` is at `j`, or absent when `j` is the end.
proof fn lemma_colon_from(s: Seq<char>, i: int, j: int)
    requires
        0 <= i <= j <= s.len(),
        forall|k: int| i <= k < j ==> s[k] != ':',
        j == s.len() || s[j] == ':',
    ensures
        colon_from(s, i) == if j == s.len() {
            -1int
        } else {
            j
        },
    decreases j - i,
{
    if i < j {
        lemma_colon_from(s, i + 1, j);
    }
}

} // verus!
