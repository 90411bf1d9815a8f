//! The socket-address grammar: syntactic validation of a `host:port`
//! pair, with no name lookup and no socket creation.
//!
//! The accepted syntax is the standard textual form: an IPv4 literal of
//! four decimal octets, or an IPv6 literal in square brackets with an
//! optional `%` scope suffix, followed by `:` and a decimal port.  The
//! grammar is stated by the `is_*` spec functions; the checkers are
//! proved to decide exactly that grammar.

use vstd::prelude::*;

use crate::text::all_digits;
use crate::text::dec_val;
use crate::text::is_digit;
use crate::text::is_hex_digit;
use crate::text::lemma_find_ch;
use crate::text::parse_dec;
use crate::text::split_char;
use crate::text::split_on;

verus! {

/// A decimal octet: one to three digits, no leading zero, value at most
/// 255.
pub open spec fn is_octet(p: Seq<char>) -> bool {
    &&& 1 <= p.len() <= 3
    &&& all_digits(p)
    &&& (p.len() > 1 ==> p[0] != '0')
    &&& dec_val(p) <= 255
}

/// A 16-bit hexadecimal group: one to four hexadecimal digits.
pub open spec fn is_h16(p: Seq<char>) -> bool {
    1 <= p.len() <= 4 && forall|i: int| 0 <= i < p.len() ==> is_hex_digit(p[i])
}

/// A decimal port: one or more digits, value at most 65535.  Leading
/// zeros are accepted.
pub open spec fn is_port_str(p: Seq<char>) -> bool {
    p.len() >= 1 && all_digits(p) && dec_val(p) <= 0xFFFF
}

/// A decimal scope identifier: one or more digits, value fitting 32 bits.
pub open spec fn is_scope_str(p: Seq<char>) -> bool {
    p.len() >= 1 && all_digits(p) && dec_val(p) <= 0xFFFF_FFFF
}

/// An IPv4 literal: four octets separated by dots.
pub open spec fn is_ipv4(s: Seq<char>) -> bool {
    let ps = split_on(s, '.');
    &&& ps.len() == 4
    &&& is_octet(ps[0])
    &&& is_octet(ps[1])
    &&& is_octet(ps[2])
    &&& is_octet(ps[3])
}

/// Decide `is_octet`.
fn check_octet(p: &str) -> (b: bool)
    ensures
        b == is_octet(p@),
{
    let n: usize = p.unicode_len();
    if n < 1 || n > 3 {
        return false;
    }
    if n > 1 && p.get_char(0) == '0' {
        return false;
    }
    parse_dec(p, 255).is_some()
}

/// Decide `is_ipv4`.
pub fn check_ipv4(s: &str) -> (b: bool)
    ensures
        b == is_ipv4(s@),
{
    let parts = split_char(s, '.');
    if parts.len() != 4 {
        return false;
    }
    check_octet(parts[0]) && check_octet(parts[1]) && check_octet(parts[2]) && check_octet(
        parts[3],
    )
}

/// Groups `[lo, hi)` of a colon-split are all hexadecimal groups.
pub open spec fn groups_h16(ps: Seq<Seq<char>>, lo: int, hi: int) -> bool {
    forall|i: int| lo <= i < hi ==> is_h16(#[trigger] ps[i])
}

/// A trailing run of groups: every group from `lo` on is a hexadecimal
/// group, except that the last may instead be an embedded IPv4 literal.
pub open spec fn tail_groups(ps: Seq<Seq<char>>, lo: int) -> bool {
    &&& lo <= ps.len() - 1
    &&& groups_h16(ps, lo, ps.len() - 1)
    &&& (is_h16(ps.last()) || is_ipv4(ps.last()))
}

/// How many 16-bit groups the trailing run starting at `lo` stands for;
/// an embedded IPv4 literal stands for two.
pub open spec fn tail_weight(ps: Seq<Seq<char>>, lo: int) -> int {
    ps.len() - lo + if is_ipv4(ps.last()) {
        1int
    } else {
        0int
    }
}

/// All eight groups written out (an embedded IPv4 literal may supply the
/// last two).
pub open spec fn ipv6_full(ps: Seq<Seq<char>>) -> bool {
    tail_groups(ps, 0) && tail_weight(ps, 0) == 8
}

/// A `::` between groups: the part at the lone empty index `j` is the
/// empty string between the two colons.
pub open spec fn ipv6_mid(ps: Seq<Seq<char>>) -> bool {
    exists|j: int|
        #![trigger ps[j]]
        {
            &&& 1 <= j <= ps.len() - 2
            &&& ps[j].len() == 0
            &&& groups_h16(ps, 0, j)
            &&& tail_groups(ps, j + 1)
            &&& j + tail_weight(ps, j + 1) <= 7
        }
}

/// A leading `::`, shown by two empty parts in front.
pub open spec fn ipv6_lead(ps: Seq<Seq<char>>) -> bool {
    &&& ps.len() >= 3
    &&& ps[0].len() == 0
    &&& ps[1].len() == 0
    &&& tail_groups(ps, 2)
    &&& tail_weight(ps, 2) <= 7
}

/// A trailing `::`, shown by two empty parts at the end.
pub open spec fn ipv6_trail(ps: Seq<Seq<char>>) -> bool {
    &&& ps.len() >= 3
    &&& ps[ps.len() - 2].len() == 0
    &&& ps[ps.len() - 1].len() == 0
    &&& groups_h16(ps, 0, ps.len() - 2)
    &&& ps.len() - 2 <= 7
}

/// `::` alone.
pub open spec fn ipv6_bare(ps: Seq<Seq<char>>) -> bool {
    ps.len() == 3 && ps[0].len() == 0 && ps[1].len() == 0 && ps[2].len() == 0
}

/// An IPv6 literal: up to eight hexadecimal groups separated by colons,
/// at most one `::` standing for a run of zero groups, and optionally an
/// embedded IPv4 literal supplying the last two groups.
pub open spec fn is_ipv6(s: Seq<char>) -> bool {
    let ps = split_on(s, ':');
    ipv6_full(ps) || ipv6_mid(ps) || ipv6_lead(ps) || ipv6_trail(ps) || ipv6_bare(ps)
}

/// Decide `is_h16`.
fn check_h16(p: &str) -> (b: bool)
    ensures
        b == is_h16(p@),
{
    let n: usize = p.unicode_len();
    if n < 1 || n > 4 {
        return false;
    }
    let mut i: usize = 0;
    while i < n
        invariant
            i <= n,
            n == p@.len(),
            forall|k: int| 0 <= k < i ==> is_hex_digit(p@[k]),
        decreases n - i,
    {
        let c = p.get_char(i);
        let hex = (c >= '0' && c <= '9') || (c >= 'a' && c <= 'f') || (c >= 'A' && c <= 'F');
        if !hex {
            assert(!is_hex_digit(p@[i as int]));
            return false;
        }
        i = i + 1;
    }
    true
}

/// An IPv4 literal is made of digits and dots only.
pub proof fn lemma_ipv4_chars(s: Seq<char>)
    requires
        is_ipv4(s),
    ensures
        forall|k: int| 0 <= k < s.len() ==> is_digit(s[k]) || s[k] == '.',
{
    let ps = split_on(s, '.');
    assert forall|i: int, k: int| 0 <= i < ps.len() && 0 <= k < ps[i].len() implies is_digit(
        #[trigger] ps[i][k],
    ) by {
        if i == 0 || i == 1 || i == 2 || i == 3 {
            assert(is_octet(ps[i]));
        }
    }
    crate::text::lemma_split_chars(s, '.', |c: char| is_digit(c));
    assert forall|k: int| 0 <= k < s.len() implies is_digit(s[k]) || s[k] == '.' by {
        assert((|c: char| is_digit(c))(s[k]) || s[k] == '.');
    }
}

/// An IPv6 literal is made of hexadecimal digits, colons and dots only.
pub proof fn lemma_ipv6_chars(s: Seq<char>)
    requires
        is_ipv6(s),
    ensures
        forall|k: int| 0 <= k < s.len() ==> is_hex_digit(s[k]) || s[k] == ':' || s[k] == '.',
{
    let ps = split_on(s, ':');
    assert forall|i: int| 0 <= i < ps.len() implies (#[trigger] ps[i]).len() == 0 || is_h16(ps[i])
        || is_ipv4(ps[i]) by {
        if ipv6_full(ps) {
            if i < ps.len() - 1 {
                assert(is_h16(ps[i]));
            }
        } else if ipv6_mid(ps) {
            let j = choose|j: int|
                #![trigger ps[j]]
                {
                    &&& 1 <= j <= ps.len() - 2
                    &&& ps[j].len() == 0
                    &&& groups_h16(ps, 0, j)
                    &&& tail_groups(ps, j + 1)
                    &&& j + tail_weight(ps, j + 1) <= 7
                };
            if i < j {
                assert(is_h16(ps[i]));
            } else if j < i && i < ps.len() - 1 {
                assert(is_h16(ps[i]));
            }
        } else if ipv6_lead(ps) {
            if 2 <= i && i < ps.len() - 1 {
                assert(is_h16(ps[i]));
            }
        } else if ipv6_trail(ps) {
            if i < ps.len() - 2 {
                assert(is_h16(ps[i]));
            }
        }
    }
    assert forall|i: int, k: int| 0 <= i < ps.len() && 0 <= k < ps[i].len() implies is_hex_digit(
        #[trigger] ps[i][k],
    ) || ps[i][k] == '.' by {
        if is_h16(ps[i]) {
            assert(is_hex_digit(ps[i][k]));
        } else if is_ipv4(ps[i]) {
            lemma_ipv4_chars(ps[i]);
        }
    }
    crate::text::lemma_split_chars(s, ':', |c: char| is_hex_digit(c) || c == '.');
    assert forall|k: int| 0 <= k < s.len() implies is_hex_digit(s[k]) || s[k] == ':' || s[k]
        == '.' by {
        assert((|c: char| is_hex_digit(c) || c == '.')(s[k]) || s[k] == ':');
    }
}

/// If the lone empty part sits at `j`, the `::` case holds exactly when
/// its conditions hold at `j`.
proof fn lemma_mid_at(ps: Seq<Seq<char>>, j: int)
    requires
        0 < j <= ps.len() - 2,
        ps[j].len() == 0,
        forall|k: int| 0 <= k < j ==> (#[trigger] ps[k]).len() != 0,
    ensures
        ipv6_mid(ps) <==> (groups_h16(ps, 0, j) && tail_groups(ps, j + 1) && j + tail_weight(
            ps,
            j + 1,
        ) <= 7),
{
    if ipv6_mid(ps) {
        let j2 = choose|j2: int|
            #![trigger ps[j2]]
            {
                &&& 1 <= j2 <= ps.len() - 2
                &&& ps[j2].len() == 0
                &&& groups_h16(ps, 0, j2)
                &&& tail_groups(ps, j2 + 1)
                &&& j2 + tail_weight(ps, j2 + 1) <= 7
            };
        if j2 < j {
            assert(ps[j2].len() != 0);
        } else if j2 > j {
            assert(is_h16(ps[j]));
        }
    }
}

fn check_heads(parts: &Vec<&str>, lo: usize, hi: usize, Ghost(ps): Ghost<Seq<Seq<char>>>) -> (b:
    bool)
    requires
        parts@.len() == ps.len(),
        forall|i: int| 0 <= i < ps.len() ==> parts@[i]@ == ps[i],
        lo <= hi <= parts@.len(),
    ensures
        b == groups_h16(ps, lo as int, hi as int),
{
    let mut i: usize = lo;
    while i < hi
        invariant
            lo <= i <= hi <= parts@.len(),
            parts@.len() == ps.len(),
            forall|t: int| 0 <= t < ps.len() ==> parts@[t]@ == ps[t],
            forall|k: int| lo <= k < i ==> is_h16(#[trigger] ps[k]),
        decreases hi - i,
    {
        if !check_h16(parts[i]) {
            assert(!is_h16(ps[i as int]));
            return false;
        }
        i = i + 1;
    }
    true
}

fn check_tail(parts: &Vec<&str>, lo: usize, Ghost(ps): Ghost<Seq<Seq<char>>>) -> (r: (bool, usize))
    requires
        parts@.len() == ps.len(),
        forall|i: int| 0 <= i < ps.len() ==> parts@[i]@ == ps[i],
        1 <= parts@.len() <= 9,
        lo <= parts@.len(),
    ensures
        r.0 == tail_groups(ps, lo as int),
        r.0 ==> r.1 as int == tail_weight(ps, lo as int),
{
    let n: usize = parts.len();
    if lo > n - 1 {
        return (false, 0);
    }
    if !check_heads(parts, lo, n - 1, Ghost(ps)) {
        return (false, 0);
    }
    let last: &str = parts[n - 1];
    assert(last@ == ps.last());
    let lv4 = check_ipv4(last);
    let lh16 = check_h16(last);
    if !(lv4 || lh16) {
        return (false, 0);
    }
    let w: usize = n - lo + if lv4 {
        1
    } else {
        0
    };
    (true, w)
}

/// Decide `is_ipv6`.
pub fn check_ipv6(s: &str) -> (b: bool)
    ensures
        b == is_ipv6(s@),
{
    let parts = split_char(s, ':');
    let ghost ps = split_on(s@, ':');
    assert(forall|i: int| 0 <= i < ps.len() ==> parts@[i]@ == ps[i]);
    let n: usize = parts.len();
    if n < 3 {
        proof {
            if tail_groups(ps, 0) {
                assert(tail_weight(ps, 0) <= ps.len() + 1 < 8);
            }
            assert forall|j: int| !(1 <= j <= ps.len() - 2 && (#[trigger] ps[j]).len() == 0
                && groups_h16(ps, 0, j) && tail_groups(ps, j + 1) && j + tail_weight(ps, j + 1)
                <= 7) by {}
            assert(!ipv6_mid(ps));
        }
        return false;
    }
    if n > 9 {
        proof {
            if tail_groups(ps, 0) {
                assert(tail_weight(ps, 0) >= ps.len() > 8);
            }
            assert forall|j: int| !(1 <= j <= ps.len() - 2 && (#[trigger] ps[j]).len() == 0
                && groups_h16(ps, 0, j) && tail_groups(ps, j + 1) && j + tail_weight(ps, j + 1)
                <= 7) by {
                if 1 <= j <= ps.len() - 2 {
                    assert(j + tail_weight(ps, j + 1) >= ps.len() - 1 > 7);
                }
            }
            assert(!ipv6_mid(ps));
        }
        return false;
    }
    let e0 = parts[0].is_empty();
    let e1 = parts[1].is_empty();
    let el = parts[n - 1].is_empty();
    let el2 = parts[n - 2].is_empty();
    if e0 && e1 && n == 3 && parts[2].is_empty() {
        assert(ipv6_bare(ps));
        return true;
    }
    if e0 && e1 {
        let (ok, w) = check_tail(&parts, 2, Ghost(ps));
        let b = ok && w <= 7;
        proof {
            assert(ps[0].len() == 0);
            if tail_groups(ps, 0) {
                assert(is_h16(ps[0]));
            }
            assert forall|j: int| !(1 <= j <= ps.len() - 2 && (#[trigger] ps[j]).len() == 0
                && groups_h16(ps, 0, j) && tail_groups(ps, j + 1) && j + tail_weight(ps, j + 1)
                <= 7) by {
                if 1 <= j <= ps.len() - 2 && groups_h16(ps, 0, j) {
                    assert(is_h16(ps[0]));
                }
            }
            assert(!ipv6_mid(ps));
            if ipv6_trail(ps) {
                assert(is_h16(ps[0]));
            }
            if ipv6_bare(ps) {
                assert(ps[2].len() == 0);
            }
        }
        return b;
    }
    if e0 {
        proof {
            assert(ps[0].len() == 0 && ps[1].len() != 0);
            if tail_groups(ps, 0) {
                assert(is_h16(ps[0]));
            }
            assert forall|j: int| !(1 <= j <= ps.len() - 2 && (#[trigger] ps[j]).len() == 0
                && groups_h16(ps, 0, j) && tail_groups(ps, j + 1) && j + tail_weight(ps, j + 1)
                <= 7) by {
                if 1 <= j <= ps.len() - 2 && groups_h16(ps, 0, j) {
                    assert(is_h16(ps[0]));
                }
            }
            assert(!ipv6_mid(ps));
            if ipv6_trail(ps) {
                assert(is_h16(ps[0]));
            }
        }
        return false;
    }
    if el && el2 {
        let b = check_heads(&parts, 0, n - 2, Ghost(ps));
        proof {
            assert(ps.last().len() == 0);
            if tail_groups(ps, 0) {
                assert(is_h16(ps.last()) || is_ipv4(ps.last()));
            }
            assert forall|j: int| !(1 <= j <= ps.len() - 2 && (#[trigger] ps[j]).len() == 0
                && groups_h16(ps, 0, j) && tail_groups(ps, j + 1) && j + tail_weight(ps, j + 1)
                <= 7) by {
                if 1 <= j <= ps.len() - 2 && tail_groups(ps, j + 1) {
                    assert(is_h16(ps.last()) || is_ipv4(ps.last()));
                }
            }
            assert(!ipv6_mid(ps));
            if b {
                assert(ipv6_trail(ps));
            }
        }
        return b;
    }
    if el {
        proof {
            assert(ps.last().len() == 0 && ps[ps.len() - 2].len() != 0);
            if tail_groups(ps, 0) {
                assert(is_h16(ps.last()) || is_ipv4(ps.last()));
            }
            assert forall|j: int| !(1 <= j <= ps.len() - 2 && (#[trigger] ps[j]).len() == 0
                && groups_h16(ps, 0, j) && tail_groups(ps, j + 1) && j + tail_weight(ps, j + 1)
                <= 7) by {
                if 1 <= j <= ps.len() - 2 && tail_groups(ps, j + 1) {
                    assert(is_h16(ps.last()) || is_ipv4(ps.last()));
                }
            }
            assert(!ipv6_mid(ps));
        }
        return false;
    }
    // No empty part at either end: scan for the first empty part inside.
    let mut i: usize = 1;
    while i < n - 1 && !parts[i].is_empty()
        invariant
            1 <= i <= n - 1,
            n == parts@.len(),
            parts@.len() == ps.len(),
            3 <= n <= 9,
            forall|t: int| 0 <= t < ps.len() ==> parts@[t]@ == ps[t],
            forall|k: int| 1 <= k < i ==> (#[trigger] ps[k]).len() != 0,
        decreases n - 1 - i,
    {
        i = i + 1;
    }
    if i == n - 1 {
        // No empty part at all: only the full form is possible.
        let (ok, w) = check_tail(&parts, 0, Ghost(ps));
        let b = ok && w == 8;
        proof {
            assert(ps[0].len() != 0);
            assert(ps.last().len() != 0);
            assert forall|j: int| !(1 <= j <= ps.len() - 2 && (#[trigger] ps[j]).len() == 0
                && groups_h16(ps, 0, j) && tail_groups(ps, j + 1) && j + tail_weight(ps, j + 1)
                <= 7) by {
                if 1 <= j <= ps.len() - 2 {
                    assert(ps[j].len() != 0);
                }
            }
            assert(!ipv6_mid(ps));
        }
        return b;
    }
    // The first empty part sits strictly inside, at `i`.
    assert(ps[i as int].len() == 0);
    let h_ok = check_heads(&parts, 0, i, Ghost(ps));
    let (t_ok, w) = check_tail(&parts, i + 1, Ghost(ps));
    let b = h_ok && t_ok && i + w <= 7;
    proof {
        lemma_mid_at(ps, i as int);
        assert(ps[0].len() != 0);
        assert(ps.last().len() != 0);
        if tail_groups(ps, 0) {
            assert(is_h16(ps[i as int]));
        }
    }
    b
}

/// The inside of a bracketed IPv6 host: the literal, optionally followed
/// by `%` and a decimal scope identifier.
pub open spec fn is_v6_inner(t: Seq<char>) -> bool {
    is_ipv6(t) || (exists|k: int|
        #![trigger t[k]]
        0 <= k < t.len() && t[k] == '%' && is_ipv6(t.take(k)) && is_scope_str(t.skip(k + 1)))
}

/// Decide `is_v6_inner`.
fn check_v6_inner(t: &str) -> (b: bool)
    ensures
        b == is_v6_inner(t@),
{
    match crate::text::find_char(t, '%') {
        None => {
            let b = check_ipv6(t);
            proof {
                lemma_find_ch(t@, '%');
                assert forall|k2: int| !(0 <= k2 < t@.len() && (#[trigger] t@[k2]) == '%'
                    && is_ipv6(t@.take(k2)) && is_scope_str(t@.skip(k2 + 1))) by {
                    if 0 <= k2 < t@.len() {
                        assert(t@[k2] != '%');
                    }
                }
            }
            b
        },
        Some(k) => {
            let n: usize = t.unicode_len();
            let head = t.substring_char(0, k);
            let scope = t.substring_char(k + 1, n);
            proof {
                assert(head@ =~= t@.take(k as int));
                assert(scope@ =~= t@.skip(k as int + 1));
                lemma_find_ch(t@, '%');
            }
            let b1 = check_ipv6(head);
            let b2 = parse_dec(scope, 0xFFFF_FFFF).is_some();
            proof {
                if b1 && b2 {
                    assert(0 <= k as int && (k as int) < t@.len() && t@[k as int] == '%'
                        && is_ipv6(t@.take(k as int)) && is_scope_str(t@.skip(k as int + 1)));
                }
                if !(b1 && b2) {
                    if is_ipv6(t@) {
                        lemma_ipv6_chars(t@);
                        assert(is_hex_digit(t@[k as int]) || t@[k as int] == ':' || t@[k as int]
                            == '.');
                        assert(false);
                    }
                    assert forall|k2: int| !(0 <= k2 < t@.len() && (#[trigger] t@[k2]) == '%'
                        && is_ipv6(t@.take(k2)) && is_scope_str(t@.skip(k2 + 1))) by {
                        if 0 <= k2 < t@.len() && t@[k2] == '%' && k2 != k {
                            assert(k2 > k);
                            if is_ipv6(t@.take(k2)) {
                                lemma_ipv6_chars(t@.take(k2));
                                assert(t@.take(k2)[k as int] == '%');
                                assert(!is_hex_digit('%') && '%' != ':' && '%' != '.');
                            }
                        }
                    }
                }
            }
            b1 && b2
        },
    }
}

/// A bracketed IPv6 host: `[`, the literal with its optional scope, `]`.
pub open spec fn is_bracketed_v6(h: Seq<char>) -> bool {
    h.len() >= 2 && h[0] == '[' && h[h.len() - 1] == ']' && is_v6_inner(
        h.subrange(1, h.len() - 1),
    )
}

/// A host literal as a socket address accepts it: a plain IPv4 literal,
/// or a bracketed IPv6 literal.
pub open spec fn is_host_literal(h: Seq<char>) -> bool {
    is_ipv4(h) || is_bracketed_v6(h)
}

/// Decide `is_host_literal`.
pub fn check_host(h: &str) -> (b: bool)
    ensures
        b == is_host_literal(h@),
{
    if check_ipv4(h) {
        return true;
    }
    let n: usize = h.unicode_len();
    if n < 2 {
        return false;
    }
    if h.get_char(0) != '[' || h.get_char(n - 1) != ']' {
        return false;
    }
    let inner = h.substring_char(1, n - 1);
    proof {
        assert(inner@ =~= h@.subrange(1, n as int - 1));
    }
    check_v6_inner(inner)
}

/// An IPv4 socket address: an IPv4 literal, a colon, a port.
pub open spec fn is_v4_socket(s: Seq<char>) -> bool {
    exists|i: int|
        #![trigger s[i]]
        0 <= i < s.len() && s[i] == ':' && is_ipv4(s.take(i)) && is_port_str(s.skip(i + 1))
}

/// An IPv6 socket address: a bracketed IPv6 host, a colon, a port.
pub open spec fn is_v6_socket(s: Seq<char>) -> bool {
    s.len() >= 1 && s[0] == '[' && (exists|j: int|
        #![trigger s[j]]
        1 <= j && j + 2 <= s.len() && s[j] == ']' && s[j + 1] == ':' && is_v6_inner(
            s.subrange(1, j),
        ) && is_port_str(s.skip(j + 2)))
}

/// A syntactically valid socket address.
pub open spec fn is_socket_addr(s: Seq<char>) -> bool {
    is_v4_socket(s) || is_v6_socket(s)
}

/// The combined `host:port` text whose validity the address resolution
/// decides.
pub open spec fn host_port_chars(h: Seq<char>, port: u16) -> Seq<char> {
    h + seq![':'] + crate::text::dec_str(port as int)
}

/// The combined `host:port` text is a valid socket address exactly when
/// the host on its own is a host literal: the appended port is always a
/// valid decimal port, and the colon between the two is the only place
/// the combined text can split.
#[verifier::rlimit(60)]
pub proof fn lemma_socket_addr_of_host(h: Seq<char>, port: u16)
    ensures
        is_socket_addr(host_port_chars(h, port)) <==> is_host_literal(h),
{
    let d = crate::text::dec_str(port as int);
    crate::text::lemma_dec_str(port as int);
    let s = host_port_chars(h, port);
    let hl = h.len() as int;
    assert(s.len() == hl + 1 + d.len());
    assert(forall|k: int| 0 <= k < hl ==> s[k] == h[k]);
    assert(s[hl] == ':');
    assert(forall|k: int| 0 <= k < d.len() ==> s[hl + 1 + k] == d[k]);
    assert(is_port_str(d));

    if is_ipv4(h) {
        assert(s.take(hl) =~= h);
        assert(s.skip(hl + 1) =~= d);
        assert(is_v4_socket(s));
    }
    if is_bracketed_v6(h) {
        let j = hl - 1;
        assert(s[j] == ']');
        assert(s[j + 1] == ':');
        assert(s.subrange(1, j) =~= h.subrange(1, j));
        assert(s.skip(j + 2) =~= d);
        assert(is_v6_socket(s));
    }
    if is_v4_socket(s) {
        let i = choose|i: int|
            #![trigger s[i]]
            0 <= i < s.len() && s[i] == ':' && is_ipv4(s.take(i)) && is_port_str(s.skip(i + 1));
        if i < hl {
            assert(s.skip(i + 1)[hl - i - 1] == s[hl]);
            assert(is_digit(s.skip(i + 1)[hl - i - 1]));
            assert(!is_digit(':'));
            assert(false);
        } else if i > hl {
            lemma_ipv4_chars(s.take(i));
            assert(s.take(i)[hl] == ':');
            assert(!is_digit(':'));
            assert(false);
        } else {
            assert(s.take(hl) =~= h);
            assert(is_ipv4(h));
        }
    }
    if is_v6_socket(s) {
        if hl == 0 {
            assert(s[0] == ':');
            assert(false);
        }
        assert(h[0] == '[');
        let j = choose|j: int|
            #![trigger s[j]]
            1 <= j && j + 2 <= s.len() && s[j] == ']' && s[j + 1] == ':' && is_v6_inner(
                s.subrange(1, j),
            ) && is_port_str(s.skip(j + 2));
        if j == hl {
            assert(s[j] == ':');
            assert(false);
        } else if j > hl {
            assert(s[j] == d[j - hl - 1]);
            assert(is_digit(s[j]));
            assert(!is_digit(']'));
            assert(false);
        } else if j < hl - 1 {
            assert(s.skip(j + 2)[hl - j - 2] == s[hl]);
            assert(is_digit(s.skip(j + 2)[hl - j - 2]));
            assert(!is_digit(':'));
            assert(false);
        } else {
            assert(j == hl - 1);
            assert(h[hl - 1] == ']');
            assert(h.len() >= 2);
            assert(s.subrange(1, j) =~= h.subrange(1, hl - 1));
            assert(is_bracketed_v6(h));
        }
    }
}

/// A structured, syntactically validated host and port pair, ready to be
/// bound or connected by the surrounding program.
#[derive(Debug, Clone, PartialEq, Eq)]
pub struct SocketAddress {
    /// The host literal: an IPv4 literal or a bracketed IPv6 literal.
    pub host: String,
    /// The TCP port.
    pub port: u16,
}

impl SocketAddress {
    /// The host really is a host literal.
    pub open spec fn wf(&self) -> bool {
        is_host_literal(self.host@)
    }
}

} // verus!
