//! Character-level text helpers: digit classification, decimal values,
//! and splitting a character sequence at a separator.
//!
//! These are the foundation for the numeric flag parser and for the
//! socket-address grammar.

use vstd::prelude::*;

verus! {

/// An ASCII decimal digit.
pub open spec fn is_digit(c: char) -> bool {
    '0' <= c && c <= '9'
}

/// An ASCII hexadecimal digit, either case.
pub open spec fn is_hex_digit(c: char) -> bool {
    is_digit(c) || ('a' <= c && c <= 'f') || ('A' <= c && c <= 'F')
}

/// The numeric value of a decimal digit character.
pub open spec fn digit_value(c: char) -> int {
    c as u32 - 48
}

/// Every character of `s` is a decimal digit.
pub open spec fn all_digits(s: Seq<char>) -> bool {
    forall|i: int| 0 <= i < s.len() ==> is_digit(s[i])
}

/// The value of `s` read as a decimal numeral, most significant digit first.
pub open spec fn dec_val(s: Seq<char>) -> int
    decreases s.len(),
{
    if s.len() == 0 {
        0
    } else {
        dec_val(s.drop_last()) * 10 + digit_value(s.last())
    }
}

/// The decimal numeral of `n`, without sign and without leading zeros.
pub open spec fn dec_str(n: int) -> Seq<char>
    decreases n,
{
    if n < 10 {
        seq![digit_char(n)]
    } else {
        dec_str(n / 10).push(digit_char(n % 10))
    }
}

/// The digit character for a value in `[0, 10)`.
pub open spec fn digit_char(d: int) -> char {
    if d == 0 { '0' }
    else if d == 1 { '1' }
    else if d == 2 { '2' }
    else if d == 3 { '3' }
    else if d == 4 { '4' }
    else if d == 5 { '5' }
    else if d == 6 { '6' }
    else if d == 7 { '7' }
    else if d == 8 { '8' }
    else { '9' }
}

pub proof fn lemma_dec_val_nonneg(s: Seq<char>)
    requires
        all_digits(s),
    ensures
        dec_val(s) >= 0,
    decreases s.len(),
{
    if s.len() > 0 {
        assert(forall|i: int| 0 <= i < s.drop_last().len() ==> is_digit(#[trigger] s.drop_last()[i]));
        lemma_dec_val_nonneg(s.drop_last());
    }
}

/// Extending a numeral by one digit multiplies its value by ten and adds
/// the digit.
pub proof fn lemma_dec_val_take_step(s: Seq<char>, k: int)
    requires
        0 <= k < s.len(),
    ensures
        dec_val(s.take(k + 1)) == dec_val(s.take(k)) * 10 + digit_value(s[k]),
{
    assert(s.take(k + 1).drop_last() =~= s.take(k));
    assert(s.take(k + 1).last() == s[k]);
}

/// The value of a digit string is at least the value of any of its prefixes.
pub proof fn lemma_dec_val_prefix_le(s: Seq<char>, k: int)
    requires
        all_digits(s),
        0 <= k <= s.len(),
    ensures
        dec_val(s.take(k)) <= dec_val(s),
    decreases s.len() - k,
{
    if k < s.len() {
        assert(forall|i: int| 0 <= i < s.take(k).len() ==> is_digit(#[trigger] s.take(k)[i]));
        lemma_dec_val_nonneg(s.take(k));
        lemma_dec_val_take_step(s, k);
        lemma_dec_val_prefix_le(s, k + 1);
    } else {
        assert(s.take(k) =~= s);
    }
}

/// The decimal numeral of a non-negative value is a non-empty digit
/// string that reads back to the same value.
pub proof fn lemma_dec_str(n: int)
    requires
        0 <= n,
    ensures
        dec_str(n).len() >= 1,
        all_digits(dec_str(n)),
        dec_val(dec_str(n)) == n,
    decreases n,
{
    if n < 10 {
        assert(dec_str(n) =~= seq![digit_char(n)]);
        assert(dec_str(n).drop_last() =~= Seq::<char>::empty());
        assert(dec_val(Seq::<char>::empty()) == 0);
        assert(dec_str(n).last() == digit_char(n));
        assert(is_digit(digit_char(n)));
        assert(digit_value(digit_char(n)) == n);
        assert(dec_val(dec_str(n)) == 0 * 10 + digit_value(digit_char(n)));
    } else {
        lemma_dec_str(n / 10);
        let a = dec_str(n / 10);
        let w = a.push(digit_char(n % 10));
        assert(w.drop_last() =~= a);
        assert(w.last() == digit_char(n % 10));
        assert(digit_value(digit_char(n % 10)) == n % 10);
        assert(forall|i: int| 0 <= i < w.len() ==> is_digit(w[i]));
        assert(dec_val(w) == dec_val(a) * 10 + n % 10);
    }
}

/// The index of the first occurrence of `c` in `s`, or `-1` if absent.
pub open spec fn find_ch(s: Seq<char>, c: char) -> int
    decreases s.len(),
{
    if s.len() == 0 {
        -1
    } else if s[0] == c {
        0
    } else if find_ch(s.drop_first(), c) == -1 {
        -1
    } else {
        find_ch(s.drop_first(), c) + 1
    }
}

pub proof fn lemma_find_ch(s: Seq<char>, c: char)
    ensures
        find_ch(s, c) == -1 ==> forall|i: int| 0 <= i < s.len() ==> s[i] != c,
        find_ch(s, c) != -1 ==> 0 <= find_ch(s, c) < s.len() && s[find_ch(s, c)] == c
            && forall|i: int| 0 <= i < find_ch(s, c) ==> s[i] != c,
    decreases s.len(),
{
    if s.len() > 0 && s[0] != c {
        let t = s.drop_first();
        lemma_find_ch(t, c);
        let ft = find_ch(t, c);
        if ft == -1 {
            assert forall|i: int| 0 <= i < s.len() implies s[i] != c by {
                if i > 0 {
                    assert(t[i - 1] == s[i]);
                }
            }
        } else {
            assert(t[ft] == s[ft + 1]);
            assert forall|i: int| 0 <= i < ft + 1 implies s[i] != c by {
                if i > 0 {
                    assert(t[i - 1] == s[i]);
                }
            }
        }
    }
}

/// `find_ch` is pinned down by its characterization: if `s[i] == c` and no
/// earlier character equals `c`, then `find_ch(s, c) == i`.
pub proof fn lemma_find_ch_at(s: Seq<char>, c: char, i: int)
    requires
        0 <= i < s.len(),
        s[i] == c,
        forall|k: int| 0 <= k < i ==> s[k] != c,
    ensures
        find_ch(s, c) == i,
{
    lemma_find_ch(s, c);
    let f = find_ch(s, c);
    if f == -1 {
        assert(s[i] != c);
    } else if f < i {
        assert(s[f] != c);
    } else if f > i {
        assert(s[i] != c);
    }
}

/// The parts of `s` between occurrences of the separator `c`, in order.
/// There is always at least one part; separators are not kept.
pub open spec fn split_on(s: Seq<char>, c: char) -> Seq<Seq<char>>
    decreases s.len(),
    via split_on_decreases
{
    if find_ch(s, c) == -1 {
        seq![s]
    } else {
        seq![s.take(find_ch(s, c))] + split_on(s.skip(find_ch(s, c) + 1), c)
    }
}

#[via_fn]
proof fn split_on_decreases(s: Seq<char>, c: char) {
    lemma_find_ch(s, c);
}

/// If every character of every part satisfies `p`, every character of the
/// whole string satisfies `p` or is the separator.
pub proof fn lemma_split_chars(s: Seq<char>, c: char, p: spec_fn(char) -> bool)
    requires
        forall|i: int, k: int| 0 <= i < split_on(s, c).len()
            && 0 <= k < split_on(s, c)[i].len() ==> p(#[trigger] split_on(s, c)[i][k]),
    ensures
        forall|k: int| 0 <= k < s.len() ==> p(s[k]) || s[k] == c,
    decreases s.len(),
{
    lemma_find_ch(s, c);
    let f = find_ch(s, c);
    if f == -1 {
        assert(forall|k: int| 0 <= k < s.len() ==> p(s[k])) by {
            assert(forall|k: int| 0 <= k < s.len() ==> split_on(s, c)[0][k] == s[k]);
        }
    } else {
        let rest = s.skip(f + 1);
        assert(forall|i: int, k: int| 0 <= i < split_on(rest, c).len()
            && 0 <= k < split_on(rest, c)[i].len() ==> p(#[trigger] split_on(rest, c)[i][k])) by {
            assert(forall|i: int| 0 <= i < split_on(rest, c).len()
                ==> split_on(s, c)[i + 1] == #[trigger] split_on(rest, c)[i]);
        }
        lemma_split_chars(rest, c, p);
        assert forall|k: int| 0 <= k < s.len() implies p(s[k]) || s[k] == c by {
            if k < f {
                assert(split_on(s, c)[0][k] == s[k]);
            } else if k == f {
            } else {
                assert(rest[k - f - 1] == s[k]);
            }
        }
    }
}

/// The first occurrence of `c` in `s`, if any.
pub fn find_char(s: &str, c: char) -> (r: Option<usize>)
    ensures
        match r {
            Some(i) => i < s@.len() && find_ch(s@, c) == i as int,
            None => find_ch(s@, c) == -1,
        },
{
    let n: usize = s.unicode_len();
    let mut i: usize = 0;
    while i < n
        invariant
            i <= n,
            n == s@.len(),
            forall|k: int| 0 <= k < i ==> s@[k] != c,
        decreases n - i,
    {
        if s.get_char(i) == c {
            proof {
                lemma_find_ch_at(s@, c, i as int);
            }
            return Some(i);
        }
        i = i + 1;
    }
    proof {
        lemma_find_ch(s@, c);
        if find_ch(s@, c) != -1 {
            assert(s@[find_ch(s@, c)] != c);
        }
    }
    None
}

/// Split `s` at every occurrence of `c`, in the sense of `split_on`.
pub fn split_char<'a>(s: &'a str, c: char) -> (parts: Vec<&'a str>)
    ensures
        parts@.len() == split_on(s@, c).len(),
        forall|i: int| 0 <= i < parts@.len() ==> parts@[i]@ == split_on(s@, c)[i],
    decreases s@.len(),
{
    proof {
        lemma_find_ch(s@, c);
    }
    match find_char(s, c) {
        None => {
            let mut parts: Vec<&'a str> = Vec::new();
            parts.push(s);
            parts
        },
        Some(i) => {
            let n: usize = s.unicode_len();
            let head = s.substring_char(0, i);
            let tail = s.substring_char(i + 1, n);
            proof {
                assert(head@ =~= s@.take(i as int));
                assert(tail@ =~= s@.skip(i as int + 1));
            }
            let rest = split_char(tail, c);
            let mut parts: Vec<&'a str> = Vec::new();
            parts.push(head);
            let mut k: usize = 0;
            let rn: usize = rest.len();
            while k < rn
                invariant
                    k <= rn,
                    rn == rest.len(),
                    parts@.len() == 1 + k,
                    parts@[0] == head,
                    forall|t: int| 0 <= t < k ==> parts@[t + 1] == rest@[t],
                    rest@.len() == split_on(tail@, c).len(),
                    forall|t: int| 0 <= t < rest@.len() ==> rest@[t]@ == split_on(tail@, c)[t],
                decreases rn - k,
            {
                parts.push(rest[k]);
                k = k + 1;
            }
            proof {
                assert(split_on(s@, c) == seq![s@.take(i as int)] + split_on(s@.skip(i as int + 1), c));
                assert(split_on(tail@, c) == split_on(s@.skip(i as int + 1), c));
                assert(forall|t: int| 0 <= t < split_on(tail@, c).len()
                    ==> split_on(s@, c)[t + 1] == #[trigger] split_on(tail@, c)[t]);
            }
            parts
        },
    }
}

/// Read `s` as an unbounded decimal numeral, accepting it only when it is
/// non-empty, all digits, and its value is at most `max`.
pub fn parse_dec(s: &str, max: u64) -> (r: Option<u64>)
    requires
        max <= 0xFFFF_FFFF,
    ensures
        r is Some <==> s@.len() >= 1 && all_digits(s@) && dec_val(s@) <= max,
        r is Some ==> r->0 as int == dec_val(s@),
{
    let n: usize = s.unicode_len();
    if n == 0 {
        return None;
    }
    let mut i: usize = 0;
    let mut acc: u64 = 0;
    while i < n
        invariant
            i <= n,
            n == s@.len(),
            max <= 0xFFFF_FFFF,
            acc <= max,
            acc as int == dec_val(s@.take(i as int)),
            forall|k: int| 0 <= k < i ==> is_digit(s@[k]),
        decreases n - i,
    {
        let c = s.get_char(i);
        if c < '0' || c > '9' {
            assert(!is_digit(s@[i as int]));
            return None;
        }
        let d: u64 = c as u64 - 48;
        proof {
            assert(d as int == digit_value(c));
            lemma_dec_val_take_step(s@, i as int);
        }
        let next: u64 = acc * 10 + d;
        if next > max {
            proof {
                if all_digits(s@) && dec_val(s@) <= max {
                    lemma_dec_val_prefix_le(s@, i as int + 1);
                }
            }
            return None;
        }
        acc = next;
        i = i + 1;
    }
    proof {
        assert(s@.take(n as int) =~= s@);
    }
    Some(acc)
}

} // verus!
