//! Verified text utilities: conversion between `str` and character
//! vectors, substring search, trimming, splitting, and exact decimal
//! printing and parsing with their round-trip lemmas.

use vstd::prelude::*;
use vstd::string::StrSliceExecFns;
use crate::chars::{is_space, is_digit, digit_val, exec_is_space, exec_is_digit};
use crate::trusted::push_char;

verus! {

/// The characters of a string slice, one per Unicode scalar value.
pub fn chars_of(s: &str) -> (v: Vec<char>)
    ensures
        v@ == s@,
{
    let n: usize = s.unicode_len();
    let mut v: Vec<char> = Vec::new();
    let mut i: usize = 0;
    while i < n
        invariant
            i <= n,
            n == s@.len(),
            v@ =~= s@.subrange(0, i as int),
        decreases n - i,
    {
        let c = s.get_char(i);
        v.push(c);
        i = i + 1;
    }
    proof {
        assert(v@ =~= s@);
    }
    v
}

/// A `String` holding exactly the given characters.
pub fn string_from(v: &[char]) -> (s: String)
    ensures
        s@ == v@,
{
    let mut s = String::new();
    let n: usize = v.len();
    let mut i: usize = 0;
    while i < n
        invariant
            i <= n,
            n == v@.len(),
            s@ =~= v@.subrange(0, i as int),
        decreases n - i,
    {
        push_char(&mut s, v[i]);
        i = i + 1;
    }
    proof {
        assert(s@ =~= v@);
    }
    s
}

/// A copy of `v[from..to]`.
pub fn subvec(v: &[char], from: usize, to: usize) -> (r: Vec<char>)
    requires
        from <= to <= v@.len(),
    ensures
        r@ == v@.subrange(from as int, to as int),
{
    let mut r: Vec<char> = Vec::new();
    let mut i: usize = from;
    while i < to
        invariant
            from <= i <= to <= v@.len(),
            r@ =~= v@.subrange(from as int, i as int),
        decreases to - i,
    {
        r.push(v[i]);
        i = i + 1;
    }
    proof {
        assert(r@ =~= v@.subrange(from as int, to as int));
    }
    r
}

/// `sub` occurs in `s` starting at position `i`.
pub open spec fn substr_at(s: Seq<char>, sub: Seq<char>, i: int) -> bool {
    0 <= i && i + sub.len() <= s.len() && s.subrange(i, i + sub.len()) == sub
}

/// `sub` occurs somewhere in `s`.
pub open spec fn has_substr(s: Seq<char>, sub: Seq<char>) -> bool {
    exists|i: int| substr_at(s, sub, i)
}

/// Whether `p` occurs in `v` at position `at`.
pub fn is_sub_at(v: &[char], p: &[char], at: usize) -> (r: bool)
    requires
        at <= v@.len(),
    ensures
        r == substr_at(v@, p@, at as int),
{
    let pn: usize = p.len();
    let vn: usize = v.len();
    if pn > vn - at {
        proof {
            assert(!substr_at(v@, p@, at as int));
        }
        return false;
    }
    let mut i: usize = 0;
    while i < pn
        invariant
            i <= pn,
            pn == p@.len(),
            vn == v@.len(),
            at + pn <= vn,
            forall|j: int| 0 <= j < i ==> v@[at + j] == p@[j],
        decreases pn - i,
    {
        if v[at + i] != p[i] {
            proof {
                assert(v@.subrange(at as int, at + pn) != p@) by {
                    assert(v@.subrange(at as int, at + pn)[i as int] == v@[at + i]);
                }
            }
            return false;
        }
        i = i + 1;
    }
    proof {
        assert(v@.subrange(at as int, at + pn) =~= p@);
    }
    true
}

/// Position of the first occurrence of `p` in `v`, if any.
pub fn find_sub(v: &[char], p: &[char]) -> (r: Option<usize>)
    ensures
        match r {
            Some(i) => substr_at(v@, p@, i as int) && forall|j: int|
                0 <= j < i ==> !substr_at(v@, p@, j),
            None => !has_substr(v@, p@),
        },
{
    let vn: usize = v.len();
    let pn: usize = p.len();
    if pn > vn {
        proof {
            assert(forall|j: int| !substr_at(v@, p@, j));
        }
        return None;
    }
    if pn == 0 {
        proof {
            assert(v@.subrange(0, 0) =~= p@);
        }
        return Some(0);
    }
    let last: usize = vn - pn;
    let mut i: usize = 0;
    while i <= last
        invariant
            i <= last + 1,
            1 <= pn == p@.len(),
            vn == v@.len(),
            last == vn - pn,
            forall|j: int| 0 <= j < i ==> !substr_at(v@, p@, j),
        decreases last + 1 - i,
    {
        if is_sub_at(v, p, i) {
            return Some(i);
        }
        i = i + 1;
    }
    proof {
        assert forall|j: int| !substr_at(v@, p@, j) by {
            if 0 <= j <= last {
                assert(!substr_at(v@, p@, j));
            }
        }
    }
    None
}

/// Whether `v` contains `p`.
pub fn contains_sub(v: &[char], p: &[char]) -> (r: bool)
    ensures
        r == has_substr(v@, p@),
{
    match find_sub(v, p) {
        Some(_) => true,
        None => false,
    }
}

/// Whether `p` is a prefix of `v`.
pub fn is_prefix(v: &[char], p: &[char]) -> (r: bool)
    ensures
        r == substr_at(v@, p@, 0),
{
    if p.len() > v.len() {
        return false;
    }
    is_sub_at(v, p, 0)
}

/// The two character sequences are the same.
pub fn chars_eq(a: &[char], b: &[char]) -> (r: bool)
    ensures
        r == (a@ == b@),
{
    if a.len() != b.len() {
        proof {
            assert(a@ != b@);
        }
        return false;
    }
    let n: usize = a.len();
    let mut i: usize = 0;
    while i < n
        invariant
            i <= n,
            n == a@.len() == b@.len(),
            forall|j: int| 0 <= j < i ==> a@[j] == b@[j],
        decreases n - i,
    {
        if a[i] != b[i] {
            return false;
        }
        i = i + 1;
    }
    proof {
        assert(a@ =~= b@);
    }
    true
}

/// Equality of two string slices.
pub fn str_eq(a: &str, b: &str) -> (r: bool)
    ensures
        r == (a@ == b@),
{
    let va = chars_of(a);
    let vb = chars_of(b);
    chars_eq(va.as_slice(), vb.as_slice())
}

/// Leading whitespace dropped.
pub open spec fn trim_start(s: Seq<char>) -> Seq<char>
    decreases s.len(),
{
    if s.len() > 0 && is_space(s[0]) {
        trim_start(s.drop_first())
    } else {
        s
    }
}

/// Trailing whitespace dropped.
pub open spec fn trim_end(s: Seq<char>) -> Seq<char>
    decreases s.len(),
{
    if s.len() > 0 && is_space(s[s.len() - 1]) {
        trim_end(s.drop_last())
    } else {
        s
    }
}

/// Both ends trimmed of whitespace.
pub open spec fn trim(s: Seq<char>) -> Seq<char> {
    trim_end(trim_start(s))
}

proof fn lemma_trim_start_range(s: Seq<char>, k: int)
    requires
        0 <= k <= s.len(),
        forall|j: int| 0 <= j < k ==> is_space(s[j]),
    ensures
        trim_start(s) == trim_start(s.subrange(k, s.len() as int)),
    decreases k,
{
    if k > 0 {
        assert(trim_start(s) == trim_start(s.drop_first()));
        assert(s.drop_first() =~= s.subrange(1, s.len() as int));
        lemma_trim_start_range(s.subrange(1, s.len() as int), k - 1);
        assert(s.subrange(1, s.len() as int).subrange(k - 1, s.len() - 1) =~= s.subrange(
            k,
            s.len() as int,
        ));
    } else {
        assert(s.subrange(0, s.len() as int) =~= s);
    }
}

proof fn lemma_trim_end_range(s: Seq<char>, k: int)
    requires
        0 <= k <= s.len(),
        forall|j: int| k <= j < s.len() ==> is_space(s[j]),
    ensures
        trim_end(s) == trim_end(s.subrange(0, k)),
    decreases s.len() - k,
{
    if k < s.len() {
        assert(is_space(s[s.len() - 1]));
        assert(trim_end(s) == trim_end(s.drop_last()));
        assert(s.drop_last() =~= s.subrange(0, s.len() - 1));
        lemma_trim_end_range(s.subrange(0, s.len() - 1), k);
        assert(s.subrange(0, s.len() - 1).subrange(0, k) =~= s.subrange(0, k));
    } else {
        assert(s.subrange(0, k) =~= s);
    }
}

/// The trimmed copy of `v`.
pub fn trim_vec(v: &[char]) -> (r: Vec<char>)
    ensures
        r@ == trim(v@),
{
    let n: usize = v.len();
    let mut lo: usize = 0;
    while lo < n && exec_is_space(v[lo])
        invariant
            lo <= n,
            n == v@.len(),
            forall|j: int| 0 <= j < lo ==> is_space(v@[j]),
        decreases n - lo,
    {
        lo = lo + 1;
    }
    proof {
        lemma_trim_start_range(v@, lo as int);
        if lo < n {
            assert(trim_start(v@.subrange(lo as int, n as int)) == v@.subrange(
                lo as int,
                n as int,
            ));
        } else {
            assert(v@.subrange(lo as int, n as int) =~= Seq::<char>::empty());
        }
    }
    let mut hi: usize = n;
    while hi > lo && exec_is_space(v[hi - 1])
        invariant
            lo <= hi <= n,
            n == v@.len(),
            forall|j: int| hi <= j < n ==> is_space(v@[j]),
            forall|j: int| 0 <= j < lo ==> is_space(v@[j]),
        decreases hi,
    {
        hi = hi - 1;
    }
    let r = subvec(v, lo, hi);
    proof {
        let mid = v@.subrange(lo as int, n as int);
        assert(trim_start(v@) == mid);
        assert(forall|j: int| (hi - lo) <= j < mid.len() ==> is_space(mid[j]));
        lemma_trim_end_range(mid, hi - lo);
        assert(mid.subrange(0, hi - lo) =~= v@.subrange(lo as int, hi as int));
        if hi > lo {
            assert(!is_space(v@[hi - 1]));
            let cut = v@.subrange(lo as int, hi as int);
            assert(cut[cut.len() - 1] == v@[hi - 1]);
            assert(trim_end(cut) == cut);
        } else {
            assert(v@.subrange(lo as int, hi as int) =~= Seq::<char>::empty());
        }
    }
    r
}


/// All characters are decimal digits.
pub open spec fn all_digits(s: Seq<char>) -> bool {
    forall|i: int| 0 <= i < s.len() ==> is_digit(#[trigger] s[i])
}

/// Value of a string of decimal digits, most significant first.
pub open spec fn dec_val(s: Seq<char>) -> nat
    decreases s.len(),
{
    if s.len() == 0 {
        0
    } else {
        (dec_val(s.drop_last()) * 10 + digit_val(s.last())) as nat
    }
}

/// A digit's character.
pub open spec fn digit_char(d: int) -> char {
    if d == 0 { '0' }
    else if d == 1 { '1' }
    else if d == 2 { '2' }
    else if d == 3 { '3' }
    else if d == 4 { '4' }
    else if d == 5 { '5' }
    else if d == 6 { '6' }
    else if d == 7 { '7' }
    else if d == 8 { '8' }
    else { '9' }
}

/// Shortest decimal rendering of `n`, most significant digit first.
pub open spec fn dec_digits(n: nat) -> Seq<char>
    decreases n,
{
    if n < 10 {
        seq![digit_char(n as int)]
    } else {
        dec_digits(n / 10).push(digit_char((n % 10) as int))
    }
}

/// `digit_char` yields a digit whose value reads back.
pub proof fn lemma_digit_char(d: int)
    requires
        0 <= d < 10,
    ensures
        is_digit(digit_char(d)),
        digit_val(digit_char(d)) == d,
{
    if d == 0 {
        assert('0' <= '0' <= '9');
        assert('0' as int - '0' as int == 0);
    } else if d == 1 {
        assert('1' as int - '0' as int == 1);
    } else if d == 2 {
        assert('2' as int - '0' as int == 2);
    } else if d == 3 {
        assert('3' as int - '0' as int == 3);
    } else if d == 4 {
        assert('4' as int - '0' as int == 4);
    } else if d == 5 {
        assert('5' as int - '0' as int == 5);
    } else if d == 6 {
        assert('6' as int - '0' as int == 6);
    } else if d == 7 {
        assert('7' as int - '0' as int == 7);
    } else if d == 8 {
        assert('8' as int - '0' as int == 8);
    } else {
        assert('9' as int - '0' as int == 9);
    }
}

/// The decimal rendering consists of digits and reads back to `n`.
pub proof fn lemma_dec_digits_val(n: nat)
    ensures
        all_digits(dec_digits(n)),
        dec_val(dec_digits(n)) == n,
        dec_digits(n).len() >= 1,
    decreases n,
{
    if n < 10 {
        lemma_digit_char(n as int);
        let s = dec_digits(n);
        assert(s.drop_last() =~= Seq::<char>::empty());
        assert(dec_val(s.drop_last()) == 0);
        assert(digit_val(s.last()) == n);
        assert(dec_val(s) == (dec_val(s.drop_last()) * 10 + digit_val(s.last())) as nat);
    } else {
        lemma_dec_digits_val(n / 10);
        lemma_digit_char((n % 10) as int);
        let s = dec_digits(n);
        assert(s.drop_last() =~= dec_digits(n / 10));
        assert(digit_val(s.last()) == n % 10);
        assert(n / 10 * 10 + n % 10 == n) by {
            vstd::arithmetic::div_mod::lemma_fundamental_div_mod(n as int, 10);
        }
        assert(dec_val(s) == dec_val(s.drop_last()) * 10 + digit_val(s.last()));
        assert(forall|i: int| 0 <= i < s.len() ==> is_digit(#[trigger] s[i])) by {
            assert(forall|i: int|
                0 <= i < s.len() - 1 ==> s[i] == #[trigger] dec_digits(n / 10)[i]);
        }
    }
}

/// Extending a digit string on the right can only grow its value.
pub proof fn lemma_dec_val_prefix(s: Seq<char>, k: int)
    requires
        0 <= k <= s.len(),
        all_digits(s),
    ensures
        dec_val(s.subrange(0, k)) <= dec_val(s),
    decreases s.len() - k,
{
    if k < s.len() {
        lemma_dec_val_prefix(s, k + 1)
;
        let a = s.subrange(0, k);
        let b = s.subrange(0, k + 1);
        assert(b.drop_last() =~= a);
        assert(is_digit(b.last()));
        assert(dec_val(a) <= dec_val(b));
    } else {
        assert(s.subrange(0, k) =~= s);
    }
}

/// Parse a non-empty all-digit string as a `u64`, refusing anything else
/// and any value that does not fit.
pub fn parse_u64(v: &[char]) -> (r: Option<u64>)
    ensures
        match r {
            Some(n) => v@.len() > 0 && all_digits(v@) && dec_val(v@) == n,
            None => v@.len() == 0 || !all_digits(v@) || dec_val(v@) > u64::MAX,
        },
{
    let n: usize = v.len();
    if n == 0 {
        return None;
    }
    let mut acc: u128 = 0;
    let mut i: usize = 0;
    while i < n
        invariant
            i <= n,
            n == v@.len(),
            all_digits(v@.subrange(0, i as int)),
            acc == dec_val(v@.subrange(0, i as int)),
            acc <= u64::MAX,
        decreases n - i,
    {
        let c = v[i];
        if !exec_is_digit(c) {
            proof {
                assert(!all_digits(v@));
            }
            return None;
        }
        let d: u128 = (c as u32 - '0' as u32) as u128;
        proof {
            assert(v@.subrange(0, i + 1).drop_last() =~= v@.subrange(0, i as int));
            assert(v@.subrange(0, i + 1).last() == v@[i as int]);
        }
        acc = acc * 10 + d;
        i = i + 1;
        if acc > u64::MAX as u128 {
            proof {
                if all_digits(v@) {
                    lemma_dec_val_prefix(v@, i as int);
                    assert(dec_val(v@) > u64::MAX);
                }
            }
            return None;
        }
    }
    proof {
        assert(v@.subrange(0, n as int) =~= v@);
    }
    Some(acc as u64)
}

/// Append a single decimal digit character.
fn push_digit(s: &mut String, d: u64)
    requires
        d < 10,
    ensures
        final(s)@ == old(s)@.push(digit_char(d as int)),
{
    if d == 0 { push_char(s, '0') }
    else if d == 1 { push_char(s, '1') }
    else if d == 2 { push_char(s, '2') }
    else if d == 3 { push_char(s, '3') }
    else if d == 4 { push_char(s, '4') }
    else if d == 5 { push_char(s, '5') }
    else if d == 6 { push_char(s, '6') }
    else if d == 7 { push_char(s, '7') }
    else if d == 8 { push_char(s, '8') }
    else { push_char(s, '9') }
}

/// Append the decimal rendering of `n` to `s`.
pub fn append_dec_u64(s: &mut String, n: u64)
    ensures
        final(s)@ == old(s)@ + dec_digits(n as nat),
    decreases n,
{
    if n < 10 {
        push_digit(s, n);
        proof {
            assert(old(s)@ + dec_digits(n as nat) =~= old(s)@.push(digit_char(n as int)));
        }
    } else {
        append_dec_u64(s, n / 10);
        push_digit(s, n % 10);
        proof {
            assert(old(s)@ + dec_digits(n as nat) =~= (old(s)@ + dec_digits(
                n as nat / 10,
            )).push(digit_char((n % 10) as int)));
        }
    }
}

/// The decimal rendering of `n` as a string.
pub fn dec_u64_string(n: u64) -> (s: String)
    ensures
        s@ == dec_digits(n as nat),
{
    let mut s = String::new();
    append_dec_u64(&mut s, n);
    proof {
        assert(Seq::<char>::empty() + dec_digits(n as nat) =~= dec_digits(n as nat));
    }
    s
}


/// Index of the first occurrence of `c` in `s`, or the length when absent.
pub open spec fn first_idx_of(s: Seq<char>, c: char) -> int
    decreases s.len(),
{
    if s.len() == 0 {
        0
    } else if s[0] == c {
        0
    } else {
        1 + first_idx_of(s.drop_first(), c)
    }
}

pub proof fn lemma_first_idx_of(s: Seq<char>, c: char)
    ensures
        0 <= first_idx_of(s, c) <= s.len(),
        forall|j: int| 0 <= j < first_idx_of(s, c) ==> s[j] != c,
        first_idx_of(s, c) < s.len() ==> s[first_idx_of(s, c)] == c,
    decreases s.len(),
{
    if s.len() > 0 && s[0] != c {
        lemma_first_idx_of(s.drop_first(), c);
        assert forall|j: int| 0 <= j < first_idx_of(s, c) implies s[j] != c by {
            if j > 0 {
                assert(s[j] == s.drop_first()[j - 1]);
            }
        }
    }
}

/// `s` split on every occurrence of `c`; the separators are dropped and
/// empty pieces are kept, as with one split per separator.
pub open spec fn split_on(s: Seq<char>, c: char) -> Seq<Seq<char>>
    decreases s.len(),
        via split_on_decreases
{
    let i = first_idx_of(s, c);
    if i >= s.len() {
        seq![s]
    } else {
        seq![s.subrange(0, i)] + split_on(s.subrange(i + 1, s.len() as int), c)
    }
}

#[via_fn]
proof fn split_on_decreases(s: Seq<char>, c: char) {
    lemma_first_idx_of(s, c);
}

/// A piece without the separator splits into itself alone.
pub proof fn lemma_split_whole(s: Seq<char>, c: char)
    requires
        forall|j: int| 0 <= j < s.len() ==> s[j] != c,
    ensures
        split_on(s, c) == seq![s],
    decreases s.len(),
{
    lemma_first_idx_of(s, c);
    if first_idx_of(s, c) < s.len() {
        assert(s[first_idx_of(s, c)] == c);
        assert(false);
    }
}

/// Splitting `a + c + rest` where `a` is separator-free peels off `a`.
pub proof fn lemma_split_step(a: Seq<char>, rest: Seq<char>, c: char)
    requires
        forall|j: int| 0 <= j < a.len() ==> a[j] != c,
    ensures
        split_on(a + seq![c] + rest, c) == seq![a] + split_on(rest, c),
{
    let s = a + seq![c] + rest;
    assert(s.len() == a.len() + 1 + rest.len());
    assert(forall|j: int| 0 <= j < a.len() ==> s[j] == a[j]);
    assert(s[a.len() as int] == c);
    lemma_first_idx_bound(s, c, a.len() as int);
    assert(first_idx_of(s, c) == a.len());
    assert(s.subrange(0, a.len() as int) =~= a);
    assert(s.subrange(a.len() as int + 1, s.len() as int) =~= rest);
}

/// `first_idx_of` finds exactly the first occurrence.
pub proof fn lemma_first_idx_bound(s: Seq<char>, c: char, k: int)
    requires
        0 <= k < s.len(),
        s[k] == c,
        forall|j: int| 0 <= j < k ==> s[j] != c,
    ensures
        first_idx_of(s, c) == k,
    decreases k,
{
    if k > 0 {
        assert(s[0] != c);
        let t = s.drop_first();
        assert(t[k - 1] == c);
        assert(forall|j: int| 0 <= j < k - 1 ==> t[j] == s[j + 1] && t[j] != c);
        lemma_first_idx_bound(t, c, k - 1);
    }
}

/// The pieces of `v` between occurrences of `c`.
pub fn split_vec(v: &[char], c: char) -> (r: Vec<Vec<char>>)
    ensures
        r@.map_values(|p: Vec<char>| p@) == split_on(v@, c),
        r@.len() >= 1,
{
    let n: usize = v.len();
    let mut r: Vec<Vec<char>> = Vec::new();
    let mut start: usize = 0;
    let mut i: usize = 0;
    proof {
        assert(v@.subrange(0, n as int) =~= v@);
        assert(r@.map_values(|p: Vec<char>| p@) + split_on(v@, c) =~= split_on(v@, c));
    }
    while i < n
        invariant
            start <= i <= n,
            n == v@.len(),
            forall|j: int| start <= j < i ==> v@[j] != c,
            split_on(v@, c) == r@.map_values(|p: Vec<char>| p@) + split_on(
                v@.subrange(start as int, n as int),
                c,
            ),
        decreases n - i,
    {
        if v[i] == c {
            let piece = subvec(v, start, i);
            proof {
                let tail = v@.subrange(start as int, n as int);
                let a = v@.subrange(start as int, i as int);
                let rest = v@.subrange(i + 1, n as int);
                assert(tail =~= a + seq![c] + rest);
                lemma_split_step(a, rest, c);
                assert(r@.push(piece).map_values(|p: Vec<char>| p@) =~= r@.map_values(
                    |p: Vec<char>| p@,
                ).push(a));
                assert(r@.map_values(|p: Vec<char>| p@) + (seq![a] + split_on(rest, c)) =~= r@.map_values(
                    |p: Vec<char>| p@,
                ).push(a) + split_on(rest, c));
            }
            r.push(piece);
            start = i + 1;
        }
        i = i + 1;
    }
    let last_piece = subvec(v, start, n);
    proof {
        let tail = v@.subrange(start as int, n as int);
        lemma_split_whole(tail, c);
        assert(r@.push(last_piece).map_values(|p: Vec<char>| p@) =~= r@.map_values(
            |p: Vec<char>| p@,
        ).push(tail));
        assert(r@.map_values(|p: Vec<char>| p@) + seq![tail] =~= r@.map_values(
            |p: Vec<char>| p@,
        ).push(tail));
    }
    r.push(last_piece);
    r
}


/// Index of the first whitespace character, or the length when none.
pub open spec fn first_ws_idx(s: Seq<char>) -> int
    decreases s.len(),
{
    if s.len() == 0 {
        0
    } else if is_space(s[0]) {
        0
    } else {
        1 + first_ws_idx(s.drop_first())
    }
}

pub proof fn lemma_first_ws_idx(s: Seq<char>)
    ensures
        0 <= first_ws_idx(s) <= s.len(),
        forall|j: int| 0 <= j < first_ws_idx(s) ==> !is_space(s[j]),
        first_ws_idx(s) < s.len() ==> is_space(s[first_ws_idx(s)]),
    decreases s.len(),
{
    if s.len() > 0 && !is_space(s[0]) {
        lemma_first_ws_idx(s.drop_first());
        assert forall|j: int| 0 <= j < first_ws_idx(s) implies !is_space(s[j]) by {
            if j > 0 {
                assert(s[j] == s.drop_first()[j - 1]);
            }
        }
    }
}

/// Trimming can only shorten.
pub proof fn lemma_trim_start_len(s: Seq<char>)
    ensures
        trim_start(s).len() <= s.len(),
    decreases s.len(),
{
    if s.len() > 0 && is_space(s[0]) {
        lemma_trim_start_len(s.drop_first());
    }
}

/// What `trim_start` leaves never begins with whitespace.
pub proof fn lemma_trim_start_no_lead(s: Seq<char>)
    ensures
        trim_start(s).len() > 0 ==> !is_space(trim_start(s)[0]),
    decreases s.len(),
{
    if s.len() > 0 && is_space(s[0]) {
        lemma_trim_start_no_lead(s.drop_first());
    }
}

/// `first_ws_idx` finds exactly the first whitespace position.
proof fn lemma_first_ws_bound(s: Seq<char>, k: int)
    requires
        0 <= k <= s.len(),
        forall|j: int| 0 <= j < k ==> !is_space(s[j]),
        k < s.len() ==> is_space(s[k]),
    ensures
        first_ws_idx(s) == k,
    decreases k,
{
    if k > 0 {
        assert(!is_space(s[0]));
        let t = s.drop_first();
        assert(forall|j: int| 0 <= j < k - 1 ==> t[j] == s[j + 1] && !is_space(t[j]));
        if k - 1 < t.len() {
            assert(t[k - 1] == s[k]);
        }
        lemma_first_ws_bound(t, k - 1);
    }
}

/// The whitespace-separated tokens of `s`, in order.
pub open spec fn tokens(s: Seq<char>) -> Seq<Seq<char>>
    decreases s.len(),
        via tokens_decreases
{
    let t = trim_start(s);
    if t.len() == 0 {
        Seq::empty()
    } else {
        let k = first_ws_idx(t);
        seq![t.subrange(0, k)] + tokens(t.subrange(k, t.len() as int))
    }
}

#[via_fn]
proof fn tokens_decreases(s: Seq<char>) {
    lemma_trim_start_len(s);
    lemma_trim_start_no_lead(s);
    let t = trim_start(s);
    if t.len() > 0 {
        lemma_first_ws_idx(t);
        if first_ws_idx(t) == 0 {
            assert(is_space(t[0]));
        }
    }
}

/// Dropping one leading space leaves the tokens unchanged.
proof fn lemma_tokens_drop_space(s: Seq<char>)
    requires
        s.len() > 0,
        is_space(s[0]),
    ensures
        tokens(s) == tokens(s.drop_first()),
{
    assert(trim_start(s) == trim_start(s.drop_first()));
}

/// The whitespace-separated tokens of `v`.
pub fn tokens_vec(v: &[char]) -> (r: Vec<Vec<char>>)
    ensures
        r@.map_values(|p: Vec<char>| p@) == tokens(v@),
{
    let n: usize = v.len();
    let mut r: Vec<Vec<char>> = Vec::new();
    let mut i: usize = 0;
    proof {
        assert(v@.subrange(0, n as int) =~= v@);
        assert(r@.map_values(|p: Vec<char>| p@) + tokens(v@) =~= tokens(v@));
    }
    while i < n
        invariant
            i <= n,
            n == v@.len(),
            tokens(v@) == r@.map_values(|p: Vec<char>| p@) + tokens(v@.subrange(i as int, n as int)),
        decreases n - i,
    {
        if exec_is_space(v[i]) {
            proof {
                let t = v@.subrange(i as int, n as int);
                lemma_tokens_drop_space(t);
                assert(t.drop_first() =~= v@.subrange(i + 1, n as int));
            }
            i = i + 1;
        } else {
            let start: usize = i;
            let mut j: usize = i;
            while j < n && !exec_is_space(v[j])
                invariant
                    start <= j <= n,
                    n == v@.len(),
                    forall|q: int| start <= q < j ==> !is_space(v@[q]),
                decreases n - j,
            {
                j = j + 1;
            }
            let tok = subvec(v, start, j);
            proof {
                let t = v@.subrange(start as int, n as int);
                assert(trim_start(t) == t);
                assert(forall|q: int| 0 <= q < j - start ==> t[q] == v@[q + start] && !is_space(
                    t[q],
                ));
                if j < n {
                    assert(t[j - start] == v@[j as int]);
                }
                lemma_first_ws_bound(t, j - start);
                assert(tok@ =~= t.subrange(0, j - start));
                assert(t.subrange(j - start, t.len() as int) =~= v@.subrange(j as int, n as int));
                assert(tokens(t) == seq![tok@] + tokens(v@.subrange(j as int, n as int)));
                assert(r@.push(tok).map_values(|p: Vec<char>| p@) =~= r@.map_values(
                    |p: Vec<char>| p@,
                ).push(tok@));
                assert(r@.map_values(|p: Vec<char>| p@) + (seq![tok@] + tokens(
                    v@.subrange(j as int, n as int),
                )) =~= r@.map_values(|p: Vec<char>| p@).push(tok@) + tokens(
                    v@.subrange(j as int, n as int),
                ));
            }
            r.push(tok);
            i = j;
        }
    }
    proof {
        assert(v@.subrange(n as int, n as int) =~= Seq::<char>::empty());
        assert(tokens(Seq::<char>::empty()) =~= Seq::<Seq<char>>::empty());
        assert(r@.map_values(|p: Vec<char>| p@) + Seq::<Seq<char>>::empty() =~= r@.map_values(
            |p: Vec<char>| p@,
        ));
    }
    r
}

/// `s` with every trailing `c` dropped.
pub open spec fn strip_end_all(s: Seq<char>, c: char) -> Seq<char>
    decreases s.len(),
{
    if s.len() > 0 && s[s.len() - 1] == c {
        strip_end_all(s.drop_last(), c)
    } else {
        s
    }
}

/// The copy of `v` with every trailing `c` dropped.
pub fn strip_end_vec(v: &[char], c: char) -> (r: Vec<char>)
    ensures
        r@ == strip_end_all(v@, c),
{
    let n: usize = v.len();
    let mut hi: usize = n;
    proof {
        assert(v@.subrange(0, n as int) =~= v@);
    }
    while hi > 0 && v[hi - 1] == c
        invariant
            hi <= n,
            n == v@.len(),
            strip_end_all(v@, c) == strip_end_all(v@.subrange(0, hi as int), c),
        decreases hi,
    {
        proof {
            let t = v@.subrange(0, hi as int);
            assert(t.drop_last() =~= v@.subrange(0, hi - 1));
        }
        hi = hi - 1;
    }
    let r = subvec(v, 0, hi);
    proof {
        let t = v@.subrange(0, hi as int);
        if hi > 0 {
            assert(t[t.len() - 1] == v@[hi - 1]);
        }
        assert(strip_end_all(t, c) == t);
    }
    r
}

/// `s` with every copy of the prefix `p` dropped from the front.
pub open spec fn strip_prefix_all(s: Seq<char>, p: Seq<char>) -> Seq<char>
    decreases s.len(),
{
    if p.len() > 0 && substr_at(s, p, 0) {
        strip_prefix_all(s.subrange(p.len() as int, s.len() as int), p)
    } else {
        s
    }
}

/// The copy of `v` with every copy of the prefix `p` dropped.
pub fn strip_prefix_vec(v: &[char], p: &[char]) -> (r: Vec<char>)
    requires
        p@.len() > 0,
    ensures
        r@ == strip_prefix_all(v@, p@),
{
    let mut cur = subvec(v, 0, v.len());
    proof {
        assert(cur@ =~= v@);
    }
    while is_prefix(cur.as_slice(), p)
        invariant
            p@.len() > 0,
            strip_prefix_all(v@, p@) == strip_prefix_all(cur@, p@),
        decreases cur@.len(),
    {
        let next = subvec(cur.as_slice(), p.len(), cur.len());
        cur = next;
    }
    cur
}

} // verus!
