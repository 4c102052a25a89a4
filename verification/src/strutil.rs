//! Verified helpers over character sequences: comparison, prefix and
//! suffix tests, whitespace removal, and decimal rendering and scanning
//! of nonnegative integers.

use vstd::prelude::*;

verus! {

/// Relies on String::push: appends the one character to the end of the string.
#[verifier::external_body]
pub(crate) fn push_char(s: &mut String, c: char)
    ensures
        final (s)@ == old(s)@.push(c),
{
    s.push(c)
}

/// Collect the characters of a string slice into a vector.
pub fn str_to_chars(s: &str) -> (v: Vec<char>)
    ensures
        v@ == s@,
{
    let n: usize = s.unicode_len();
    let mut v: Vec<char> = Vec::new();
    let mut i: usize = 0;
    while i < n
        invariant
            n == s@.len(),
            i <= n,
            v@ == s@.take(i as int),
        decreases n - i,
    {
        let c = s.get_char(i);
        v.push(c);
        i = i + 1;
        proof {
            assert(v@ =~= s@.take(i as int));
        }
    }
    proof {
        assert(s@.take(n as int) =~= s@);
    }
    v
}

/// Build a string from a sequence of characters.
pub fn chars_to_string(v: &Vec<char>) -> (s: String)
    ensures
        s@ == v@,
{
    let mut s = String::new();
    let mut i: usize = 0;
    while i < v.len()
        invariant
            i <= v@.len(),
            s@ == v@.take(i as int),
        decreases v@.len() - i,
    {
        push_char(&mut s, v[i]);
        i = i + 1;
        proof {
            assert(s@ =~= v@.take(i as int));
        }
    }
    proof {
        assert(v@.take(v@.len() as int) =~= v@);
    }
    s
}

/// Character-for-character equality of two string slices.
pub fn str_eq(a: &str, b: &str) -> (r: bool)
    ensures
        r == (a@ == b@),
{
    let na: usize = a.unicode_len();
    let nb: usize = b.unicode_len();
    if na != nb {
        proof {
            assert(a@ != b@);
        }
        return false;
    }
    let mut i: usize = 0;
    while i < na
        invariant
            na == a@.len(),
            na == b@.len(),
            i <= na,
            forall|j: int| 0 <= j < i ==> a@[j] == b@[j],
        decreases na - i,
    {
        if a.get_char(i) != b.get_char(i) {
            return false;
        }
        i = i + 1;
    }
    proof {
        assert(a@ =~= b@);
    }
    true
}

/// `pre` is an initial segment of `s`.
pub open spec fn starts_with(s: Seq<char>, pre: Seq<char>) -> bool {
    pre.len() <= s.len() && s.take(pre.len() as int) == pre
}

/// `suf` is a final segment of `s`.
pub open spec fn ends_with(s: Seq<char>, suf: Seq<char>) -> bool {
    suf.len() <= s.len() && s.skip(s.len() - suf.len()) == suf
}

pub fn str_starts_with(s: &str, pre: &str) -> (r: bool)
    ensures
        r == starts_with(s@, pre@),
{
    let n: usize = s.unicode_len();
    let np: usize = pre.unicode_len();
    if np > n {
        return false;
    }
    let mut i: usize = 0;
    while i < np
        invariant
            n == s@.len(),
            np == pre@.len(),
            np <= n,
            i <= np,
            forall|j: int| 0 <= j < i ==> s@[j] == pre@[j],
        decreases np - i,
    {
        if s.get_char(i) != pre.get_char(i) {
            proof {
                assert(s@.take(np as int)[i as int] != pre@[i as int]);
            }
            return false;
        }
        i = i + 1;
    }
    proof {
        assert(s@.take(np as int) =~= pre@);
    }
    true
}

pub fn str_ends_with(s: &str, suf: &str) -> (r: bool)
    ensures
        r == ends_with(s@, suf@),
{
    let n: usize = s.unicode_len();
    let ns: usize = suf.unicode_len();
    if ns > n {
        return false;
    }
    let start: usize = n - ns;
    let mut i: usize = 0;
    while i < ns
        invariant
            n == s@.len(),
            ns == suf@.len(),
            ns <= n,
            start == n - ns,
            i <= ns,
            forall|j: int| 0 <= j < i ==> s@[start + j] == suf@[j],
        decreases ns - i,
    {
        if s.get_char(start + i) != suf.get_char(i) {
            proof {
                assert(s@.skip(start as int)[i as int] != suf@[i as int]);
            }
            return false;
        }
        i = i + 1;
    }
    proof {
        assert(s@.skip(start as int) =~= suf@);
    }
    true
}

/// The characters of `s` with every space removed.
pub open spec fn despace(s: Seq<char>) -> Seq<char>
    decreases s.len(),
{
    if s.len() == 0 {
        Seq::empty()
    } else if s.last() == ' ' {
        despace(s.drop_last())
    } else {
        despace(s.drop_last()).push(s.last())
    }
}

pub fn remove_spaces(s: &str) -> (out: String)
    ensures
        out@ == despace(s@),
{
    let n: usize = s.unicode_len();
    let mut out = String::new();
    let mut i: usize = 0;
    while i < n
        invariant
            n == s@.len(),
            i <= n,
            out@ == despace(s@.take(i as int)),
        decreases n - i,
    {
        let c = s.get_char(i);
        if c != ' ' {
            push_char(&mut out, c);
        }
        i = i + 1;
        proof {
            assert(s@.take(i as int).drop_last() =~= s@.take(i - 1));
            assert(s@.take(i as int).last() == s@[i - 1]);
        }
    }
    proof {
        assert(s@.take(n as int) =~= s@);
    }
    out
}

/// Whether a character occurs in `s`.
pub open spec fn has_char(s: Seq<char>, c: char) -> bool {
    exists|i: int| 0 <= i < s.len() && s[i] == c
}

pub fn str_contains_char(s: &str, c: char) -> (r: bool)
    ensures
        r == has_char(s@, c),
{
    let n: usize = s.unicode_len();
    let mut i: usize = 0;
    while i < n
        invariant
            n == s@.len(),
            i <= n,
            forall|j: int| 0 <= j < i ==> s@[j] != c,
        decreases n - i,
    {
        if s.get_char(i) == c {
            return true;
        }
        i = i + 1;
    }
    false
}

/// The decimal digit character for a value below ten.
pub open spec fn digit_char(d: nat) -> char
    recommends
        d < 10,
{
    ((48 + d) as u8) as char
}

/// A decimal digit character.
pub open spec fn is_digit(c: char) -> bool {
    48 <= c as u32 <= 57
}

/// The numeric value of a digit character.
pub open spec fn digit_val(c: char) -> nat
    recommends
        is_digit(c),
{
    (c as u32 - 48) as nat
}

/// The decimal rendering of `n`, most significant digit first.
pub open spec fn dec_of(n: nat) -> Seq<char>
    decreases n,
{
    if n < 10 {
        seq![digit_char(n)]
    } else {
        dec_of(n / 10).push(digit_char(n % 10))
    }
}

pub proof fn lemma_dec_of_digits(n: nat)
    ensures
        dec_of(n).len() >= 1,
        forall|i: int| 0 <= i < dec_of(n).len() ==> is_digit(#[trigger] dec_of(n)[i]),
    decreases n,
{
    if n < 10 {
        assert(is_digit(digit_char(n)));
    } else {
        lemma_dec_of_digits(n / 10);
        assert(is_digit(digit_char(n % 10)));
    }
}

/// Render a value in decimal.
pub fn u64_to_dec(n: u64) -> (out: String)
    ensures
        out@ == dec_of(n as nat),
    decreases n,
{
    if n < 10 {
        let mut out = String::new();
        let c: char = ((48 + n) as u8) as char;
        push_char(&mut out, c);
        proof {
            assert(out@ =~= seq![digit_char(n as nat)]);
        }
        out
    } else {
        let mut out = u64_to_dec(n / 10);
        let c: char = ((48 + (n % 10)) as u8) as char;
        push_char(&mut out, c);
        out
    }
}

/// The value accumulated by reading digit characters from the front.
pub open spec fn value_front(ds: Seq<char>, acc: nat) -> nat
    decreases ds.len(),
{
    if ds.len() == 0 {
        acc
    } else {
        value_front(ds.drop_first(), acc * 10 + digit_val(ds.first()))
    }
}

proof fn lemma_value_front_append(ds: Seq<char>, d: char, acc: nat)
    ensures
        value_front(ds.push(d), acc) == value_front(ds, acc) * 10 + digit_val(d),
    decreases ds.len(),
{
    if ds.len() == 0 {
        assert(ds.push(d).drop_first() =~= Seq::<char>::empty());
        assert(ds.push(d).first() == d);
        assert(value_front(ds.push(d), acc) == value_front(
            Seq::<char>::empty(),
            acc * 10 + digit_val(d),
        ));
        assert(value_front(Seq::<char>::empty(), acc * 10 + digit_val(d)) == acc * 10
            + digit_val(d));
        assert(value_front(ds, acc) == acc);
    } else {
        assert(ds.push(d).drop_first() =~= ds.drop_first().push(d));
        assert(ds.push(d).first() == ds.first());
        assert(value_front(ds.push(d), acc) == value_front(
            ds.drop_first().push(d),
            acc * 10 + digit_val(ds.first()),
        ));
        lemma_value_front_append(ds.drop_first(), d, acc * 10 + digit_val(ds.first()));
        assert(value_front(ds, acc) == value_front(
            ds.drop_first(),
            acc * 10 + digit_val(ds.first()),
        ));
    }
}

pub proof fn lemma_value_front_dec(n: nat)
    ensures
        value_front(dec_of(n), 0) == n,
    decreases n,
{
    if n < 10 {
        assert(dec_of(n) == seq![digit_char(n)]);
        assert(dec_of(n).drop_first() =~= Seq::<char>::empty());
        assert(dec_of(n).first() == digit_char(n));
        assert(digit_val(digit_char(n)) == n);
        assert(value_front(dec_of(n), 0) == value_front(Seq::<char>::empty(), digit_val(
            digit_char(n),
        )));
        assert(value_front(Seq::<char>::empty(), n) == n);
    } else {
        lemma_value_front_dec(n / 10);
        lemma_value_front_append(dec_of(n / 10), digit_char(n % 10), 0);
        assert(digit_val(digit_char(n % 10)) == n % 10);
        assert(value_front(dec_of(n), 0) == value_front(dec_of(n / 10), 0) * 10 + digit_val(
            digit_char(n % 10),
        ));
        assert(n / 10 * 10 + n % 10 == n) by {
            vstd::arithmetic::div_mod::lemma_fundamental_div_mod(n as int, 10);
        };
    }
}

/// Read digit characters starting at `pos`, folding them onto `acc`;
/// the result is the accumulated value and the position of the first
/// character that is not a digit.
pub open spec fn scan_digits(s: Seq<char>, pos: int, acc: nat) -> (nat, int)
    decreases s.len() - pos,
{
    if 0 <= pos < s.len() && is_digit(s[pos]) {
        scan_digits(s, pos + 1, acc * 10 + digit_val(s[pos]))
    } else {
        (acc, pos)
    }
}

proof fn lemma_scan_digits_over(s: Seq<char>, pos: int, ds: Seq<char>, acc: nat)
    requires
        0 <= pos,
        pos + ds.len() <= s.len(),
        forall|i: int| 0 <= i < ds.len() ==> is_digit(#[trigger] ds[i]),
        s.subrange(pos, pos + ds.len()) == ds,
        pos + ds.len() == s.len() || !is_digit(s[pos + ds.len()]),
    ensures
        scan_digits(s, pos, acc) == (value_front(ds, acc), pos + ds.len() as int),
    decreases ds.len(),
{
    if ds.len() == 0 {
    } else {
        assert(s[pos] == ds[0]);
        assert(is_digit(s[pos]));
        assert(s.subrange(pos + 1, pos + ds.len()) =~= ds.drop_first());
        lemma_scan_digits_over(s, pos + 1, ds.drop_first(), acc * 10 + digit_val(s[pos]));
    }
}

/// Reading the decimal rendering of `n` out of a longer sequence
/// recovers `n`, provided the rendering is not followed by a digit.
pub proof fn lemma_scan_dec(s: Seq<char>, pos: int, n: nat)
    requires
        0 <= pos,
        pos + dec_of(n).len() <= s.len(),
        s.subrange(pos, pos + dec_of(n).len()) == dec_of(n),
        pos + dec_of(n).len() == s.len() || !is_digit(s[pos + dec_of(n).len()]),
    ensures
        scan_digits(s, pos, 0) == (n, pos + dec_of(n).len() as int),
{
    lemma_dec_of_digits(n);
    lemma_scan_digits_over(s, pos, dec_of(n), 0);
    lemma_value_front_dec(n);
}

/// The value read never falls below the accumulator it starts from.
pub proof fn lemma_scan_lower(s: Seq<char>, pos: int, acc: nat)
    ensures
        scan_digits(s, pos, acc).0 >= acc,
    decreases s.len() - pos,
{
    if 0 <= pos < s.len() && is_digit(s[pos]) {
        lemma_scan_lower(s, pos + 1, acc * 10 + digit_val(s[pos]));
    }
}

/// The position where reading stops lies between the start and the end
/// of the sequence.
pub proof fn lemma_scan_bounds(s: Seq<char>, pos: int, acc: nat)
    requires
        0 <= pos <= s.len(),
    ensures
        pos <= scan_digits(s, pos, acc).1 <= s.len(),
    decreases s.len() - pos,
{
    if 0 <= pos < s.len() && is_digit(s[pos]) {
        lemma_scan_bounds(s, pos + 1, acc * 10 + digit_val(s[pos]));
    }
}

/// Read digits at `pos` in `v`, mirroring `scan_digits`; fails only if
/// the value would not fit in `u64`.
pub fn scan_digits_exec(v: &Vec<char>, pos: usize) -> (r: Option<(u64, usize)>)
    requires
        pos <= v@.len(),
    ensures
        match r {
            Some((n, end)) => scan_digits(v@, pos as int, 0) == (n as nat, end as int) && pos
                <= end <= v@.len(),
            None => scan_digits(v@, pos as int, 0).0 > u64::MAX,
        },
{
    let mut i: usize = pos;
    let mut acc: u64 = 0;
    loop
        invariant
            pos <= i <= v@.len(),
            scan_digits(v@, pos as int, 0) == scan_digits(v@, i as int, acc as nat),
        decreases v@.len() - i,
    {
        if i < v.len() {
            let c = v[i];
            let code: u32 = c as u32;
            if 48 <= code && code <= 57 {
                let d: u64 = ((code - 48) as u64);
                proof {
                    let m = (u64::MAX - d) as int;
                    vstd::arithmetic::div_mod::lemma_fundamental_div_mod(m, 10);
                    assert(is_digit(v@[i as int]));
                    assert(digit_val(v@[i as int]) == d as nat);
                    assert(scan_digits(v@, i as int, acc as nat) == scan_digits(
                        v@,
                        i as int + 1,
                        acc as nat * 10 + d as nat,
                    ));
                }
                if acc > (u64::MAX - d) / 10 {
                    proof {
                        lemma_scan_lower(v@, i as int + 1, acc as nat * 10 + d as nat);
                    }
                    return None;
                }
                acc = acc * 10 + d;
                i = i + 1;
                continue ;
            }
        }
        return Some((acc, i));
    }
}

/// Copy out a contiguous run of characters.
pub fn subvec_chars(v: &Vec<char>, start: usize, end: usize) -> (out: Vec<char>)
    requires
        start <= end <= v@.len(),
    ensures
        out@ == v@.subrange(start as int, end as int),
{
    let mut out: Vec<char> = Vec::new();
    let mut i: usize = start;
    while i < end
        invariant
            start <= i <= end <= v@.len(),
            out@ == v@.subrange(start as int, i as int),
        decreases end - i,
    {
        out.push(v[i]);
        i = i + 1;
        proof {
            assert(out@ =~= v@.subrange(start as int, i as int));
        }
    }
    out
}

/// The characters of `s` with every occurrence of `c` removed.
pub open spec fn remove_char(s: Seq<char>, c: char) -> Seq<char>
    decreases s.len(),
{
    if s.len() == 0 {
        Seq::empty()
    } else if s.last() == c {
        remove_char(s.drop_last(), c)
    } else {
        remove_char(s.drop_last(), c).push(s.last())
    }
}

/// Remove every occurrence of one character.
pub fn remove_char_exec(s: &str, c: char) -> (out: String)
    ensures
        out@ == remove_char(s@, c),
{
    let n: usize = s.unicode_len();
    let mut out = String::new();
    let mut i: usize = 0;
    while i < n
        invariant
            n == s@.len(),
            i <= n,
            out@ == remove_char(s@.take(i as int), c),
        decreases n - i,
    {
        let ch = s.get_char(i);
        if ch != c {
            push_char(&mut out, ch);
        }
        i = i + 1;
        proof {
            assert(s@.take(i as int).drop_last() =~= s@.take(i - 1));
            assert(s@.take(i as int).last() == s@[i - 1]);
        }
    }
    proof {
        assert(s@.take(n as int) =~= s@);
    }
    out
}

/// The characters of `s` with every occurrence of the letters `mut`
/// removed, scanning from the front.
pub open spec fn remove_mut(s: Seq<char>) -> Seq<char>
    decreases s.len(),
{
    if s.len() >= 3 && s[0] == 'm' && s[1] == 'u' && s[2] == 't' {
        remove_mut(s.skip(3))
    } else if s.len() == 0 {
        Seq::empty()
    } else {
        seq![s[0]] + remove_mut(s.skip(1))
    }
}

/// Remove every occurrence of the letters `mut`.
pub fn remove_mut_exec(s: &str) -> (out: String)
    ensures
        out@ == remove_mut(s@),
{
    let n: usize = s.unicode_len();
    let mut out = String::new();
    let mut i: usize = 0;
    proof {
        assert(s@.skip(0) =~= s@);
        assert(Seq::<char>::empty() + remove_mut(s@) =~= remove_mut(s@));
    }
    while i < n
        invariant
            n == s@.len(),
            i <= n,
            remove_mut(s@) == out@ + remove_mut(s@.skip(i as int)),
        decreases n - i,
    {
        let ghost out_old = out@;
        if n - i >= 3 && s.get_char(i) == 'm' && s.get_char(i + 1) == 'u' && s.get_char(i + 2)
            == 't' {
            proof {
                assert(s@.skip(i as int)[0] == s@[i as int]);
                assert(s@.skip(i as int)[1] == s@[i as int + 1]);
                assert(s@.skip(i as int)[2] == s@[i as int + 2]);
                assert(s@.skip(i as int).skip(3) =~= s@.skip(i as int + 3));
            }
            i = i + 3;
        } else {
            proof {
                assert(s@.skip(i as int)[0] == s@[i as int]);
                assert(s@.skip(i as int).skip(1) =~= s@.skip(i as int + 1));
                assert(remove_mut(s@.skip(i as int)) == seq![s@[i as int]] + remove_mut(
                    s@.skip(i as int + 1),
                ));
            }
            let c = s.get_char(i);
            push_char(&mut out, c);
            i = i + 1;
            proof {
                assert(out_old + (seq![c] + remove_mut(s@.skip(i as int))) =~= out@ + remove_mut(
                    s@.skip(i as int),
                ));
            }
        }
    }
    proof {
        assert(s@.skip(n as int) =~= Seq::<char>::empty());
        assert(out@ + Seq::<char>::empty() =~= out@);
    }
    out
}

/// The letters `mut` occur somewhere in `s`.
pub open spec fn has_mut(s: Seq<char>) -> bool {
    exists|i: int|
        0 <= i && i + 3 <= s.len() && #[trigger] s[i] == 'm' && s[i + 1] == 'u' && s[i + 2] == 't'
}

/// Whether the letters `mut` occur in the text.
pub fn contains_mut(s: &str) -> (r: bool)
    ensures
        r == has_mut(s@),
{
    let n: usize = s.unicode_len();
    if n < 3 {
        return false;
    }
    let mut i: usize = 0;
    while i < n - 2
        invariant
            n == s@.len(),
            3 <= n,
            i <= n - 2,
            forall|j: int|
                0 <= j < i ==> !(#[trigger] s@[j] == 'm' && s@[j + 1] == 'u' && s@[j + 2] == 't'),
        decreases n - i,
    {
        if s.get_char(i) == 'm' && s.get_char(i + 1) == 'u' && s.get_char(i + 2) == 't' {
            return true;
        }
        i = i + 1;
    }
    false
}

/// The text with leading spaces dropped.
pub open spec fn trim_front(s: Seq<char>) -> Seq<char>
    decreases s.len(),
{
    if s.len() > 0 && s.first() == ' ' {
        trim_front(s.drop_first())
    } else {
        s
    }
}

/// The text with trailing spaces dropped.
pub open spec fn trim_back(s: Seq<char>) -> Seq<char>
    decreases s.len(),
{
    if s.len() > 0 && s.last() == ' ' {
        trim_back(s.drop_last())
    } else {
        s
    }
}

/// The text with leading and trailing spaces dropped.
pub open spec fn trim_spaces(s: Seq<char>) -> Seq<char> {
    trim_back(trim_front(s))
}

/// Drop leading and trailing spaces.
pub fn trim_spaces_exec(s: &str) -> (out: String)
    ensures
        out@ == trim_spaces(s@),
{
    let n: usize = s.unicode_len();
    let mut start: usize = 0;
    proof {
        assert(s@.skip(0) =~= s@);
    }
    while start < n && s.get_char(start) == ' '
        invariant
            n == s@.len(),
            start <= n,
            trim_front(s@) == trim_front(s@.skip(start as int)),
        decreases n - start,
    {
        proof {
            assert(s@.skip(start as int).first() == s@[start as int]);
            assert(s@.skip(start as int).drop_first() =~= s@.skip(start as int + 1));
        }
        start = start + 1;
    }
    proof {
        if start < n {
            assert(s@.skip(start as int)[0] == s@[start as int]);
        }
        assert(trim_front(s@.skip(start as int)) == s@.skip(start as int));
    }
    let tail = s.substring_char(start, n);
    proof {
        assert(tail@ =~= s@.skip(start as int));
    }
    let m: usize = tail.unicode_len();
    let mut end: usize = m;
    proof {
        assert(tail@.take(m as int) =~= tail@);
    }
    while end > 0 && tail.get_char(end - 1) == ' '
        invariant
            m == tail@.len(),
            end <= m,
            trim_back(tail@) == trim_back(tail@.take(end as int)),
        decreases end,
    {
        proof {
            assert(tail@.take(end as int).last() == tail@[end - 1]);
            assert(tail@.take(end as int).drop_last() =~= tail@.take(end - 1));
        }
        end = end - 1;
    }
    proof {
        if end > 0 {
            assert(tail@.take(end as int).last() == tail@[end - 1]);
        }
        assert(trim_back(tail@.take(end as int)) == tail@.take(end as int));
    }
    let trimmed = tail.substring_char(0, end);
    proof {
        assert(trimmed@ =~= tail@.take(end as int));
    }
    String::from_str(trimmed)
}

} // verus!
