//! Text helpers with exact specifications: conversion between `String` and
//! characters, decimal numbers, trimming, case folding and replacement.

use vstd::prelude::*;
use vstd::string::*;

verus! {

/// Appends one character to a `String`.
///
/// Wraps `String::push`, which std documents as "Appends the given char to the
/// end of this String"; the contract says exactly that.
#[verifier::external_body]
fn push_char(s: &mut String, c: char)
    ensures
        final(s)@ == old(s)@.push(c),
{
    s.push(c);
}

/// The characters of a string slice, in order.
pub fn chars_of(s: &str) -> (v: Vec<char>)
    ensures
        v@ == s@,
{
    let n = s.unicode_len();
    let mut v: Vec<char> = Vec::new();
    let mut i: usize = 0;
    while i < n
        invariant
            n == s@.len(),
            i <= n,
            v@ == s@.take(i as int),
        decreases n - i,
    {
        let c = s.get_char(i);
        v.push(c);
        i = i + 1;
        assert(v@ =~= s@.take(i as int));
    }
    assert(s@.take(n as int) =~= s@);
    v
}

/// A `String` holding the given characters.
pub fn string_of(v: &Vec<char>) -> (s: String)
    ensures
        s@ == v@,
{
    let mut s = String::new();
    let mut i: usize = 0;
    while i < v.len()
        invariant
            i <= v.len(),
            s@ == v@.take(i as int),
        decreases v.len() - i,
    {
        push_char(&mut s, v[i]);
        i = i + 1;
        assert(s@ =~= v@.take(i as int));
    }
    assert(v@.take(v.len() as int) =~= v@);
    s
}

/// A fresh `String` with the contents of a string slice.
pub fn owned(s: &str) -> (r: String)
    ensures
        r@ == s@,
{
    String::from_str(s)
}

/// Concatenation of two character sequences into a new `String`.
pub fn concat(a: &str, b: &str) -> (r: String)
    ensures
        r@ == a@ + b@,
{
    let mut r = String::from_str(a);
    r.append(b);
    r
}

/// Equality of two string slices, character by character.
pub fn str_eq(a: &str, b: &str) -> (r: bool)
    ensures
        r == (a@ == b@),
{
    let n = a.unicode_len();
    let m = b.unicode_len();
    if n != m {
        return false;
    }
    let mut i: usize = 0;
    while i < n
        invariant
            n == a@.len(),
            m == b@.len(),
            n == m,
            i <= n,
            forall|j: int| 0 <= j < i ==> a@[j] == b@[j],
        decreases n - i,
    {
        if a.get_char(i) != b.get_char(i) {
            return false;
        }
        i = i + 1;
    }
    assert(a@ =~= b@);
    true
}

/// Does `s` begin with `prefix`?
pub fn starts_with(s: &str, prefix: &str) -> (r: bool)
    ensures
        r == (prefix@.len() <= s@.len() && s@.take(prefix@.len() as int) == prefix@),
{
    let n = s.unicode_len();
    let m = prefix.unicode_len();
    if m > n {
        return false;
    }
    let mut i: usize = 0;
    while i < m
        invariant
            n == s@.len(),
            m == prefix@.len(),
            m <= n,
            i <= m,
            forall|j: int| 0 <= j < i ==> s@[j] == prefix@[j],
        decreases m - i,
    {
        if s.get_char(i) != prefix.get_char(i) {
            assert(s@.take(m as int)[i as int] != prefix@[i as int]);
            return false;
        }
        i = i + 1;
    }
    assert(s@.take(m as int) =~= prefix@);
    true
}

// ---------- decimal numbers ----------

/// The digit character for a value below ten.
pub open spec fn digit_char(d: nat) -> char
    recommends
        d < 10,
{
    if d == 0 {
        '0'
    } else if d == 1 {
        '1'
    } else if d == 2 {
        '2'
    } else if d == 3 {
        '3'
    } else if d == 4 {
        '4'
    } else if d == 5 {
        '5'
    } else if d == 6 {
        '6'
    } else if d == 7 {
        '7'
    } else if d == 8 {
        '8'
    } else {
        '9'
    }
}

/// The value of a digit character, if it is one of `0`..`9`.
pub open spec fn digit_value(c: char) -> Option<nat> {
    if '0' <= c && c <= '9' {
        Some((c as int - '0' as int) as nat)
    } else {
        None
    }
}

/// Decimal digits of a natural number, most significant first, no leading zeros.
pub open spec fn digits(n: nat) -> Seq<char>
    decreases n,
{
    if n < 10 {
        seq![digit_char(n)]
    } else {
        digits(n / 10).push(digit_char(n % 10))
    }
}

/// Decimal text of an integer as `Display` writes it: a minus sign for negative values.
pub open spec fn decimal(i: int) -> Seq<char> {
    if i < 0 {
        seq!['-'] + digits((-i) as nat)
    } else {
        digits(i as nat)
    }
}

/// Decimal text padded with zeros to at least two digits, as `{:02}` writes a
/// non-negative number.
pub open spec fn two_digits(n: nat) -> Seq<char> {
    if n < 10 {
        seq!['0', digit_char(n)]
    } else {
        digits(n)
    }
}

fn digit_char_exec(d: u64) -> (c: char)
    requires
        d < 10,
    ensures
        c == digit_char(d as nat),
{
    if d == 0 {
        '0'
    } else if d == 1 {
        '1'
    } else if d == 2 {
        '2'
    } else if d == 3 {
        '3'
    } else if d == 4 {
        '4'
    } else if d == 5 {
        '5'
    } else if d == 6 {
        '6'
    } else if d == 7 {
        '7'
    } else if d == 8 {
        '8'
    } else {
        '9'
    }
}

fn push_digits(out: &mut Vec<char>, n: u64)
    ensures
        final(out)@ == old(out)@ + digits(n as nat),
    decreases n,
{
    if n >= 10 {
        push_digits(out, n / 10);
    }
    let c = digit_char_exec(n % 10);
    out.push(c);
    assert(final(out)@ =~= old(out)@ + digits(n as nat));
}

/// Decimal text of a signed number.
pub fn int_text(i: i64) -> (s: String)
    ensures
        s@ == decimal(i as int),
{
    let mut v: Vec<char> = Vec::new();
    if i < 0 {
        v.push('-');
        let magnitude: u64 = (-(i as i128)) as u64;
        push_digits(&mut v, magnitude);
        assert(v@ =~= seq!['-'] + digits((-(i as int)) as nat));
    } else {
        push_digits(&mut v, i as u64);
        assert(v@ =~= digits(i as nat));
    }
    string_of(&v)
}

/// Decimal text of an unsigned number.
pub fn nat_text(n: u64) -> (s: String)
    ensures
        s@ == digits(n as nat),
{
    let mut v: Vec<char> = Vec::new();
    push_digits(&mut v, n);
    assert(v@ =~= digits(n as nat));
    string_of(&v)
}

/// Appends a number with at least two digits (`{:02}`).
pub fn push_two_digits(out: &mut Vec<char>, n: u64)
    ensures
        final(out)@ == old(out)@ + two_digits(n as nat),
{
    if n < 10 {
        out.push('0');
        let c = digit_char_exec(n);
        out.push(c);
        assert(final(out)@ =~= old(out)@ + two_digits(n as nat));
    } else {
        push_digits(out, n);
    }
}

/// Value of a sequence of digit characters (all of them digits).
pub open spec fn digits_value(s: Seq<char>) -> int
    decreases s.len(),
{
    if s.len() == 0 {
        0
    } else {
        digits_value(s.drop_last()) * 10 + match digit_value(s.last()) {
            Some(d) => d as int,
            None => 0,
        }
    }
}

pub open spec fn all_digits(s: Seq<char>) -> bool {
    forall|i: int| 0 <= i < s.len() ==> (#[trigger] digit_value(s[i])) is Some
}

/// The number that std's `FromStr` for integer types reads from `s`, before its
/// range check: an optional `+` (or `-` for signed types) followed by at least
/// one ASCII digit and nothing else.
pub open spec fn integer_text_value(s: Seq<char>, signed: bool) -> Option<int> {
    if s.len() == 0 {
        None
    } else if s.len() == 1 && (s[0] == '+' || s[0] == '-') {
        None
    } else if s[0] == '+' {
        if all_digits(s.skip(1)) {
            Some(digits_value(s.skip(1)))
        } else {
            None
        }
    } else if s[0] == '-' && signed {
        if all_digits(s.skip(1)) {
            Some(-digits_value(s.skip(1)))
        } else {
            None
        }
    } else if all_digits(s) {
        Some(digits_value(s))
    } else {
        None
    }
}

proof fn lemma_digit_char_value(d: nat)
    requires
        d < 10,
    ensures
        digit_value(digit_char(d)) == Some(d),
{
}

/// The digits of a number read back as that number.
pub proof fn lemma_digits_round_trip(n: nat)
    ensures
        digits(n).len() > 0,
        all_digits(digits(n)),
        digits_value(digits(n)) == n,
    decreases n,
{
    if n < 10 {
        lemma_digit_char_value(n);
        assert(digits(n).drop_last() =~= Seq::<char>::empty());
        assert(digits_value(Seq::<char>::empty()) == 0);
    } else {
        lemma_digits_round_trip(n / 10);
        lemma_digit_char_value(n % 10);
        let s = digits(n);
        assert(s.drop_last() =~= digits(n / 10));
        assert(digits_value(s) == digits_value(digits(n / 10)) * 10 + (n % 10) as int);
        assert forall|i: int| 0 <= i < s.len() implies (#[trigger] digit_value(s[i])) is Some by {
            if i < s.len() - 1 {
                assert(s[i] == digits(n / 10)[i]);
            }
        }
    }
}

/// `str::parse::<i64>` reads back what `Display` writes.
pub proof fn lemma_decimal_round_trip(i: int)
    requires
        i64::MIN <= i <= i64::MAX,
    ensures
        parsed_i64(decimal(i)) == Some(i as i64),
{
    if i < 0 {
        let m = (-i) as nat;
        lemma_digits_round_trip(m);
        let s = decimal(i);
        assert(s.skip(1) =~= digits(m));
    } else {
        lemma_digits_round_trip(i as nat);
        let s = digits(i as nat);
        assert(digit_value(s[0]) is Some);
    }
}

/// What `str::parse::<i64>` returns, as an option.
pub open spec fn parsed_i64(s: Seq<char>) -> Option<i64> {
    match integer_text_value(s, true) {
        Some(v) => if i64::MIN <= v <= i64::MAX {
            Some(v as i64)
        } else {
            None
        },
        None => None,
    }
}

/// What `str::parse::<u8>` returns, as an option.
pub open spec fn parsed_u8(s: Seq<char>) -> Option<u8> {
    match integer_text_value(s, false) {
        Some(v) => if 0 <= v <= 255 {
            Some(v as u8)
        } else {
            None
        },
        None => None,
    }
}

proof fn lemma_digits_value_nonneg(s: Seq<char>)
    ensures
        digits_value(s) >= 0,
    decreases s.len(),
{
    if s.len() > 0 {
        lemma_digits_value_nonneg(s.drop_last());
    }
}

proof fn lemma_digits_value_prefix(s: Seq<char>, k: int)
    requires
        0 <= k <= s.len(),
    ensures
        digits_value(s.take(k)) <= digits_value(s),
    decreases s.len() - k,
{
    if k < s.len() {
        lemma_digits_value_prefix(s, k + 1);
        assert(s.take(k + 1).drop_last() =~= s.take(k));
        lemma_digits_value_nonneg(s.take(k));
    } else {
        assert(s.take(k) =~= s);
    }
}

/// Reads the digits of `s` from index `from` on; `None` when a character is not
/// a digit or the value exceeds `u64::MAX`.
fn read_digits(s: &Vec<char>, from: usize) -> (r: Option<u64>)
    requires
        from <= s.len(),
    ensures
        match r {
            Some(v) => all_digits(s@.skip(from as int)) && v as int == digits_value(s@.skip(from as int)),
            None => !all_digits(s@.skip(from as int)) || digits_value(s@.skip(from as int)) > u64::MAX,
        },
{
    let ghost t = s@.skip(from as int);
    let mut acc: u64 = 0;
    let mut i: usize = from;
    while i < s.len()
        invariant
            from <= i <= s.len(),
            t == s@.skip(from as int),
            all_digits(t.take(i - from)),
            acc as int == digits_value(t.take(i - from)),
        decreases s.len() - i,
    {
        let c = s[i];
        assert(t[i - from] == c);
        if c < '0' || c > '9' {
            assert(digit_value(t[i - from]) is None);
            return None;
        }
        let d: u64 = (c as u32 - '0' as u32) as u64;
        assert(t.take(i + 1 - from).drop_last() =~= t.take(i - from));
        let next = acc.checked_mul(10);
        match next {
            None => {
                proof {
                    lemma_digits_value_prefix(t, i + 1 - from);
                    lemma_digits_value_nonneg(t.take(i - from));
                }
                return None;
            },
            Some(m) => {
                match m.checked_add(d) {
                    None => {
                        proof {
                            lemma_digits_value_prefix(t, i + 1 - from);
                        }
                        return None;
                    },
                    Some(v) => {
                        acc = v;
                    },
                }
            },
        }
        i = i + 1;
        assert(all_digits(t.take(i - from)));
    }
    assert(t.take(i - from) =~= t);
    Some(acc)
}

/// std's `str::parse::<i64>`, with the error turned into `None`.
pub fn parse_i64(text: &str) -> (r: Option<i64>)
    ensures
        r == parsed_i64(text@),
{
    let s = chars_of(text);
    let n = s.len();
    if n == 0 {
        return None;
    }
    if n == 1 && (s[0] == '+' || s[0] == '-') {
        return None;
    }
    if s[0] == '+' || s[0] == '-' {
        let negative = s[0] == '-';
        match read_digits(&s, 1) {
            None => {
                proof { lemma_digits_value_nonneg(s@.skip(1)); }
                None
            },
            Some(v) => {
                if negative {
                    if v <= 9223372036854775808u64 {
                        Some((-(v as i128)) as i64)
                    } else {
                        None
                    }
                } else {
                    if v <= 9223372036854775807u64 {
                        Some(v as i64)
                    } else {
                        None
                    }
                }
            },
        }
    } else {
        assert(s@.skip(0) =~= s@);
        match read_digits(&s, 0) {
            None => None,
            Some(v) => {
                if v <= 9223372036854775807u64 {
                    Some(v as i64)
                } else {
                    None
                }
            },
        }
    }
}

/// std's `str::parse::<u8>`, with the error turned into `None`.
pub fn parse_u8(text: &str) -> (r: Option<u8>)
    ensures
        r == parsed_u8(text@),
{
    let s = chars_of(text);
    let n = s.len();
    if n == 0 {
        return None;
    }
    if n == 1 && (s[0] == '+' || s[0] == '-') {
        return None;
    }
    if s[0] == '+' {
        match read_digits(&s, 1) {
            None => {
                proof { lemma_digits_value_nonneg(s@.skip(1)); }
                None
            },
            Some(v) => if v <= 255 {
                Some(v as u8)
            } else {
                None
            },
        }
    } else {
        assert(s@.skip(0) =~= s@);
        match read_digits(&s, 0) {
            None => {
                proof { lemma_digits_value_nonneg(s@); }
                None
            },
            Some(v) => if v <= 255 {
                Some(v as u8)
            } else {
                None
            },
        }
    }
}

} // verus!

verus! {

// ---------- whitespace, case, replacement ----------

/// The Unicode `White_Space` property, which `char::is_whitespace` and
/// `str::trim` use: U+0009..U+000D, U+0020, U+0085, U+00A0, U+1680,
/// U+2000..U+200A, U+2028, U+2029, U+202F, U+205F, U+3000.
pub open spec fn white_space(c: char) -> bool {
    let u = c as u32;
    (0x9 <= u && u <= 0xD) || u == 0x20 || u == 0x85 || u == 0xA0 || u == 0x1680 || (0x2000 <= u
        && u <= 0x200A) || u == 0x2028 || u == 0x2029 || u == 0x202F || u == 0x205F || u == 0x3000
}

pub fn is_white_space(c: char) -> (r: bool)
    ensures
        r == white_space(c),
{
    let u = c as u32;
    (0x9 <= u && u <= 0xD) || u == 0x20 || u == 0x85 || u == 0xA0 || u == 0x1680 || (0x2000 <= u
        && u <= 0x200A) || u == 0x2028 || u == 0x2029 || u == 0x202F || u == 0x205F || u == 0x3000
}

/// Index of the first character that is not white space (or the length).
pub open spec fn first_non_space(s: Seq<char>, i: int) -> int
    decreases s.len() - i,
{
    if i >= s.len() || i < 0 {
        i
    } else if white_space(s[i]) {
        first_non_space(s, i + 1)
    } else {
        i
    }
}

/// One past the last character that is not white space, searching down from `j`.
pub open spec fn last_non_space(s: Seq<char>, lo: int, j: int) -> int
    decreases j - lo,
{
    if j <= lo {
        lo
    } else if white_space(s[j - 1]) {
        last_non_space(s, lo, j - 1)
    } else {
        j
    }
}

/// `str::trim`: the text without leading and trailing white space.
pub open spec fn trimmed(s: Seq<char>) -> Seq<char> {
    let a = first_non_space(s, 0);
    s.subrange(a, last_non_space(s, a, s.len() as int))
}

proof fn lemma_first_non_space_range(s: Seq<char>, i: int)
    requires
        0 <= i <= s.len(),
    ensures
        i <= first_non_space(s, i) <= s.len(),
    decreases s.len() - i,
{
    if i < s.len() && white_space(s[i]) {
        lemma_first_non_space_range(s, i + 1);
    }
}

proof fn lemma_last_non_space_range(s: Seq<char>, lo: int, j: int)
    requires
        0 <= lo <= j <= s.len(),
    ensures
        lo <= last_non_space(s, lo, j) <= j,
    decreases j - lo,
{
    if j > lo && white_space(s[j - 1]) {
        lemma_last_non_space_range(s, lo, j - 1);
    }
}

/// `str::trim`.
pub fn trim(text: &str) -> (r: String)
    ensures
        r@ == trimmed(text@),
{
    let s = chars_of(text);
    let n = s.len();
    let mut a: usize = 0;
    while a < n && is_white_space(s[a])
        invariant
            a <= n,
            n == s@.len(),
            first_non_space(s@, 0) == first_non_space(s@, a as int),
        decreases n - a,
    {
        a = a + 1;
    }
    let mut b: usize = n;
    proof { lemma_first_non_space_range(s@, a as int); }
    while b > a && is_white_space(s[b - 1])
        invariant
            a <= b <= n,
            n == s@.len(),
            last_non_space(s@, a as int, n as int) == last_non_space(s@, a as int, b as int),
        decreases b - a,
    {
        b = b - 1;
    }
    let mut out: Vec<char> = Vec::new();
    let mut k: usize = a;
    while k < b
        invariant
            a <= k <= b <= n,
            n == s@.len(),
            out@ == s@.subrange(a as int, k as int),
        decreases b - k,
    {
        out.push(s[k]);
        k = k + 1;
        assert(out@ =~= s@.subrange(a as int, k as int));
    }
    string_of(&out)
}

/// ASCII lower case of one character (`char::to_ascii_lowercase`).
pub open spec fn lower_ascii(c: char) -> char {
    if 'A' <= c && c <= 'Z' {
        ((c as u32) + 32) as char
    } else {
        c
    }
}

pub open spec fn lower_ascii_text(s: Seq<char>) -> Seq<char> {
    s.map_values(|c: char| lower_ascii(c))
}

pub fn lower_ascii_char(c: char) -> (r: char)
    ensures
        r == lower_ascii(c),
{
    if 'A' <= c && c <= 'Z' {
        let u = ((c as u32) + 32) as u8;
        assert(0x61 <= u <= 0x7a);
        u as char
    } else {
        c
    }
}

/// `str::to_ascii_lowercase`.
pub fn to_ascii_lowercase(text: &str) -> (r: String)
    ensures
        r@ == lower_ascii_text(text@),
{
    let s = chars_of(text);
    let mut out: Vec<char> = Vec::new();
    let mut i: usize = 0;
    while i < s.len()
        invariant
            i <= s.len(),
            out@ == lower_ascii_text(s@.take(i as int)),
        decreases s.len() - i,
    {
        let c = lower_ascii_char(s[i]);
        out.push(c);
        i = i + 1;
        assert(out@ =~= lower_ascii_text(s@.take(i as int)));
    }
    assert(s@.take(s.len() as int) =~= s@);
    string_of(&out)
}

/// Does the pattern `p` occur in `s` at position `i`?
pub open spec fn occurs_at(s: Seq<char>, p: Seq<char>, i: int) -> bool {
    0 <= i && i + p.len() <= s.len() && s.subrange(i, i + p.len()) == p
}

/// Does `p` occur anywhere in `s`?
pub open spec fn contains_text(s: Seq<char>, p: Seq<char>) -> bool {
    exists|i: int| occurs_at(s, p, i)
}

/// `str::replace`: every occurrence of the (non-empty) pattern, taken from the
/// left without overlaps, is replaced.
pub open spec fn replaced(s: Seq<char>, p: Seq<char>, r: Seq<char>) -> Seq<char>
    recommends
        p.len() > 0,
    decreases s.len(),
{
    if p.len() == 0 || s.len() < p.len() {
        s
    } else if s.take(p.len() as int) == p {
        r + replaced(s.skip(p.len() as int), p, r)
    } else {
        seq![s[0]] + replaced(s.skip(1), p, r)
    }
}

fn occurs_at_exec(s: &Vec<char>, p: &Vec<char>, i: usize) -> (r: bool)
    ensures
        r == occurs_at(s@, p@, i as int),
{
    if p.len() > s.len() || i > s.len() - p.len() {
        return false;
    }
    let mut j: usize = 0;
    while j < p.len()
        invariant
            i + p.len() <= s.len(),
            j <= p.len(),
            forall|k: int| 0 <= k < j ==> s@[i + k] == p@[k],
        decreases p.len() - j,
    {
        if s[i + j] != p[j] {
            assert(s@.subrange(i as int, i + p.len())[j as int] != p@[j as int]);
            return false;
        }
        j = j + 1;
    }
    assert(s@.subrange(i as int, i + p.len()) =~= p@);
    true
}

/// Does `p` occur in `s` (`str::contains`)?
pub fn contains_str(s: &str, p: &str) -> (r: bool)
    ensures
        r == contains_text(s@, p@),
{
    let sv = chars_of(s);
    let pv = chars_of(p);
    if pv.len() == 0 {
        assert(occurs_at(s@, p@, 0)) by {
            assert(s@.subrange(0, 0) =~= p@);
        }
        return true;
    }
    if pv.len() > sv.len() {
        proof {
            assert forall|i: int| !occurs_at(s@, p@, i) by {}
        }
        return false;
    }
    let last = sv.len() - pv.len();
    let mut i: usize = 0;
    while i <= last
        invariant
            last == sv.len() - pv.len(),
            0 < pv.len() <= sv.len(),
            sv@ == s@,
            pv@ == p@,
            forall|j: int| 0 <= j < i ==> !occurs_at(s@, p@, j),
        decreases last + 1 - i,
    {
        if occurs_at_exec(&sv, &pv, i) {
            return true;
        }
        i = i + 1;
    }
    assert forall|j: int| !occurs_at(s@, p@, j) by {
        if 0 <= j < i {
        }
    }
    false
}

/// Replacement on character vectors.
pub fn replace_chars(s: &Vec<char>, p: &Vec<char>, r: &Vec<char>) -> (out: Vec<char>)
    requires
        p.len() > 0,
    ensures
        out@ == replaced(s@, p@, r@),
{
    let mut out: Vec<char> = Vec::new();
    let mut i: usize = 0;
    assert(s@.skip(0) =~= s@);
    while i < s.len()
        invariant
            i <= s.len(),
            p@.len() > 0,
            out@ + replaced(s@.skip(i as int), p@, r@) == replaced(s@, p@, r@),
        decreases s.len() - i,
    {
        let ghost rest = s@.skip(i as int);
        let ghost before = out@;
        if occurs_at_exec(s, p, i) {
            assert(rest.take(p.len() as int) =~= s@.subrange(i as int, i + p.len()));
            assert(rest.skip(p.len() as int) =~= s@.skip(i + p.len()));
            let mut k: usize = 0;
            while k < r.len()
                invariant
                    k <= r.len(),
                    out@ == before + r@.take(k as int),
                decreases r.len() - k,
            {
                out.push(r[k]);
                k = k + 1;
                assert(out@ =~= before + r@.take(k as int));
            }
            assert(r@.take(r.len() as int) =~= r@);
            i = i + p.len();
            assert(out@ + replaced(s@.skip(i as int), p@, r@) =~= before + replaced(rest, p@, r@));
        } else {
            out.push(s[i]);
            assert(rest.skip(1) =~= s@.skip(i + 1));
            proof {
                if rest.len() < p@.len() {
                    assert(s@.skip(i + 1).len() < p.len());
                    assert(replaced(rest, p@, r@) == rest);
                    assert(replaced(s@.skip(i + 1), p@, r@) == s@.skip(i + 1));
                    assert(before + rest =~= out@ + s@.skip(i + 1));
                } else {
                    assert(rest.take(p.len() as int) != p@) by {
                        assert(rest.take(p.len() as int) =~= s@.subrange(i as int, i + p.len()));
                    }
                    assert(replaced(rest, p@, r@) == seq![rest[0]] + replaced(rest.skip(1), p@, r@));
                    assert(before + replaced(rest, p@, r@) =~= out@ + replaced(s@.skip(i + 1), p@, r@));
                }
            }
            i = i + 1;
        }
    }
    assert(s@.skip(s.len() as int).len() == 0);
    assert(replaced(s@.skip(s.len() as int), p@, r@) =~= Seq::<char>::empty());
    assert(out@ + Seq::<char>::empty() =~= out@);
    out
}

} // verus!
