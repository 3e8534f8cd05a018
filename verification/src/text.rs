//! Character-level string operations with exact specifications over `Seq<char>`.
use vstd::prelude::*;
use vstd::string::*;

verus! {

/// Appends one character to a string (`String::push`).
#[verifier::external_body]
pub fn push_char(s: &mut String, c: char)
    ensures
        final(s)@ == old(s)@.push(c),
{
    s.push(c)
}

/// An owned copy of a string slice.
pub fn owned(s: &str) -> (r: String)
    ensures
        r@ == s@,
{
    s.to_owned()
}

/// `a` followed by `b`.
pub fn cat(a: &str, b: &str) -> (r: String)
    ensures
        r@ == a@ + b@,
{
    let mut r = owned(a);
    r.append(b);
    r
}

/// `a`, `b` and `c` joined.
pub fn cat3(a: &str, b: &str, c: &str) -> (r: String)
    ensures
        r@ == a@ + b@ + c@,
{
    let mut r = owned(a);
    r.append(b);
    r.append(c);
    r
}

/// A copy of a list of strings.
pub fn copy_strings(v: &Vec<String>) -> (r: Vec<String>)
    ensures
        r@ == v@,
{
    let mut r: Vec<String> = Vec::new();
    let mut i: usize = 0;
    while i < v.len()
        invariant
            i <= v@.len(),
            r@ == v@.subrange(0, i as int),
        decreases v.len() - i,
    {
        r.push(v[i].clone());
        assert(r@ =~= v@.subrange(0, i + 1));
        i = i + 1;
    }
    assert(v@.subrange(0, v@.len() as int) =~= v@);
    r
}

/// The character sequences of a list of strings.
pub open spec fn strings_view(v: Seq<String>) -> Seq<Seq<char>> {
    v.map_values(|s: String| s@)
}

pub open spec fn is_digit(c: char) -> bool {
    '0' <= c && c <= '9'
}

pub open spec fn is_ascii_alpha(c: char) -> bool {
    ('a' <= c && c <= 'z') || ('A' <= c && c <= 'Z')
}

pub open spec fn is_ascii_alnum(c: char) -> bool {
    is_digit(c) || is_ascii_alpha(c)
}

/// Unicode `White_Space`, as `char::is_whitespace` decides it.
pub open spec fn is_space(c: char) -> bool {
    ||| ('\t' <= c && c <= '\r')
    ||| c == ' '
    ||| c == '\u{85}'
    ||| c == '\u{a0}'
    ||| c == '\u{1680}'
    ||| ('\u{2000}' <= c && c <= '\u{200a}')
    ||| c == '\u{2028}'
    ||| c == '\u{2029}'
    ||| c == '\u{202f}'
    ||| c == '\u{205f}'
    ||| c == '\u{3000}'
}

pub open spec fn lower_char(c: char) -> char {
    if 'A' <= c && c <= 'Z' {
        ((c as u32) + 32) as char
    } else {
        c
    }
}

pub open spec fn lower(s: Seq<char>) -> Seq<char> {
    s.map_values(|c: char| lower_char(c))
}

pub fn char_is_digit(c: char) -> (r: bool)
    ensures
        r == is_digit(c),
{
    '0' <= c && c <= '9'
}

pub fn char_is_alnum(c: char) -> (r: bool)
    ensures
        r == is_ascii_alnum(c),
{
    ('0' <= c && c <= '9') || ('a' <= c && c <= 'z') || ('A' <= c && c <= 'Z')
}

pub fn char_is_space(c: char) -> (r: bool)
    ensures
        r == is_space(c),
{
    ('\t' <= c && c <= '\r') || c == ' ' || c == '\u{85}' || c == '\u{a0}' || c == '\u{1680}'
        || ('\u{2000}' <= c && c <= '\u{200a}') || c == '\u{2028}' || c == '\u{2029}' || c
        == '\u{202f}' || c == '\u{205f}' || c == '\u{3000}'
}

pub fn char_lower(c: char) -> (r: char)
    ensures
        r == lower_char(c),
{
    if 'A' <= c && c <= 'Z' {
        let code: u32 = c as u32;
        let lowered: u8 = (code + 32) as u8;
        lowered as char
    } else {
        c
    }
}

/// Character-wise equality of two strings.
pub fn str_eq(a: &str, b: &str) -> (r: bool)
    ensures
        r == (a@ == b@),
{
    let n = a.unicode_len();
    if n != b.unicode_len() {
        return false;
    }
    let mut i: usize = 0;
    while i < n
        invariant
            n == a@.len(),
            n == b@.len(),
            i <= n,
            forall|j: int| 0 <= j < i ==> a@[j] == b@[j],
        decreases n - i,
    {
        if a.get_char(i) != b.get_char(i) {
            return false;
        }
        i = i + 1;
    }
    assert(a@ =~= b@);
    true
}

pub open spec fn starts_with(s: Seq<char>, p: Seq<char>) -> bool {
    p.len() <= s.len() && s.subrange(0, p.len() as int) == p
}

pub open spec fn ends_with(s: Seq<char>, p: Seq<char>) -> bool {
    p.len() <= s.len() && s.subrange(s.len() - p.len(), s.len() as int) == p
}

/// `s` begins with `p`.
pub fn str_starts_with(s: &str, p: &str) -> (r: bool)
    ensures
        r == starts_with(s@, p@),
{
    let n = s.unicode_len();
    let m = p.unicode_len();
    if m > n {
        return false;
    }
    let mut i: usize = 0;
    while i < m
        invariant
            n == s@.len(),
            m == p@.len(),
            m <= n,
            i <= m,
            forall|j: int| 0 <= j < i ==> s@[j] == p@[j],
        decreases m - i,
    {
        if s.get_char(i) != p.get_char(i) {
            assert(s@.subrange(0, m as int)[i as int] != p@[i as int]);
            return false;
        }
        i = i + 1;
    }
    assert(s@.subrange(0, m as int) =~= p@);
    true
}

/// `s` ends with `p`.
pub fn str_ends_with(s: &str, p: &str) -> (r: bool)
    ensures
        r == ends_with(s@, p@),
{
    let n = s.unicode_len();
    let m = p.unicode_len();
    if m > n {
        return false;
    }
    let off = n - m;
    let mut i: usize = 0;
    while i < m
        invariant
            n == s@.len(),
            m == p@.len(),
            m <= n,
            off == n - m,
            i <= m,
            forall|j: int| 0 <= j < i ==> s@[off + j] == p@[j],
        decreases m - i,
    {
        if s.get_char(off + i) != p.get_char(i) {
            assert(s@.subrange(off as int, n as int)[i as int] != p@[i as int]);
            return false;
        }
        i = i + 1;
    }
    assert(s@.subrange(off as int, n as int) =~= p@);
    true
}

/// The first character of `s` is `c`.
pub fn first_char_is(s: &str, c: char) -> (r: bool)
    ensures
        r == (s@.len() > 0 && s@[0] == c),
{
    if s.unicode_len() == 0 {
        false
    } else {
        s.get_char(0) == c
    }
}

pub fn find_char(s: &str, c: char) -> (r: Option<usize>)
    ensures
        match r {
            Some(i) => i < s@.len() && s@[i as int] == c && forall|j: int| 0 <= j < i ==> s@[j] != c,
            None => forall|j: int| 0 <= j < s@.len() ==> s@[j] != c,
        },
{
    let n = s.unicode_len();
    let mut i: usize = 0;
    while i < n
        invariant
            n == s@.len(),
            i <= n,
            forall|j: int| 0 <= j < i ==> s@[j] != c,
        decreases n - i,
    {
        if s.get_char(i) == c {
            return Some(i);
        }
        i = i + 1;
    }
    None
}

/// `s` holds `c` somewhere.
pub fn contains_char(s: &str, c: char) -> (r: bool)
    ensures
        r == s@.contains(c),
{
    match find_char(s, c) {
        Some(i) => {
            assert(s@[i as int] == c);
            true
        },
        None => false,
    }
}

/// Number of occurrences of `c`.
pub open spec fn count_char(s: Seq<char>, c: char) -> nat
    decreases s.len(),
{
    if s.len() == 0 {
        0
    } else {
        count_char(s.drop_last(), c) + if s.last() == c {
            1nat
        } else {
            0nat
        }
    }
}

pub fn char_count(s: &str, c: char) -> (r: usize)
    ensures
        r == count_char(s@, c),
{
    let n = s.unicode_len();
    let mut i: usize = 0;
    let mut k: usize = 0;
    while i < n
        invariant
            n == s@.len(),
            i <= n,
            k == count_char(s@.subrange(0, i as int), c),
            k <= i,
        decreases n - i,
    {
        assert(s@.subrange(0, i + 1).drop_last() =~= s@.subrange(0, i as int));
        if s.get_char(i) == c {
            k = k + 1;
        }
        i = i + 1;
    }
    assert(s@.subrange(0, n as int) =~= s@);
    k
}

/// `needle` occurs in `s` starting at `i`.
pub open spec fn occurs_at(s: Seq<char>, needle: Seq<char>, i: int) -> bool {
    0 <= i && i + needle.len() <= s.len() && s.subrange(i, i + needle.len()) == needle
}

pub open spec fn contains_str(s: Seq<char>, needle: Seq<char>) -> bool {
    exists|i: int| occurs_at(s, needle, i)
}

fn occurs_at_exec(s: &str, n: usize, needle: &str, m: usize, i: usize) -> (r: bool)
    requires
        n == s@.len(),
        m == needle@.len(),
        i + m <= n,
    ensures
        r == occurs_at(s@, needle@, i as int),
{
    let mut j: usize = 0;
    while j < m
        invariant
            n == s@.len(),
            m == needle@.len(),
            i + m <= n,
            j <= m,
            forall|k: int| 0 <= k < j ==> s@[i + k] == needle@[k],
        decreases m - j,
    {
        if s.get_char(i + j) != needle.get_char(j) {
            assert(s@.subrange(i as int, i + m)[j as int] != needle@[j as int]);
            return false;
        }
        j = j + 1;
    }
    assert(s@.subrange(i as int, i + m) =~= needle@);
    true
}

/// Index of the first occurrence of `needle` in `s`.
pub fn find_str(s: &str, needle: &str) -> (r: Option<usize>)
    ensures
        match r {
            Some(i) => occurs_at(s@, needle@, i as int) && forall|j: int|
                0 <= j < i ==> !occurs_at(s@, needle@, j),
            None => !contains_str(s@, needle@),
        },
{
    let n = s.unicode_len();
    let m = needle.unicode_len();
    if m > n {
        return None;
    }
    if m == 0 {
        assert(s@.subrange(0, 0) =~= needle@);
        return Some(0);
    }
    let mut i: usize = 0;
    while i <= n - m
        invariant
            n == s@.len(),
            m == needle@.len(),
            1 <= m <= n,
            i <= n - m + 1,
            forall|j: int| 0 <= j < i ==> !occurs_at(s@, needle@, j),
        decreases n - m + 1 - i,
    {
        if occurs_at_exec(s, n, needle, m, i) {
            return Some(i);
        }
        i = i + 1;
    }
    None
}

/// `s` holds `needle` somewhere.
pub fn str_contains(s: &str, needle: &str) -> (r: bool)
    ensures
        r == contains_str(s@, needle@),
{
    find_str(s, needle).is_some()
}

/// The characters of `s` from `from` up to `to`, as a new string.
pub fn slice(s: &str, from: usize, to: usize) -> (r: String)
    requires
        from <= to <= s@.len(),
    ensures
        r@ == s@.subrange(from as int, to as int),
{
    owned(s.substring_char(from, to))
}

/// Splits `s` at the first `c`: the parts before and after it.
pub fn split_once(s: &str, c: char) -> (r: Option<(String, String)>)
    ensures
        match r {
            Some((a, b)) => exists|i: int|
                0 <= i < s@.len() && s@[i] == c && (forall|j: int| 0 <= j < i ==> s@[j] != c)
                    && a@ == s@.subrange(0, i) && b@ == s@.subrange(i + 1, s@.len() as int),
            None => !s@.contains(c),
        },
{
    match find_char(s, c) {
        Some(i) => {
            let n = s.unicode_len();
            Some((slice(s, 0, i), slice(s, i + 1, n)))
        },
        None => None,
    }
}

/// Leading and trailing whitespace removed.
pub open spec fn trim_start_index(s: Seq<char>) -> int
    decreases s.len(),
{
    if s.len() > 0 && is_space(s[0]) {
        1 + trim_start_index(s.subrange(1, s.len() as int))
    } else {
        0
    }
}

#[verifier::opaque]
pub open spec fn trim_spec(s: Seq<char>) -> Seq<char> {
    let a = first_non_space(s);
    let b = last_non_space_end(s);
    if a < b {
        s.subrange(a, b)
    } else {
        Seq::empty()
    }
}

/// Index of the first non-whitespace character (or the length).
pub open spec fn first_non_space(s: Seq<char>) -> int {
    if exists|i: int| 0 <= i < s.len() && !is_space(s[i]) {
        choose|i: int|
            0 <= i < s.len() && !is_space(s[i]) && forall|j: int| 0 <= j < i ==> is_space(s[j])
    } else {
        s.len() as int
    }
}

/// One past the last non-whitespace character (or zero).
pub open spec fn last_non_space_end(s: Seq<char>) -> int {
    if exists|i: int| 0 <= i < s.len() && !is_space(s[i]) {
        1 + choose|i: int|
            0 <= i < s.len() && !is_space(s[i]) && forall|j: int| i < j < s.len() ==> is_space(s[j])
    } else {
        0
    }
}

pub fn trim(s: &str) -> (r: String)
    ensures
        r@ == trim_spec(s@),
{
    reveal(trim_spec);
    let n = s.unicode_len();
    let mut a: usize = 0;
    while a < n && char_is_space(s.get_char(a))
        invariant
            n == s@.len(),
            a <= n,
            forall|j: int| 0 <= j < a ==> is_space(s@[j]),
        decreases n - a,
    {
        a = a + 1;
    }
    if a == n {
        assert(!(exists|i: int| 0 <= i < s@.len() && !is_space(s@[i])));
        return String::new();
    }
    assert(!is_space(s@[a as int]));
    let mut b: usize = n;
    while b > a && char_is_space(s.get_char(b - 1))
        invariant
            n == s@.len(),
            a < n,
            !is_space(s@[a as int]),
            a <= b <= n,
            forall|j: int| b <= j < n ==> is_space(s@[j]),
        decreases b,
    {
        b = b - 1;
    }
    proof {
        assert(b > a);
        let fa = first_non_space(s@);
        assert(0 <= a < s@.len() && !is_space(s@[a as int]));
        assert(fa == a) by {
            let w = choose|i: int|
                0 <= i < s@.len() && !is_space(s@[i]) && forall|j: int| 0 <= j < i ==> is_space(s@[j]);
            assert(0 <= w < s@.len() && !is_space(s@[w]) && forall|j: int| 0 <= j < w ==> is_space(s@[j]));
            if w < a {
            } else if w > a {
            }
        }
        let lb = last_non_space_end(s@);
        let last = (b - 1) as int;
        assert(0 <= last < s@.len() && !is_space(s@[last]));
        assert(lb == b) by {
            let w = choose|i: int|
                0 <= i < s@.len() && !is_space(s@[i]) && forall|j: int| i < j < s@.len() ==> is_space(s@[j]);
            assert(0 <= w < s@.len() && !is_space(s@[w]) && forall|j: int| w < j < s@.len() ==> is_space(s@[j]));
            if w < last {
            } else if w > last {
            }
        }
    }
    slice(s, a, b)
}

/// ASCII letters lowered, everything else kept.
pub fn to_lower(s: &str) -> (r: String)
    ensures
        r@ == lower(s@),
{
    let n = s.unicode_len();
    let mut r = String::new();
    let mut i: usize = 0;
    while i < n
        invariant
            n == s@.len(),
            i <= n,
            r@ == lower(s@.subrange(0, i as int)),
        decreases n - i,
    {
        let c = char_lower(s.get_char(i));
        push_char(&mut r, c);
        assert(lower(s@.subrange(0, i + 1)) =~= lower(s@.subrange(0, i as int)).push(c));
        i = i + 1;
    }
    assert(s@.subrange(0, n as int) =~= s@);
    r
}

/// Value of a sequence of decimal digits, most significant first.
pub open spec fn digits_value(s: Seq<char>) -> nat
    decreases s.len(),
{
    if s.len() == 0 {
        0
    } else {
        digits_value(s.drop_last()) * 10 + ((s.last() as int) - ('0' as int)) as nat
    }
}

pub open spec fn all_digits(s: Seq<char>) -> bool {
    forall|i: int| 0 <= i < s.len() ==> is_digit(#[trigger] s[i])
}

/// The digit part of an unsigned integer literal: an optional leading `+` is dropped.
pub open spec fn unsigned_digits(s: Seq<char>) -> Seq<char> {
    if s.len() > 1 && s[0] == '+' {
        s.subrange(1, s.len() as int)
    } else {
        s
    }
}

/// What `str::parse` gives for an unsigned integer type whose largest value is `max`.
pub open spec fn parse_unsigned_spec(s: Seq<char>, max: nat) -> Option<nat> {
    let d = unsigned_digits(s);
    if d.len() > 0 && all_digits(d) && digits_value(d) <= max {
        Some(digits_value(d))
    } else {
        None
    }
}

/// Parses a decimal integer the way `str::parse` does for an unsigned type with largest value `max`.
pub fn parse_unsigned(s: &str, max: u64) -> (r: Option<u64>)
    requires
        max >= 9,
    ensures
        match parse_unsigned_spec(s@, max as nat) {
            Some(v) => r == Some(v as u64),
            None => r.is_none(),
        },
{
    let n = s.unicode_len();
    let mut start: usize = 0;
    if n > 1 && s.get_char(0) == '+' {
        start = 1;
    }
    let ghost d = unsigned_digits(s@);
    assert(d =~= s@.subrange(start as int, n as int));
    if start == n {
        return None;
    }
    let mut acc: u64 = 0;
    let mut over = false;
    let mut i: usize = start;
    while i < n
        invariant
            n == s@.len(),
            max >= 9,
            start < n,
            start <= i <= n,
            d == s@.subrange(start as int, n as int),
            d == unsigned_digits(s@),
            forall|j: int| start <= j < i ==> is_digit(s@[j]),
            !over ==> acc == digits_value(s@.subrange(start as int, i as int)),
            !over ==> acc <= max,
            over ==> digits_value(s@.subrange(start as int, i as int)) > max,
        decreases n - i,
    {
        let c = s.get_char(i);
        if !char_is_digit(c) {
            assert(d[i - start] == c);
            assert(!is_digit(d[i - start]));
            assert(!all_digits(d));
            return None;
        }
        let ghost prev = s@.subrange(start as int, i as int);
        let ghost next = s@.subrange(start as int, i + 1);
        assert(next.drop_last() =~= prev);
        assert(next.last() == c);
        let dv: u64 = ((c as u32) - ('0' as u32)) as u64;
        if !over {
            if acc > (max - dv) / 10 {
                over = true;
                assert(digits_value(next) == digits_value(prev) * 10 + dv);
                assert(acc * 10 + dv > max) by (nonlinear_arith)
                    requires
                        acc > (max - dv) / 10,
                        dv <= 9,
                        dv <= max || true,
                ;
            } else {
                assert(acc * 10 + dv <= max) by (nonlinear_arith)
                    requires
                        acc <= (max - dv) / 10,
                        dv <= max,
                ;
                acc = acc * 10 + dv;
            }
        } else {
            assert(digits_value(next) >= digits_value(prev) * 10);
            assert(digits_value(prev) * 10 >= digits_value(prev)) by (nonlinear_arith);
        }
        i = i + 1;
    }
    assert(s@.subrange(start as int, n as int) =~= d);
    if over {
        None
    } else {
        Some(acc)
    }
}

/// The decimal digits of `v`, most significant first, without leading zeros.
pub open spec fn decimal(v: nat) -> Seq<char>
    decreases v,
{
    if v < 10 {
        seq![(('0' as nat) + v) as char]
    } else {
        decimal(v / 10).push((('0' as nat) + (v % 10)) as char)
    }
}

/// The decimal representation of `v`.
pub fn u64_to_decimal(v: u64) -> (r: String)
    ensures
        r@ == decimal(v as nat),
    decreases v,
{
    let digit: u32 = (v % 10) as u32;
    let c: char = char_from_digit(digit);
    if v < 10 {
        let mut r = String::new();
        push_char(&mut r, c);
        assert(r@ =~= decimal(v as nat));
        r
    } else {
        let mut r = u64_to_decimal(v / 10);
        push_char(&mut r, c);
        r
    }
}

/// The decimal representation of a 128-bit `v`.
pub fn u128_to_decimal(v: u128) -> (r: String)
    ensures
        r@ == decimal(v as nat),
    decreases v,
{
    let digit: u32 = (v % 10) as u32;
    let c: char = char_from_digit(digit);
    if v < 10 {
        let mut r = String::new();
        push_char(&mut r, c);
        assert(r@ =~= decimal(v as nat));
        r
    } else {
        let mut r = u128_to_decimal(v / 10);
        push_char(&mut r, c);
        r
    }
}

/// The character of a decimal digit.
pub fn char_from_digit(d: u32) -> (c: char)
    requires
        d < 10,
    ensures
        c == (('0' as nat) + d) as char,
{
    let code: u8 = (48 + d) as u8;
    code as char
}


/// `s` cut at every `c`: the pieces between the separators, in order, empty
/// pieces included.
pub open spec fn split_spec(s: Seq<char>, c: char) -> Seq<Seq<char>>
    decreases s.len(),
{
    if s.len() == 0 {
        seq![Seq::<char>::empty()]
    } else {
        let p = split_spec(s.drop_last(), c);
        if s.last() == c {
            p.push(Seq::<char>::empty())
        } else {
            p.update(p.len() - 1, p.last().push(s.last()))
        }
    }
}

pub proof fn lemma_split_nonempty(s: Seq<char>, c: char)
    ensures
        split_spec(s, c).len() >= 1,
    decreases s.len(),
{
    if s.len() > 0 {
        lemma_split_nonempty(s.drop_last(), c);
    }
}

/// Splits `s` at every `c` (`str::split` with a character).
pub fn split_char(s: &str, c: char) -> (r: Vec<String>)
    ensures
        strings_view(r@) == split_spec(s@, c),
{
    let n = s.unicode_len();
    let mut pieces: Vec<String> = Vec::new();
    let mut cur = String::new();
    let mut i: usize = 0;
    assert(s@.subrange(0, 0) =~= Seq::<char>::empty());
    assert(strings_view(pieces@).push(cur@) =~= split_spec(Seq::<char>::empty(), c));
    while i < n
        invariant
            n == s@.len(),
            i <= n,
            strings_view(pieces@).push(cur@) == split_spec(s@.subrange(0, i as int), c),
        decreases n - i,
    {
        let ch = s.get_char(i);
        let ghost pre = s@.subrange(0, i + 1);
        assert(pre.drop_last() =~= s@.subrange(0, i as int));
        assert(pre.last() == ch);
        proof {
            lemma_split_nonempty(s@.subrange(0, i as int), c);
        }
        if ch == c {
            let mut done = String::new();
            std::mem::swap(&mut done, &mut cur);
            pieces.push(done);
            assert(strings_view(pieces@).push(cur@) =~= split_spec(pre, c));
        } else {
            push_char(&mut cur, ch);
            assert(strings_view(pieces@).push(cur@) =~= split_spec(pre, c));
        }
        i = i + 1;
    }
    assert(s@.subrange(0, n as int) =~= s@);
    pieces.push(cur);
    pieces
}


/// Length of the run of decimal digits at the start of `s`.
pub open spec fn digit_prefix_len(s: Seq<char>) -> nat
    decreases s.len(),
{
    if s.len() == 0 || !is_digit(s[0]) {
        0
    } else {
        1 + digit_prefix_len(s.drop_first())
    }
}

pub proof fn lemma_digit_prefix(s: Seq<char>)
    ensures
        digit_prefix_len(s) <= s.len(),
        forall|j: int| 0 <= j < digit_prefix_len(s) ==> is_digit(#[trigger] s[j]),
        digit_prefix_len(s) < s.len() ==> !is_digit(s[digit_prefix_len(s) as int]),
    decreases s.len(),
{
    if s.len() > 0 && is_digit(s[0]) {
        lemma_digit_prefix(s.drop_first());
        assert forall|j: int| 0 <= j < digit_prefix_len(s) implies is_digit(#[trigger] s[j]) by {
            if j > 0 {
                assert(s[j] == s.drop_first()[j - 1]);
            }
        }
        if digit_prefix_len(s) < s.len() {
            assert(s[digit_prefix_len(s) as int] == s.drop_first()[digit_prefix_len(s.drop_first()) as int]);
        }
    }
}

/// The number of decimal digits `s` starts with.
pub fn digit_prefix(s: &str) -> (r: usize)
    ensures
        r == digit_prefix_len(s@),
{
    let n = s.unicode_len();
    let mut i: usize = 0;
    assert(s@.skip(0) =~= s@);
    while i < n && char_is_digit(s.get_char(i))
        invariant
            n == s@.len(),
            i <= n,
            digit_prefix_len(s@) == i + digit_prefix_len(s@.skip(i as int)),
        decreases n - i,
    {
        assert(s@.skip(i as int).drop_first() =~= s@.skip(i + 1));
        i = i + 1;
    }
    i
}

/// `parts` joined by `sep`.
pub open spec fn join(parts: Seq<Seq<char>>, sep: Seq<char>) -> Seq<char>
    decreases parts.len(),
{
    if parts.len() == 0 {
        Seq::empty()
    } else if parts.len() == 1 {
        parts[0]
    } else {
        join(parts.drop_last(), sep) + sep + parts.last()
    }
}

/// `parts` joined by `sep`, in order.
pub fn join_strings(parts: &Vec<String>, sep: &str) -> (r: String)
    ensures
        r@ == join(strings_view(parts@), sep@),
{
    let ghost pv = strings_view(parts@);
    let n = parts.len();
    if n == 0 {
        return String::new();
    }
    let mut r = parts[0].clone();
    let mut i: usize = 1;
    assert(pv.subrange(0, 1) =~= seq![pv[0]]);
    while i < n
        invariant
            n == parts@.len(),
            pv == strings_view(parts@),
            1 <= i <= n,
            r@ == join(pv.subrange(0, i as int), sep@),
        decreases n - i,
    {
        r.append(sep);
        r.append(parts[i].as_str());
        let ghost pre = pv.subrange(0, i + 1);
        assert(pre.drop_last() =~= pv.subrange(0, i as int));
        assert(pre.last() == pv[i as int]);
        i = i + 1;
    }
    assert(pv.subrange(0, n as int) =~= pv);
    r
}


/// Index of the first `c` in `s`.
pub open spec fn index_of_char(s: Seq<char>, c: char) -> Option<int>
    decreases s.len(),
{
    if s.len() == 0 {
        None
    } else if s[0] == c {
        Some(0)
    } else {
        match index_of_char(s.drop_first(), c) {
            Some(i) => Some(i + 1),
            None => None,
        }
    }
}

pub proof fn lemma_index_of_char(s: Seq<char>, c: char)
    ensures
        match index_of_char(s, c) {
            Some(i) => 0 <= i < s.len() && s[i] == c && forall|j: int| 0 <= j < i ==> s[j] != c,
            None => forall|j: int| 0 <= j < s.len() ==> s[j] != c,
        },
    decreases s.len(),
{
    if s.len() > 0 && s[0] != c {
        lemma_index_of_char(s.drop_first(), c);
        match index_of_char(s.drop_first(), c) {
            Some(i) => {
                assert forall|j: int| 0 <= j < i + 1 implies s[j] != c by {
                    if j > 0 {
                        assert(s[j] == s.drop_first()[j - 1]);
                    }
                }
            },
            None => {
                assert forall|j: int| 0 <= j < s.len() implies s[j] != c by {
                    if j > 0 {
                        assert(s[j] == s.drop_first()[j - 1]);
                    }
                }
            },
        }
    }
}

pub proof fn lemma_index_of_char_unique(s: Seq<char>, c: char, i: int)
    requires
        0 <= i < s.len(),
        s[i] == c,
        forall|j: int| 0 <= j < i ==> s[j] != c,
    ensures
        index_of_char(s, c) == Some(i),
{
    lemma_index_of_char(s, c);
    match index_of_char(s, c) {
        Some(k) => {
            if k < i {
                assert(s[k] != c);
            } else if k > i {
                assert(s[i] != c);
            }
        },
        None => {
            assert(s[i] != c);
        },
    }
}

/// `s` split at its first `c`.
pub open spec fn split_once_spec(s: Seq<char>, c: char) -> Option<(Seq<char>, Seq<char>)> {
    match index_of_char(s, c) {
        Some(i) => Some((s.subrange(0, i), s.subrange(i + 1, s.len() as int))),
        None => None,
    }
}

/// Splits `s` at its first `c` (`str::split_once`).
pub fn split_first(s: &str, c: char) -> (r: Option<(String, String)>)
    ensures
        match split_once_spec(s@, c) {
            Some((a, b)) => r matches Some(p) && p.0@ == a && p.1@ == b,
            None => r is None,
        },
{
    proof {
        lemma_index_of_char(s@, c);
    }
    match find_char(s, c) {
        Some(i) => {
            proof {
                lemma_index_of_char_unique(s@, c, i as int);
            }
            let n = s.unicode_len();
            Some((slice(s, 0, i), slice(s, i + 1, n)))
        },
        None => {
            assert(index_of_char(s@, c) is None);
            None
        },
    }
}

/// Index of the last `c` in `s`.
pub open spec fn last_index_of_char(s: Seq<char>, c: char) -> Option<int>
    decreases s.len(),
{
    if s.len() == 0 {
        None
    } else if s.last() == c {
        Some(s.len() - 1)
    } else {
        last_index_of_char(s.drop_last(), c)
    }
}

/// Index of the last `c` in `s`.
pub fn rfind_char(s: &str, c: char) -> (r: Option<usize>)
    ensures
        match last_index_of_char(s@, c) {
            Some(i) => r == Some(i as usize) && 0 <= i < s@.len(),
            None => r is None,
        },
        r matches Some(k) ==> k < s@.len(),
{
    let mut i: usize = s.unicode_len();
    assert(s@.subrange(0, i as int) =~= s@);
    while i > 0
        invariant
            i <= s@.len(),
            last_index_of_char(s@, c) == last_index_of_char(s@.subrange(0, i as int), c),
        decreases i,
    {
        let ghost pre = s@.subrange(0, i as int);
        assert(pre.drop_last() =~= s@.subrange(0, i - 1));
        if s.get_char(i - 1) == c {
            return Some(i - 1);
        }
        i = i - 1;
    }
    assert(s@.subrange(0, 0) =~= Seq::<char>::empty());
    None
}


/// The first place where `needle` occurs in `s`.
pub open spec fn first_occurrence(s: Seq<char>, needle: Seq<char>) -> Option<int> {
    if exists|i: int| occurs_at(s, needle, i) && forall|j: int| 0 <= j < i ==> !occurs_at(s, needle, j) {
        Some(choose|i: int| occurs_at(s, needle, i) && forall|j: int| 0 <= j < i ==> !occurs_at(s, needle, j))
    } else {
        None
    }
}

/// Where `needle` first occurs in `s` (`str::find`).
pub fn find_first(s: &str, needle: &str) -> (r: Option<usize>)
    ensures
        match first_occurrence(s@, needle@) {
            Some(i) => r == Some(i as usize) && occurs_at(s@, needle@, i),
            None => r is None,
        },
        r matches Some(k) ==> k + needle@.len() <= s@.len(),
{
    match find_str(s, needle) {
        Some(i) => {
            proof {
                let w = i as int;
                assert(occurs_at(s@, needle@, w) && forall|j: int| 0 <= j < w ==> !occurs_at(s@, needle@, j));
                let c = choose|k: int| occurs_at(s@, needle@, k) && forall|j: int| 0 <= j < k ==> !occurs_at(s@, needle@, j);
                if c < w {
                } else if c > w {
                    assert(!occurs_at(s@, needle@, w));
                }
            }
            Some(i)
        },
        None => None,
    }
}

/// The lines of `s`, as `str::lines` gives them: split at each newline, a
/// carriage return before a newline dropped, and no empty line after a
/// final newline.
pub open spec fn strip_cr(l: Seq<char>) -> Seq<char> {
    if l.len() > 0 && l.last() == '\r' {
        l.drop_last()
    } else {
        l
    }
}

pub open spec fn lines_spec(s: Seq<char>) -> Seq<Seq<char>> {
    let p = split_spec(s, '\n');
    let body = p.drop_last().map_values(|l: Seq<char>| strip_cr(l));
    if p.last().len() == 0 {
        body
    } else {
        body.push(p.last())
    }
}

/// The lines of `s` (`str::lines`).
pub fn lines(s: &str) -> (r: Vec<String>)
    ensures
        strings_view(r@) == lines_spec(s@),
{
    let pieces = split_char(s, '\n');
    let ghost pv = strings_view(pieces@);
    proof {
        lemma_split_nonempty(s@, '\n');
    }
    let n = pieces.len();
    let mut out: Vec<String> = Vec::new();
    let mut i: usize = 0;
    while i + 1 < n
        invariant
            n == pieces@.len(),
            n >= 1,
            pv == strings_view(pieces@),
            i <= n - 1,
            strings_view(out@) == pv.subrange(0, i as int).map_values(|l: Seq<char>| strip_cr(l)),
        decreases n - i,
    {
        let piece = pieces[i].as_str();
        let m = piece.unicode_len();
        let line = if m > 0 && piece.get_char(m - 1) == '\r' {
            slice(piece, 0, m - 1)
        } else {
            owned(piece)
        };
        assert(piece@ == pv[i as int]);
        assert(line@ == strip_cr(pv[i as int])) by {
            if m > 0 && piece@.last() == '\r' {
                assert(piece@.subrange(0, m - 1) =~= piece@.drop_last());
            }
        }
        let ghost before = strings_view(out@);
        out.push(line);
        assert(strings_view(out@) =~= before.push(strip_cr(pv[i as int])));
        assert(pv.subrange(0, i + 1).map_values(|l: Seq<char>| strip_cr(l)) =~= pv.subrange(0, i as int).map_values(
            |l: Seq<char>| strip_cr(l),
        ).push(strip_cr(pv[i as int])));
        i = i + 1;
    }
    assert(pv.subrange(0, n - 1) =~= pv.drop_last());
    let last = pieces[n - 1].as_str();
    assert(last@ == pv.last());
    if last.unicode_len() > 0 {
        let ghost before = strings_view(out@);
        out.push(owned(last));
        assert(strings_view(out@) =~= before.push(pv.last()));
    }
    out
}

/// The words of `s`: its maximal runs of characters that are not whitespace.
pub open spec fn words_spec(s: Seq<char>) -> Seq<Seq<char>>
    decreases s.len(),
{
    if s.len() == 0 {
        Seq::empty()
    } else {
        let w = words_spec(s.drop_last());
        if is_space(s.last()) {
            w
        } else if s.len() == 1 || is_space(s[s.len() - 2]) {
            w.push(seq![s.last()])
        } else {
            w.update(w.len() - 1, w.last().push(s.last()))
        }
    }
}

pub proof fn lemma_words_nonempty(s: Seq<char>)
    ensures
        s.len() > 0 && !is_space(s.last()) ==> words_spec(s).len() > 0,
    decreases s.len(),
{
    if s.len() > 0 {
        lemma_words_nonempty(s.drop_last());
        if !is_space(s.last()) && s.len() > 1 && !is_space(s[s.len() - 2]) {
            assert(s.drop_last().last() == s[s.len() - 2]);
        }
    }
}

/// The words of `s` (`str::split_whitespace`).
pub fn split_words(s: &str) -> (r: Vec<String>)
    ensures
        strings_view(r@) == words_spec(s@),
{
    let n = s.unicode_len();
    let mut words: Vec<String> = Vec::new();
    let mut cur = String::new();
    let mut i: usize = 0;
    assert(s@.subrange(0, 0) =~= Seq::<char>::empty());
    while i < n
        invariant
            n == s@.len(),
            i <= n,
            cur@.len() > 0 ==> i > 0 && !is_space(s@[i - 1]),
            cur@.len() == 0 ==> (i == 0 || is_space(s@[i - 1])),
            (if cur@.len() > 0 {
                strings_view(words@).push(cur@)
            } else {
                strings_view(words@)
            }) == words_spec(s@.subrange(0, i as int)),
        decreases n - i,
    {
        let c = s.get_char(i);
        let ghost pre = s@.subrange(0, i + 1);
        assert(pre.drop_last() =~= s@.subrange(0, i as int));
        assert(pre.last() == c);
        if i > 0 {
            assert(pre[pre.len() - 2] == s@[i - 1]);
        }
        proof {
            lemma_words_nonempty(s@.subrange(0, i as int));
            if i > 0 {
                assert(s@.subrange(0, i as int).last() == s@[i - 1]);
            }
        }
        if char_is_space(c) {
            if cur.unicode_len() > 0 {
                let mut done = String::new();
                std::mem::swap(&mut done, &mut cur);
                let ghost before = strings_view(words@);
                words.push(done);
                assert(strings_view(words@) =~= before.push(done@));
            }
        } else {
            let ghost before = strings_view(words@);
            let ghost old_cur = cur@;
            push_char(&mut cur, c);
            proof {
                if old_cur.len() > 0 {
                    assert(before.push(old_cur).update(before.len() as int, old_cur.push(c)) =~= before.push(cur@));
                } else {
                    assert(cur@ =~= seq![c]);
                }
            }
        }
        i = i + 1;
    }
    assert(s@.subrange(0, n as int) =~= s@);
    if cur.unicode_len() > 0 {
        words.push(cur);
    }
    words
}

} // verus!
