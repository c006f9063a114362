//! Character-level text operations.
//!
//! Every rule of the library is stated over `Seq<char>`, the view of a string.
//! The executable functions here work on `Vec<char>` so that each step is
//! verified; `chars_of` and `string_of` move between strings and characters.

use vstd::prelude::*;

verus! {

/// The characters that Unicode gives the property White_Space.
pub open spec fn is_whitespace(c: char) -> bool {
    let n = c as u32;
    ||| 0x09 <= n <= 0x0D
    ||| n == 0x20
    ||| n == 0x85
    ||| n == 0xA0
    ||| n == 0x1680
    ||| 0x2000 <= n <= 0x200A
    ||| n == 0x2028
    ||| n == 0x2029
    ||| n == 0x202F
    ||| n == 0x205F
    ||| n == 0x3000
}

/// `s` without its leading white space.
pub open spec fn trim_start(s: Seq<char>) -> Seq<char>
    decreases s.len(),
{
    if s.len() > 0 && is_whitespace(s[0]) {
        trim_start(s.drop_first())
    } else {
        s
    }
}

/// `s` without its trailing white space.
pub open spec fn trim_end(s: Seq<char>) -> Seq<char>
    decreases s.len(),
{
    if s.len() > 0 && is_whitespace(s.last()) {
        trim_end(s.drop_last())
    } else {
        s
    }
}

/// `s` without leading and trailing white space.
pub open spec fn trim(s: Seq<char>) -> Seq<char> {
    trim_end(trim_start(s))
}

/// `s` without its leading run of the character `c`.
pub open spec fn strip_leading(s: Seq<char>, c: char) -> Seq<char>
    decreases s.len(),
{
    if s.len() > 0 && s[0] == c {
        strip_leading(s.drop_first(), c)
    } else {
        s
    }
}

/// `s` without its trailing run of the character `c`.
pub open spec fn strip_trailing(s: Seq<char>, c: char) -> Seq<char>
    decreases s.len(),
{
    if s.len() > 0 && s.last() == c {
        strip_trailing(s.drop_last(), c)
    } else {
        s
    }
}

/// `s` after removing the prefix `p` as often as it stands at the front.
/// An empty `p` removes nothing.
pub open spec fn strip_prefix_repeated(s: Seq<char>, p: Seq<char>) -> Seq<char>
    decreases s.len(),
{
    if p.len() > 0 && p.is_prefix_of(s) {
        strip_prefix_repeated(s.skip(p.len() as int), p)
    } else {
        s
    }
}

/// `s` with every `from` replaced by `to`.
pub open spec fn replace_char(s: Seq<char>, from: char, to: char) -> Seq<char> {
    Seq::new(s.len(), |i: int| if s[i] == from { to } else { s[i] })
}

/// The position of the last `c` in `s`, if there is one.
pub open spec fn last_index_of(s: Seq<char>, c: char) -> Option<int>
    decreases s.len(),
{
    if s.len() == 0 {
        None
    } else if s.last() == c {
        Some(s.len() - 1)
    } else {
        last_index_of(s.drop_last(), c)
    }
}

/// Whether `pat` stands in `s` at position `i`.
pub open spec fn occurs_at(s: Seq<char>, pat: Seq<char>, i: int) -> bool {
    0 <= i && i + pat.len() <= s.len() && s.subrange(i, i + pat.len()) == pat
}

/// The first position from `from` on at which `pat` stands in `s`.
pub open spec fn find_from(s: Seq<char>, pat: Seq<char>, from: int) -> Option<int>
    decreases s.len() - from,
{
    if from < 0 || from + pat.len() > s.len() {
        None
    } else if occurs_at(s, pat, from) {
        Some(from)
    } else if from >= s.len() {
        None
    } else {
        find_from(s, pat, from + 1)
    }
}

/// The first position at which `pat` stands in `s`.
pub open spec fn find(s: Seq<char>, pat: Seq<char>) -> Option<int> {
    find_from(s, pat, 0)
}

/// The decimal digits.
pub open spec fn is_ascii_digit(c: char) -> bool {
    '0' <= c <= '9'
}

/// The ASCII letters and the decimal digits.
pub open spec fn is_ascii_alphanumeric(c: char) -> bool {
    ||| '0' <= c <= '9'
    ||| 'a' <= c <= 'z'
    ||| 'A' <= c <= 'Z'
}

/// `c` in lower case where it is an ASCII capital, `c` itself otherwise.
pub open spec fn ascii_lower(c: char) -> char {
    if 'A' <= c <= 'Z' {
        ((c as u32) + 32) as char
    } else {
        c
    }
}

/// `s` with its ASCII capitals in lower case.
pub open spec fn ascii_lowercase(s: Seq<char>) -> Seq<char> {
    Seq::new(s.len(), |i: int| ascii_lower(s[i]))
}

/// Strict lexicographic order of two texts by code point.
pub open spec fn text_less(a: Seq<char>, b: Seq<char>) -> bool
    decreases a.len(),
{
    if b.len() == 0 {
        false
    } else if a.len() == 0 {
        true
    } else if a[0] != b[0] {
        (a[0] as u32) < (b[0] as u32)
    } else {
        text_less(a.drop_first(), b.drop_first())
    }
}

/// The decimal digit for `d`, where `0 <= d <= 9`.
pub open spec fn digit_char(d: int) -> char {
    (('0' as u32) + d) as char
}

/// The decimal digits of a natural number, without leading zeros.
pub open spec fn decimal_digits(n: nat) -> Seq<char>
    decreases n,
{
    if n < 10 {
        seq![digit_char(n as int)]
    } else {
        decimal_digits(n / 10).push(digit_char((n % 10) as int))
    }
}

/// An integer as `{}` prints it: a minus sign where it is negative, then
/// its decimal digits.
pub open spec fn decimal(n: int) -> Seq<char> {
    if n < 0 {
        seq!['-'] + decimal_digits((-n) as nat)
    } else {
        decimal_digits(n as nat)
    }
}

/// The number that a run of decimal digits stands for.
pub open spec fn digits_value(s: Seq<char>) -> nat
    decreases s.len(),
{
    if s.len() == 0 {
        0
    } else {
        digits_value(s.drop_last()) * 10 + ((s.last() as u32) - ('0' as u32)) as nat
    }
}

/// Whether `s` holds nothing but decimal digits.
pub open spec fn all_digits(s: Seq<char>) -> bool {
    forall|i: int| 0 <= i < s.len() ==> is_ascii_digit(#[trigger] s[i])
}

/// The integer that `s` spells: an optional sign and at least one decimal
/// digit, nothing else.
pub open spec fn parse_integer(s: Seq<char>) -> Option<int> {
    if s.len() > 0 && (s[0] == '+' || s[0] == '-') {
        let digits = s.drop_first();
        if digits.len() > 0 && all_digits(digits) {
            if s[0] == '-' {
                Some(-(digits_value(digits) as int))
            } else {
                Some(digits_value(digits) as int)
            }
        } else {
            None
        }
    } else if s.len() > 0 && all_digits(s) {
        Some(digits_value(s) as int)
    } else {
        None
    }
}

/// What `str::parse::<i32>` accepts, and the value it gives.
pub open spec fn parse_i32(s: Seq<char>) -> Option<i32> {
    match parse_integer(s) {
        Some(n) => if i32::MIN <= n <= i32::MAX {
            Some(n as i32)
        } else {
            None
        },
        None => None,
    }
}

/// What `str::parse::<u64>` accepts, and the value it gives: as for a signed
/// integer, but a minus sign is refused.
pub open spec fn parse_u64(s: Seq<char>) -> Option<u64> {
    if s.len() > 0 && s[0] == '-' {
        None
    } else {
        match parse_integer(s) {
            Some(n) => if 0 <= n <= u64::MAX {
                Some(n as u64)
            } else {
                None
            },
            None => None,
        }
    }
}

/// Whether `c` is white space.
pub fn char_is_whitespace(c: char) -> (b: bool)
    ensures
        b == is_whitespace(c),
{
    let n: u32 = c as u32;
    (0x09 <= n && n <= 0x0D) || n == 0x20 || n == 0x85 || n == 0xA0 || n == 0x1680 || (0x2000 <= n
        && n <= 0x200A) || n == 0x2028 || n == 0x2029 || n == 0x202F || n == 0x205F || n == 0x3000
}

/// Whether `c` is a decimal digit.
pub fn char_is_ascii_digit(c: char) -> (b: bool)
    ensures
        b == is_ascii_digit(c),
{
    '0' <= c && c <= '9'
}

/// Whether `c` is an ASCII letter or a decimal digit.
pub fn char_is_ascii_alphanumeric(c: char) -> (b: bool)
    ensures
        b == is_ascii_alphanumeric(c),
{
    ('0' <= c && c <= '9') || ('a' <= c && c <= 'z') || ('A' <= c && c <= 'Z')
}

/// The characters of a string, in order.
pub fn chars_of(s: &str) -> (v: Vec<char>)
    ensures
        v@ == s@,
{
    let mut v: Vec<char> = Vec::new();
    for c in it: s.chars()
        invariant
            v@ == it.seq().take(it.index() as int),
            it.seq() == s@,
    {
        v.push(c);
    }
    v
}

/// `String::push` of std: the character is put behind the characters that
/// the string holds.
pub assume_specification[ String::push ](s: &mut String, ch: char)
    ensures
        final(s)@ == old(s)@.push(ch),
;

/// The string that holds exactly the characters of `v`, in their order.
pub fn string_of(v: &Vec<char>) -> (s: String)
    ensures
        s@ == v@,
{
    let mut s = String::new();
    let mut i: usize = 0;
    while i < v.len()
        invariant
            i <= v.len(),
            s@ == v@.take(i as int),
        decreases v.len() - i,
    {
        s.push(v[i]);
        assert(v@.take(i + 1) =~= v@.take(i as int).push(v@[i as int]));
        i += 1;
    }
    assert(v@.take(v.len() as int) =~= v@);
    s
}

/// Whether two strings hold the same characters.
pub fn same_text(a: &str, b: &str) -> (same: bool)
    ensures
        same == (a@ == b@),
{
    let x = chars_of(a);
    let y = chars_of(b);
    same_chars(&x, &y)
}

/// Whether two runs of characters are the same.
pub fn same_chars(a: &Vec<char>, b: &Vec<char>) -> (same: bool)
    ensures
        same == (a@ == b@),
{
    if a.len() != b.len() {
        return false;
    }
    let mut i: usize = 0;
    while i < a.len()
        invariant
            a.len() == b.len(),
            i <= a.len(),
            a@.take(i as int) == b@.take(i as int),
        decreases a.len() - i,
    {
        if a[i] != b[i] {
            return false;
        }
        assert(a@.take(i + 1) =~= a@.take(i as int).push(a@[i as int]));
        assert(b@.take(i + 1) =~= b@.take(i as int).push(b@[i as int]));
        i += 1;
    }
    assert(a@.take(a.len() as int) =~= a@);
    assert(b@.take(b.len() as int) =~= b@);
    true
}

/// The characters of `v` from `from` up to `to`.
pub fn slice_chars(v: &Vec<char>, from: usize, to: usize) -> (r: Vec<char>)
    requires
        from <= to <= v.len(),
    ensures
        r@ == v@.subrange(from as int, to as int),
{
    let mut r: Vec<char> = Vec::new();
    let mut i: usize = from;
    while i < to
        invariant
            from <= i <= to <= v.len(),
            r@ == v@.subrange(from as int, i as int),
        decreases to - i,
    {
        r.push(v[i]);
        assert(v@.subrange(from as int, i + 1) =~= v@.subrange(from as int, i as int).push(
            v@[i as int],
        ));
        i += 1;
    }
    r
}

/// `a` followed by `b`.
pub fn concat_chars(a: &Vec<char>, b: &Vec<char>) -> (r: Vec<char>)
    ensures
        r@ == a@ + b@,
{
    let mut r: Vec<char> = Vec::new();
    let mut i: usize = 0;
    while i < a.len()
        invariant
            i <= a.len(),
            r@ == a@.take(i as int),
        decreases a.len() - i,
    {
        r.push(a[i]);
        assert(a@.take(i + 1) =~= a@.take(i as int).push(a@[i as int]));
        i += 1;
    }
    assert(a@.take(a.len() as int) =~= a@);
    let mut j: usize = 0;
    while j < b.len()
        invariant
            j <= b.len(),
            r@ == a@ + b@.take(j as int),
        decreases b.len() - j,
    {
        r.push(b[j]);
        assert(a@ + b@.take(j + 1) =~= (a@ + b@.take(j as int)).push(b@[j as int]));
        j += 1;
    }
    assert(b@.take(b.len() as int) =~= b@);
    r
}

/// `v` without leading and trailing white space.
pub fn trim_chars(v: &Vec<char>) -> (r: Vec<char>)
    ensures
        r@ == trim(v@),
{
    let mut i: usize = 0;
    assert(v@.skip(0) =~= v@);
    while i < v.len() && char_is_whitespace(v[i])
        invariant
            i <= v.len(),
            trim_start(v@) == trim_start(v@.skip(i as int)),
        decreases v.len() - i,
    {
        assert(v@.skip(i as int).drop_first() =~= v@.skip(i + 1));
        i += 1;
    }
    let ghost rest = v@.skip(i as int);
    assert(trim_start(v@) == rest);
    let mut j: usize = v.len();
    assert(v@.subrange(i as int, j as int) =~= rest);
    while j > i && char_is_whitespace(v[j - 1])
        invariant
            i <= j <= v.len(),
            trim_end(rest) == trim_end(v@.subrange(i as int, j as int)),
        decreases j,
    {
        assert(v@.subrange(i as int, j as int).drop_last() =~= v@.subrange(i as int, j - 1));
        j -= 1;
    }
    slice_chars(v, i, j)
}

/// `v` without its leading run of `c`.
pub fn strip_leading_chars(v: &Vec<char>, c: char) -> (r: Vec<char>)
    ensures
        r@ == strip_leading(v@, c),
{
    let mut i: usize = 0;
    assert(v@.skip(0) =~= v@);
    while i < v.len() && v[i] == c
        invariant
            i <= v.len(),
            strip_leading(v@, c) == strip_leading(v@.skip(i as int), c),
        decreases v.len() - i,
    {
        assert(v@.skip(i as int).drop_first() =~= v@.skip(i + 1));
        i += 1;
    }
    assert(v@.subrange(i as int, v.len() as int) =~= v@.skip(i as int));
    slice_chars(v, i, v.len())
}

/// `v` without its trailing run of `c`.
pub fn strip_trailing_chars(v: &Vec<char>, c: char) -> (r: Vec<char>)
    ensures
        r@ == strip_trailing(v@, c),
{
    let mut j: usize = v.len();
    assert(v@.take(j as int) =~= v@);
    while j > 0 && v[j - 1] == c
        invariant
            j <= v.len(),
            strip_trailing(v@, c) == strip_trailing(v@.take(j as int), c),
        decreases j,
    {
        assert(v@.take(j as int).drop_last() =~= v@.take(j - 1));
        j -= 1;
    }
    assert(v@.subrange(0, j as int) =~= v@.take(j as int));
    slice_chars(v, 0, j)
}

/// Whether `p` stands at the front of `v`.
pub fn starts_with_chars(v: &Vec<char>, p: &Vec<char>) -> (b: bool)
    ensures
        b == p@.is_prefix_of(v@),
{
    if p.len() > v.len() {
        return false;
    }
    let mut i: usize = 0;
    while i < p.len()
        invariant
            i <= p.len() <= v.len(),
            forall|k: int| 0 <= k < i ==> v@[k] == p@[k],
        decreases p.len() - i,
    {
        if v[i] != p[i] {
            assert(v@.subrange(0, p.len() as int)[i as int] != p@[i as int]);
            return false;
        }
        i += 1;
    }
    assert(v@.subrange(0, p.len() as int) =~= p@);
    true
}

/// Whether `p` stands in `v` at position `at`.
pub fn occurs_at_chars(v: &Vec<char>, p: &Vec<char>, at: usize) -> (b: bool)
    requires
        at + p.len() <= v.len(),
    ensures
        b == occurs_at(v@, p@, at as int),
{
    let mut i: usize = 0;
    while i < p.len()
        invariant
            i <= p.len(),
            at + p.len() <= v.len(),
            forall|k: int| 0 <= k < i ==> v@[at + k] == p@[k],
        decreases p.len() - i,
    {
        if v[at + i] != p[i] {
            assert(v@.subrange(at as int, at + p.len())[i as int] != p@[i as int]);
            return false;
        }
        i += 1;
    }
    assert(v@.subrange(at as int, at + p.len()) =~= p@);
    true
}

/// `v` after removing the prefix `p` as often as it stands at the front.
pub fn strip_prefix_repeated_chars(v: &Vec<char>, p: &Vec<char>) -> (r: Vec<char>)
    ensures
        r@ == strip_prefix_repeated(v@, p@),
{
    if p.len() == 0 {
        return slice_chars(v, 0, v.len());
    }
    let mut i: usize = 0;
    assert(v@.skip(0) =~= v@);
    while p.len() <= v.len() - i && occurs_at_chars(v, p, i)
        invariant
            i <= v.len(),
            p.len() > 0,
            strip_prefix_repeated(v@, p@) == strip_prefix_repeated(v@.skip(i as int), p@),
        decreases v.len() - i,
    {
        assert(v@.skip(i as int).subrange(0, p.len() as int) =~= v@.subrange(
            i as int,
            i + p.len(),
        ));
        assert(v@.skip(i as int).skip(p.len() as int) =~= v@.skip(i + p.len()));
        i += p.len();
    }
    proof {
        let rest = v@.skip(i as int);
        if p@.is_prefix_of(rest) {
            assert(rest.subrange(0, p.len() as int) =~= v@.subrange(i as int, i + p.len()));
            assert(false);
        }
        assert(v@.subrange(i as int, v.len() as int) =~= rest);
    }
    slice_chars(v, i, v.len())
}

/// `v` with every `from` replaced by `to`.
pub fn replace_chars(v: &Vec<char>, from: char, to: char) -> (r: Vec<char>)
    ensures
        r@ == replace_char(v@, from, to),
{
    let mut r: Vec<char> = Vec::new();
    let mut i: usize = 0;
    while i < v.len()
        invariant
            i <= v.len(),
            r@ == replace_char(v@.take(i as int), from, to),
        decreases v.len() - i,
    {
        let c: char = v[i];
        r.push(if c == from { to } else { c });
        assert(replace_char(v@.take(i + 1), from, to) =~= replace_char(
            v@.take(i as int),
            from,
            to,
        ).push(if c == from { to } else { c }));
        i += 1;
    }
    assert(v@.take(v.len() as int) =~= v@);
    r
}

/// The position of the last `c` in `v`, if there is one.
pub fn last_index_of_chars(v: &Vec<char>, c: char) -> (r: Option<usize>)
    ensures
        match r {
            Some(i) => last_index_of(v@, c) == Some(i as int) && i < v.len() && v@[i as int] == c,
            None => last_index_of(v@, c) is None,
        },
{
    let mut j: usize = v.len();
    assert(v@.take(j as int) =~= v@);
    while j > 0
        invariant
            j <= v.len(),
            last_index_of(v@, c) == last_index_of(v@.take(j as int), c),
        decreases j,
    {
        if v[j - 1] == c {
            return Some(j - 1);
        }
        assert(v@.take(j as int).drop_last() =~= v@.take(j - 1));
        j -= 1;
    }
    None
}

/// The first position at which `p` stands in `v`, if there is one.
pub fn find_chars(v: &Vec<char>, p: &Vec<char>) -> (r: Option<usize>)
    ensures
        match r {
            Some(i) => find(v@, p@) == Some(i as int) && occurs_at(v@, p@, i as int),
            None => find(v@, p@) is None,
        },
{
    if p.len() > v.len() {
        return None;
    }
    let mut i: usize = 0;
    while p.len() <= v.len() - i
        invariant
            p.len() <= v.len(),
            i <= v.len(),
            find(v@, p@) == find_from(v@, p@, i as int),
        decreases v.len() - i,
    {
        if occurs_at_chars(v, p, i) {
            return Some(i);
        }
        if i >= v.len() {
            return None;
        }
        i += 1;
    }
    None
}

/// The decimal digits of `n`, without leading zeros.
pub fn digits_of(n: u64) -> (r: Vec<char>)
    ensures
        r@ == decimal_digits(n as nat),
    decreases n,
{
    if n < 10 {
        let d: u8 = n as u8;
        let c: char = (48u8 + d) as char;
        let mut r: Vec<char> = Vec::new();
        r.push(c);
        assert(r@ =~= seq![digit_char(n as int)]);
        r
    } else {
        let mut r = digits_of(n / 10);
        let d: u8 = (n % 10) as u8;
        let c: char = (48u8 + d) as char;
        r.push(c);
        r
    }
}

/// `n` as `{}` prints it.
pub fn decimal_of(n: i64) -> (r: Vec<char>)
    ensures
        r@ == decimal(n as int),
{
    if n < 0 {
        let magnitude: u64 = ((-(n + 1)) as u64) + 1;
        let digits = digits_of(magnitude);
        let mut sign: Vec<char> = Vec::new();
        sign.push('-');
        assert(sign@ =~= seq!['-']);
        concat_chars(&sign, &digits)
    } else {
        digits_of(n as u64)
    }
}

/// A run of digits spells at least what any of its prefixes spells.
pub proof fn lemma_digits_value_prefix(s: Seq<char>, k: int)
    requires
        0 <= k <= s.len(),
        all_digits(s),
    ensures
        digits_value(s.take(k)) <= digits_value(s),
    decreases s.len(),
{
    if k == s.len() {
        assert(s.take(k) =~= s);
    } else {
        assert(is_ascii_digit(s[s.len() - 1]));
        assert(s.drop_last().take(k) =~= s.take(k));
        assert forall|i: int| 0 <= i < s.drop_last().len() implies is_ascii_digit(
            #[trigger] s.drop_last()[i],
        ) by {
            assert(is_ascii_digit(s[i]));
        }
        lemma_digits_value_prefix(s.drop_last(), k);
    }
}

/// The value of the digits of `v` from `start` on, where they are all
/// digits, there is at least one, and the value is at most `limit`.
fn parse_digits(v: &Vec<char>, start: usize, limit: u64) -> (r: Option<u64>)
    requires
        start <= v.len(),
        limit <= u64::MAX / 16,
    ensures
        ({
            let digits = v@.skip(start as int);
            let valid = digits.len() > 0 && all_digits(digits) && digits_value(digits) <= limit;
            match r {
                Some(n) => valid && n == digits_value(digits),
                None => !valid,
            }
        }),
{
    let ghost digits = v@.skip(start as int);
    if start == v.len() {
        return None;
    }
    let mut acc: u64 = 0;
    let mut i: usize = start;
    assert(digits.take(0) =~= Seq::<char>::empty());
    while i < v.len()
        invariant
            start <= i <= v.len(),
            digits == v@.skip(start as int),
            limit <= u64::MAX / 16,
            acc <= limit,
            all_digits(digits.take(i - start)),
            acc == digits_value(digits.take(i - start)),
        decreases v.len() - i,
    {
        let c: char = v[i];
        assert(digits[i - start] == c);
        if !char_is_ascii_digit(c) {
            return None;
        }
        let d: u64 = ((c as u32) - 48) as u64;
        let next: u64 = acc * 10 + d;
        proof {
            let longer = digits.take(i - start + 1);
            assert(longer.drop_last() =~= digits.take(i - start));
            assert(longer.last() == c);
            assert forall|k: int| 0 <= k < longer.len() implies is_ascii_digit(
                #[trigger] longer[k],
            ) by {
                if k < i - start {
                    assert(is_ascii_digit(digits.take(i - start)[k]));
                }
            }
            assert(next == digits_value(longer));
        }
        if next > limit {
            proof {
                if all_digits(digits) {
                    lemma_digits_value_prefix(digits, i - start + 1);
                }
            }
            return None;
        }
        acc = next;
        i += 1;
    }
    assert(digits.take(i - start) =~= digits);
    Some(acc)
}

/// What `str::parse::<i32>` gives for the characters of `v`.
pub fn parse_i32_chars(v: &Vec<char>) -> (r: Option<i32>)
    ensures
        r == parse_i32(v@),
{
    if v.len() == 0 {
        return None;
    }
    let first: char = v[0];
    let signed: bool = first == '+' || first == '-';
    let start: usize = if signed { 1 } else { 0 };
    assert(v@.skip(1) =~= v@.drop_first());
    assert(v@.skip(0) =~= v@);
    match parse_digits(v, start, 2147483648) {
        None => None,
        Some(n) => {
            if first == '-' {
                let value: i64 = -(n as i64);
                Some(value as i32)
            } else if n > 2147483647 {
                None
            } else {
                Some(n as i32)
            }
        },
    }
}

/// What `str::parse::<u64>` gives for the characters of `v`.
pub fn parse_u64_chars(v: &Vec<char>) -> (r: Option<u64>)
    ensures
        r == parse_u64(v@),
{
    if v.len() == 0 {
        return None;
    }
    let first: char = v[0];
    if first == '-' {
        return None;
    }
    let start: usize = if first == '+' { 1 } else { 0 };
    assert(v@.skip(1) =~= v@.drop_first());
    assert(v@.skip(0) =~= v@);
    parse_digits_wide(v, start)
}

/// The value of the digits of `v` from `start` on, where they are all
/// digits, there is at least one, and the value fits `u64`.
fn parse_digits_wide(v: &Vec<char>, start: usize) -> (r: Option<u64>)
    requires
        start <= v.len(),
    ensures
        ({
            let digits = v@.skip(start as int);
            let valid = digits.len() > 0 && all_digits(digits) && digits_value(digits) <= u64::MAX;
            match r {
                Some(n) => valid && n == digits_value(digits),
                None => !valid,
            }
        }),
{
    let ghost digits = v@.skip(start as int);
    if start == v.len() {
        return None;
    }
    let mut acc: u128 = 0;
    let mut i: usize = start;
    assert(digits.take(0) =~= Seq::<char>::empty());
    while i < v.len()
        invariant
            start <= i <= v.len(),
            digits == v@.skip(start as int),
            acc <= u64::MAX,
            all_digits(digits.take(i - start)),
            acc == digits_value(digits.take(i - start)),
        decreases v.len() - i,
    {
        let c: char = v[i];
        assert(digits[i - start] == c);
        if !char_is_ascii_digit(c) {
            return None;
        }
        let d: u128 = ((c as u32) - 48) as u128;
        let next: u128 = acc * 10 + d;
        proof {
            let longer = digits.take(i - start + 1);
            assert(longer.drop_last() =~= digits.take(i - start));
            assert(longer.last() == c);
            assert forall|k: int| 0 <= k < longer.len() implies is_ascii_digit(
                #[trigger] longer[k],
            ) by {
                if k < i - start {
                    assert(is_ascii_digit(digits.take(i - start)[k]));
                }
            }
            assert(next == digits_value(longer));
        }
        if next > 18446744073709551615 {
            proof {
                if all_digits(digits) {
                    lemma_digits_value_prefix(digits, i - start + 1);
                }
            }
            return None;
        }
        acc = next;
        i += 1;
    }
    assert(digits.take(i - start) =~= digits);
    Some(acc as u64)
}

/// What `str::to_lowercase` returns for a text: its lower case after
/// Unicode's rules, which may change the number of characters.
pub uninterp spec fn lowercase(s: Seq<char>) -> Seq<char>;

/// What `str::to_uppercase` returns for a text: its upper case after
/// Unicode's rules, which may change the number of characters.
pub uninterp spec fn uppercase(s: Seq<char>) -> Seq<char>;

/// `str::to_lowercase`: the result depends on the characters of `s` alone
/// and is what `lowercase` names.
#[verifier::external_body]
pub(crate) fn to_lowercase(s: &str) -> (r: String)
    ensures
        r@ == lowercase(s@),
{
    s.to_lowercase()
}

/// `str::to_uppercase`: the result depends on the characters of `s` alone
/// and is what `uppercase` names.
#[verifier::external_body]
pub(crate) fn to_uppercase(s: &str) -> (r: String)
    ensures
        r@ == uppercase(s@),
{
    s.to_uppercase()
}

/// `v` with its ASCII capitals in lower case.
pub fn ascii_lowercase_chars(v: &Vec<char>) -> (r: Vec<char>)
    ensures
        r@ == ascii_lowercase(v@),
{
    let mut r: Vec<char> = Vec::new();
    let mut i: usize = 0;
    while i < v.len()
        invariant
            i <= v.len(),
            r@.len() == i,
            forall|k: int| 0 <= k < i ==> r@[k] == ascii_lower(v@[k]),
        decreases v.len() - i,
    {
        let c: char = v[i];
        if 'A' <= c && c <= 'Z' {
            let n: u8 = ((c as u32) + 32) as u8;
            r.push(n as char);
        } else {
            r.push(c);
        }
        i += 1;
    }
    assert(r@ =~= ascii_lowercase(v@));
    r
}

/// Whether `a` comes strictly before `b` in the order by code point.
pub fn text_less_chars(a: &Vec<char>, b: &Vec<char>) -> (less: bool)
    ensures
        less == text_less(a@, b@),
{
    let mut i: usize = 0;
    assert(a@.skip(0) =~= a@);
    assert(b@.skip(0) =~= b@);
    while i < a.len() && i < b.len()
        invariant
            i <= a.len(),
            i <= b.len(),
            text_less(a@, b@) == text_less(a@.skip(i as int), b@.skip(i as int)),
        decreases a.len() - i,
    {
        assert(a@.skip(i as int)[0] == a@[i as int]);
        assert(b@.skip(i as int)[0] == b@[i as int]);
        if a[i] != b[i] {
            return (a[i] as u32) < (b[i] as u32);
        }
        assert(a@.skip(i as int).drop_first() =~= a@.skip(i + 1));
        assert(b@.skip(i as int).drop_first() =~= b@.skip(i + 1));
        i += 1;
    }
    i < b.len()
}

} // verus!
