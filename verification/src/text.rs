//! Character-level string helpers shared by the rest of the crate.
//!
//! Strings are modelled by their view, a `Seq<char>`. Every helper converts
//! to a `Vec<char>`, works on it, and converts back, so that each contract is
//! stated over sequences of characters.

use vstd::prelude::*;
use vstd::std_specs::iter::IteratorSpec;

verus! {

/// The characters of `s`, in order.
pub fn str_chars(s: &str) -> (r: Vec<char>)
    ensures
        r@ == s@,
{
    let mut out: Vec<char> = Vec::new();
    let mut it = s.chars();
    loop
        invariant
            out@ + it.remaining() == s@,
            it.decrease() is Some,
        ensures
            out@ == s@,
        decreases it.decrease()->0,
    {
        match it.next() {
            Some(c) => {
                out.push(c);
            },
            None => {
                break ;
            },
        }
    }
    out
}

/// `String::push`: appends one character to the end of the string.
#[verifier::external_body]
fn push_char(s: &mut String, c: char)
    ensures
        final(s)@ == old(s)@.push(c),
{
    s.push(c);
}

/// The string made of `v[from..to]`.
pub fn string_from_range(v: &Vec<char>, from: usize, to: usize) -> (r: String)
    requires
        from <= to <= v.len(),
    ensures
        r@ == v@.subrange(from as int, to as int),
{
    let mut out = String::new();
    let mut i: usize = from;
    while i < to
        invariant
            from <= i <= to <= v.len(),
            out@ == v@.subrange(from as int, i as int),
        decreases to - i,
    {
        push_char(&mut out, v[i]);
        i += 1;
    }
    out
}

/// The string whose characters are `v`.
pub fn string_from_chars(v: &Vec<char>) -> (r: String)
    ensures
        r@ == v@,
{
    let r = string_from_range(v, 0, v.len());
    assert(v@.subrange(0, v.len() as int) == v@);
    r
}

/// Whether two string slices hold the same characters.
pub fn str_eq(a: &str, b: &str) -> (r: bool)
    ensures
        r == (a@ == b@),
{
    let x = a.to_owned();
    let y = b.to_owned();
    x == y
}

/// Whether `p` occurs in `s` starting at position `i`.
pub open spec fn spec_matches_at(s: Seq<char>, i: int, p: Seq<char>) -> bool {
    0 <= i && i + p.len() <= s.len() && s.subrange(i, i + p.len()) == p
}

/// Whether `s` begins with `p`.
pub open spec fn spec_starts_with(s: Seq<char>, p: Seq<char>) -> bool {
    spec_matches_at(s, 0, p)
}

/// Whether `p` occurs somewhere in `s` as a contiguous run.
pub open spec fn spec_contains(s: Seq<char>, p: Seq<char>) -> bool {
    exists|i: int| spec_matches_at(s, i, p)
}

/// Executable form of [`spec_matches_at`].
pub fn matches_at(s: &Vec<char>, i: usize, p: &Vec<char>) -> (r: bool)
    ensures
        r == spec_matches_at(s@, i as int, p@),
{
    if p.len() > s.len() || i > s.len() - p.len() {
        return false;
    }
    let mut k: usize = 0;
    while k < p.len()
        invariant
            k <= p.len(),
            i + p.len() <= s.len(),
            forall|j: int| 0 <= j < k ==> s[i + j] == p[j],
        decreases p.len() - k,
    {
        if s[i + k] != p[k] {
            assert(s@.subrange(i as int, i + p.len())[k as int] == s[i + k]);
            return false;
        }
        k += 1;
    }
    assert(s@.subrange(i as int, i + p.len()) =~= p@);
    true
}

/// Executable form of [`spec_starts_with`].
pub fn starts_with(s: &Vec<char>, p: &Vec<char>) -> (r: bool)
    ensures
        r == spec_starts_with(s@, p@),
{
    matches_at(s, 0, p)
}

/// Executable form of [`spec_contains`].
pub fn contains(s: &Vec<char>, p: &Vec<char>) -> (r: bool)
    ensures
        r == spec_contains(s@, p@),
{
    if p.len() > s.len() {
        assert forall|i: int| !spec_matches_at(s@, i, p@) by {}
        return false;
    }
    let last: usize = s.len() - p.len();
    let mut i: usize = 0;
    loop
        invariant
            i <= last,
            last == s.len() - p.len(),
            forall|j: int| 0 <= j < i ==> !spec_matches_at(s@, j, p@),
        ensures
            forall|j: int| 0 <= j <= last ==> !spec_matches_at(s@, j, p@),
        decreases last - i,
    {
        if matches_at(s, i, p) {
            return true;
        }
        if i == last {
            break ;
        }
        i += 1;
    }
    assert forall|j: int| !spec_matches_at(s@, j, p@) by {}
    false
}

/// What remains of `s` once every leading repetition of `p` is removed.
pub open spec fn spec_trim_start_matches(s: Seq<char>, p: Seq<char>) -> Seq<char>
    decreases s.len(),
{
    if p.len() > 0 && spec_starts_with(s, p) {
        spec_trim_start_matches(s.skip(p.len() as int), p)
    } else {
        s
    }
}

/// Removes every leading repetition of `p` from `s`.
pub fn trim_start_matches(s: &str, p: &str) -> (r: String)
    ensures
        r@ == spec_trim_start_matches(s@, p@),
{
    let sv = str_chars(s);
    let pv = str_chars(p);
    if pv.len() == 0 {
        return string_from_chars(&sv);
    }
    let mut i: usize = 0;
    assert(sv@.skip(0) =~= sv@);
    while matches_at(&sv, i, &pv)
        invariant
            i <= sv.len(),
            pv.len() > 0,
            spec_trim_start_matches(sv@, pv@) == spec_trim_start_matches(sv@.skip(i as int), pv@),
        decreases sv.len() - i,
    {
        proof {
            let rest = sv@.skip(i as int);
            assert(rest.subrange(0, pv.len() as int) =~= sv@.subrange(i as int, i + pv.len()));
            assert(spec_starts_with(rest, pv@));
            assert(rest.skip(pv.len() as int) =~= sv@.skip(i + pv.len()));
        }
        i += pv.len();
    }
    proof {
        let rest = sv@.skip(i as int);
        if spec_starts_with(rest, pv@) {
            assert(rest.subrange(0, pv.len() as int) =~= sv@.subrange(i as int, i + pv.len()));
        }
        assert(rest =~= sv@.subrange(i as int, sv.len() as int));
    }
    string_from_range(&sv, i, sv.len())
}

/// The lower-case form of an ASCII capital letter; any other character is kept.
pub open spec fn spec_ascii_lower(c: char) -> char {
    if 'A' <= c && c <= 'Z' {
        ((c as u8) + 32) as char
    } else {
        c
    }
}

/// Executable form of [`spec_ascii_lower`].
pub fn ascii_lower(c: char) -> (r: char)
    ensures
        r == spec_ascii_lower(c),
{
    if 'A' <= c && c <= 'Z' {
        ((c as u8) + 32) as char
    } else {
        c
    }
}

/// `s` with every ASCII capital letter replaced by its lower-case form.
pub open spec fn spec_to_ascii_lowercase(s: Seq<char>) -> Seq<char> {
    s.map_values(|c: char| spec_ascii_lower(c))
}

/// The lower-cased characters of `s`.
pub fn lowercase_chars(s: &str) -> (r: Vec<char>)
    ensures
        r@ == spec_to_ascii_lowercase(s@),
{
    let sv = str_chars(s);
    let mut out: Vec<char> = Vec::new();
    let mut i: usize = 0;
    while i < sv.len()
        invariant
            i <= sv.len(),
            out@ == spec_to_ascii_lowercase(sv@.take(i as int)),
        decreases sv.len() - i,
    {
        out.push(ascii_lower(sv[i]));
        proof {
            assert(sv@.take(i + 1) =~= sv@.take(i as int).push(sv[i as int]));
            assert(out@ =~= spec_to_ascii_lowercase(sv@.take(i + 1)));
        }
        i += 1;
    }
    assert(sv@.take(sv.len() as int) == sv@);
    out
}

/// Whether `lower` contains the characters of `pattern`.
pub fn contains_str(lower: &Vec<char>, pattern: &str) -> (r: bool)
    ensures
        r == spec_contains(lower@, pattern@),
{
    let p = str_chars(pattern);
    contains(lower, &p)
}

/// An optional string as an optional character sequence.
pub open spec fn opt_chars(o: Option<String>) -> Option<Seq<char>> {
    match o {
        Some(s) => Some(s@),
        None => None,
    }
}

/// A list of strings as a sequence of character sequences.
pub open spec fn strings_view(v: Seq<String>) -> Seq<Seq<char>> {
    Seq::new(v.len(), |i: int| v[i]@)
}

/// A copy of a list of strings.
pub fn clone_strings(v: &Vec<String>) -> (r: Vec<String>)
    ensures
        strings_view(r@) == strings_view(v@),
{
    let mut out: Vec<String> = Vec::new();
    let mut i: usize = 0;
    while i < v.len()
        invariant
            i <= v.len(),
            out.len() == i,
            forall|j: int| 0 <= j < i ==> out[j]@ == v[j]@,
        decreases v.len() - i,
    {
        out.push(v[i].clone());
        i += 1;
    }
    assert(strings_view(out@) =~= strings_view(v@));
    out
}

/// A copy of an optional string.
pub fn clone_opt_string(o: &Option<String>) -> (r: Option<String>)
    ensures
        opt_chars(r) == opt_chars(*o),
{
    match o {
        Some(s) => Some(s.clone()),
        None => None,
    }
}

/// Whether a character is white space: one of the characters with the
/// Unicode property White_Space. These are the controls from tab to
/// carriage return, the space, the next-line control, the no-break space,
/// the ogham space mark, the spaces from en quad to hair space, the line
/// and the paragraph separator, the narrow no-break space, the medium
/// mathematical space and the ideographic space.
pub open spec fn spec_is_whitespace(c: char) -> bool {
    let n = c as u32;
    (0x09 <= n <= 0x0d) || n == 0x20 || n == 0x85 || n == 0xa0 || n == 0x1680 || (0x2000 <= n
        <= 0x200a) || n == 0x2028 || n == 0x2029 || n == 0x202f || n == 0x205f || n == 0x3000
}

/// Whether a character is white space.
pub fn char_is_whitespace(c: char) -> (r: bool)
    ensures
        r == spec_is_whitespace(c),
{
    let n: u32 = c as u32;
    (0x09 <= n && n <= 0x0d) || n == 0x20 || n == 0x85 || n == 0xa0 || n == 0x1680 || (0x2000 <= n
        && n <= 0x200a) || n == 0x2028 || n == 0x2029 || n == 0x202f || n == 0x205f || n == 0x3000
}

/// Number of white-space characters at the start of `s`.
pub open spec fn spec_leading_space(s: Seq<char>) -> int
    decreases s.len(),
{
    if s.len() > 0 && spec_is_whitespace(s[0]) {
        1 + spec_leading_space(s.skip(1))
    } else {
        0
    }
}

/// Number of white-space characters at the end of `s`.
pub open spec fn spec_trailing_space(s: Seq<char>) -> int
    decreases s.len(),
{
    if s.len() > 0 && spec_is_whitespace(s.last()) {
        1 + spec_trailing_space(s.drop_last())
    } else {
        0
    }
}

/// `s` without the white space at its start.
pub open spec fn spec_trim_start(s: Seq<char>) -> Seq<char> {
    s.skip(spec_leading_space(s))
}

/// `s` without the white space at its end.
pub open spec fn spec_trim_end(s: Seq<char>) -> Seq<char> {
    s.take(s.len() - spec_trailing_space(s))
}

/// `s` without the white space at its start and at its end.
pub open spec fn spec_trim(s: Seq<char>) -> Seq<char> {
    spec_trim_end(spec_trim_start(s))
}

/// The leading white space of a sequence is a part of it.
pub proof fn lemma_leading_space_bound(s: Seq<char>)
    ensures
        0 <= spec_leading_space(s) <= s.len(),
    decreases s.len(),
{
    if s.len() > 0 && spec_is_whitespace(s[0]) {
        lemma_leading_space_bound(s.skip(1));
    }
}

/// The trailing white space of a sequence is a part of it.
pub proof fn lemma_trailing_space_bound(s: Seq<char>)
    ensures
        0 <= spec_trailing_space(s) <= s.len(),
    decreases s.len(),
{
    if s.len() > 0 && spec_is_whitespace(s.last()) {
        lemma_trailing_space_bound(s.drop_last());
    }
}

/// Position of the first character of `v` at or after `from` that is not white space.
pub fn skip_space(v: &Vec<char>, from: usize) -> (r: usize)
    requires
        from <= v.len(),
    ensures
        from <= r <= v.len(),
        r - from == spec_leading_space(v@.skip(from as int)),
{
    let mut i: usize = from;
    while i < v.len() && char_is_whitespace(v[i])
        invariant
            from <= i <= v.len(),
            spec_leading_space(v@.skip(from as int)) == (i - from) + spec_leading_space(
                v@.skip(i as int),
            ),
        decreases v.len() - i,
    {
        proof {
            assert(v@.skip(i as int)[0] == v[i as int]);
            assert(v@.skip(i as int).skip(1) =~= v@.skip(i + 1));
        }
        i += 1;
    }
    proof {
        if i < v.len() {
            assert(v@.skip(i as int)[0] == v[i as int]);
        }
    }
    i
}

/// Position just behind the last character of `v[from..]` that is not white space.
pub fn skip_space_back(v: &Vec<char>, from: usize) -> (r: usize)
    requires
        from <= v.len(),
    ensures
        from <= r <= v.len(),
        v.len() - r == spec_trailing_space(v@.skip(from as int)),
{
    let mut j: usize = v.len();
    proof {
        assert(v@.subrange(from as int, j as int) =~= v@.skip(from as int));
    }
    while j > from && char_is_whitespace(v[j - 1])
        invariant
            from <= j <= v.len(),
            spec_trailing_space(v@.skip(from as int)) == (v.len() - j) + spec_trailing_space(
                v@.subrange(from as int, j as int),
            ),
        decreases j,
    {
        proof {
            let cur = v@.subrange(from as int, j as int);
            assert(cur.last() == v[j - 1]);
            assert(cur.drop_last() =~= v@.subrange(from as int, j - 1));
        }
        j -= 1;
    }
    proof {
        let cur = v@.subrange(from as int, j as int);
        if j > from {
            assert(cur.last() == v[j - 1]);
        }
    }
    j
}

/// The characters of `s` without the white space at its start and at its end.
pub fn trim_chars(s: &str) -> (r: Vec<char>)
    ensures
        r@ == spec_trim(s@),
{
    let v = str_chars(s);
    let from = skip_space(&v, 0);
    let to = skip_space_back(&v, from);
    let mut out: Vec<char> = Vec::new();
    let mut i: usize = from;
    while i < to
        invariant
            from <= i <= to <= v.len(),
            out@ == v@.subrange(from as int, i as int),
        decreases to - i,
    {
        out.push(v[i]);
        i += 1;
    }
    proof {
        assert(v@.skip(0) =~= v@);
        let t = spec_trim_start(v@);
        assert(t =~= v@.skip(from as int));
        assert(spec_trim_end(t) =~= v@.subrange(from as int, to as int));
    }
    out
}

/// `s` without the white space at its start and at its end.
pub fn trim(s: &str) -> (r: String)
    ensures
        r@ == spec_trim(s@),
{
    let v = trim_chars(s);
    string_from_chars(&v)
}

/// The lower-case form of a text, as `str::to_lowercase` has it.
pub uninterp spec fn spec_to_lowercase(s: Seq<char>) -> Seq<char>;

/// `str::to_lowercase`: the lower-case form of the text by the rules of Unicode.
#[verifier::external_body]
pub(crate) fn to_lowercase(s: &str) -> (r: String)
    ensures
        r@ == spec_to_lowercase(s@),
{
    s.to_lowercase()
}

/// The text that bytes stand for, as `String::from_utf8_lossy` has it.
pub uninterp spec fn spec_utf8_lossy(bytes: Seq<u8>) -> Seq<char>;

/// `String::from_utf8_lossy`: the text that the bytes encode, with the
/// replacement character in place of what is not UTF-8.
#[verifier::external_body]
pub(crate) fn utf8_lossy(bytes: &[u8]) -> (r: String)
    ensures
        r@ == spec_utf8_lossy(bytes@),
{
    String::from_utf8_lossy(bytes).into_owned()
}

/// Whether a character is one of the digits `0` to `9`.
pub open spec fn spec_is_digit(c: char) -> bool {
    0x30 <= c as u32 <= 0x39
}

/// Whether a text is made of digits only.
pub open spec fn spec_all_digits(s: Seq<char>) -> bool {
    forall|i: int| 0 <= i < s.len() ==> spec_is_digit(#[trigger] s[i])
}

/// The number that a text of digits is the decimal notation of; zero for
/// the empty text.
pub open spec fn spec_digits_value(s: Seq<char>) -> int
    decreases s.len(),
{
    if s.len() == 0 {
        0
    } else {
        spec_digits_value(s.drop_last()) * 10 + (s.last() as u32 - 0x30)
    }
}

/// The number that a text stands for: an optional sign, `+` or `-`, and
/// then one digit or more, if the number fits 32 bits; nothing for any
/// other text.
pub open spec fn spec_parse_i32(s: Seq<char>) -> Option<i32> {
    let negative = s.len() > 0 && s[0] == '-';
    let digits = if s.len() > 0 && (s[0] == '-' || s[0] == '+') {
        s.skip(1)
    } else {
        s
    };
    let value = if negative {
        -spec_digits_value(digits)
    } else {
        spec_digits_value(digits)
    };
    if digits.len() == 0 || !spec_all_digits(digits) || value < i32::MIN || value > i32::MAX {
        None
    } else {
        Some(value as i32)
    }
}

/// A text of digits stands for a number that is not negative and not
/// smaller than the number that any of its beginnings stands for.
pub proof fn lemma_digits_value_grows(s: Seq<char>, k: int)
    requires
        spec_all_digits(s),
        0 <= k <= s.len(),
    ensures
        0 <= spec_digits_value(s.take(k)) <= spec_digits_value(s),
    decreases s.len(),
{
    if s.len() == 0 {
        assert(s.take(k) =~= s);
    } else if k == s.len() {
        assert(s.take(k) =~= s);
        assert(spec_is_digit(s[s.len() - 1]));
        lemma_digits_value_grows(s.drop_last(), 0);
    } else {
        assert(spec_is_digit(s[s.len() - 1]));
        assert forall|i: int| 0 <= i < s.drop_last().len() implies spec_is_digit(
            #[trigger] s.drop_last()[i],
        ) by {
            assert(s.drop_last()[i] == s[i]);
        }
        lemma_digits_value_grows(s.drop_last(), k);
        assert(s.drop_last().take(k) =~= s.take(k));
    }
}

/// The number that a text stands for.
pub fn parse_i32(s: &str) -> (r: Option<i32>)
    ensures
        r == spec_parse_i32(s@),
{
    let chars = str_chars(s);
    let mut start: usize = 0;
    let mut negative = false;
    if chars.len() > 0 && (chars[0] == '-' || chars[0] == '+') {
        start = 1;
        negative = chars[0] == '-';
    }
    let ghost digits = chars@.skip(start as int);
    proof {
        assert(chars@.skip(0) =~= chars@);
        assert(digits == if s@.len() > 0 && (s@[0] == '-' || s@[0] == '+') {
            s@.skip(1)
        } else {
            s@
        });
        assert(negative == (s@.len() > 0 && s@[0] == '-'));
    }
    if start >= chars.len() {
        assert(digits.len() == 0);
        return None;
    }
    let mut acc: i64 = 0;
    let mut i: usize = start;
    assert(digits.take(0) =~= Seq::<char>::empty());
    while i < chars.len()
        invariant
            start <= i <= chars.len(),
            digits == chars@.skip(start as int),
            digits == if s@.len() > 0 && (s@[0] == '-' || s@[0] == '+') {
                s@.skip(1)
            } else {
                s@
            },
            negative == (s@.len() > 0 && s@[0] == '-'),
            spec_all_digits(digits.take(i - start)),
            acc == spec_digits_value(digits.take(i - start)),
            0 <= acc <= 2147483648,
        decreases chars.len() - i,
    {
        let c: char = chars[i];
        let n: u32 = c as u32;
        let ghost k = i - start;
        proof {
            assert(digits[k] == chars[i as int]);
            assert(digits.take(k + 1).drop_last() =~= digits.take(k));
            assert(digits.take(k + 1).last() == digits[k]);
        }
        if n < 0x30 || n > 0x39 {
            assert(!spec_is_digit(digits[k]));
            return None;
        }
        acc = acc * 10 + (n - 0x30) as i64;
        proof {
            assert forall|j: int| 0 <= j < k + 1 implies spec_is_digit(
                #[trigger] digits.take(k + 1)[j],
            ) by {
                if j < k {
                    assert(digits.take(k + 1)[j] == digits.take(k)[j]);
                }
            }
        }
        if acc > 2147483648 {
            proof {
                if spec_all_digits(digits) {
                    lemma_digits_value_grows(digits, k + 1);
                }
            }
            return None;
        }
        i += 1;
    }
    assert(digits.take(i - start) =~= digits);
    if negative {
        Some((-acc) as i32)
    } else if acc > 2147483647 {
        None
    } else {
        Some(acc as i32)
    }
}

/// The character for a hexadecimal digit, in lower case.
pub open spec fn spec_hex_digit(d: int) -> char {
    if d < 10 {
        (0x30 + d) as char
    } else {
        (0x61 + d - 10) as char
    }
}

/// The hexadecimal notation of a number that is not negative, in lower
/// case and without leading zeros.
pub open spec fn spec_hex(n: int) -> Seq<char>
    decreases n,
{
    if n < 16 {
        seq![spec_hex_digit(n)]
    } else {
        spec_hex(n / 16).push(spec_hex_digit(n % 16))
    }
}

/// The escaped form of a character, as it is written in a string
/// literal: tab, carriage return, line feed, the two quotes and the
/// backslash behind a backslash; any other printable ASCII character as it
/// is; every other character by its code point in hexadecimal notation, in
/// braces behind `\u`.
pub open spec fn spec_escape_default(c: char) -> Seq<char> {
    let n = c as u32;
    if n == 0x09 {
        seq!['\\', 't']
    } else if n == 0x0d {
        seq!['\\', 'r']
    } else if n == 0x0a {
        seq!['\\', 'n']
    } else if n == 0x27 || n == 0x22 || n == 0x5c {
        seq!['\\', c]
    } else if 0x20 <= n <= 0x7e {
        seq![c]
    } else {
        seq!['\\', 'u', '{'] + spec_hex(n as int) + seq!['}']
    }
}

/// The hexadecimal notation of a number.
fn hex(n: u32) -> (r: String)
    ensures
        r@ == spec_hex(n as int),
    decreases n,
{
    let d: u8 = (n % 16) as u8;
    let c: char = if d < 10 {
        (0x30 + d) as char
    } else {
        (0x61 + d - 10) as char
    };
    assert(c == spec_hex_digit((n % 16) as int));
    if n < 16 {
        let mut s = String::new();
        push_char(&mut s, c);
        assert(s@ =~= seq![spec_hex_digit(n as int)]);
        s
    } else {
        let mut s = hex(n / 16);
        push_char(&mut s, c);
        s
    }
}

/// The escaped form of a character.
pub fn escape_default(c: char) -> (r: String)
    ensures
        r@ == spec_escape_default(c),
{
    let n: u32 = c as u32;
    let mut out = String::new();
    if n == 0x09 {
        push_char(&mut out, '\\');
        push_char(&mut out, 't');
        assert(out@ =~= seq!['\\', 't']);
    } else if n == 0x0d {
        push_char(&mut out, '\\');
        push_char(&mut out, 'r');
        assert(out@ =~= seq!['\\', 'r']);
    } else if n == 0x0a {
        push_char(&mut out, '\\');
        push_char(&mut out, 'n');
        assert(out@ =~= seq!['\\', 'n']);
    } else if n == 0x27 || n == 0x22 || n == 0x5c {
        push_char(&mut out, '\\');
        push_char(&mut out, c);
        assert(out@ =~= seq!['\\', c]);
    } else if 0x20 <= n && n <= 0x7e {
        push_char(&mut out, c);
        assert(out@ =~= seq![c]);
    } else {
        push_char(&mut out, '\\');
        push_char(&mut out, 'u');
        push_char(&mut out, '{');
        assert(out@ =~= seq!['\\', 'u', '{']);
        out.append(hex(n).as_str());
        push_char(&mut out, '}');
        assert(out@ =~= seq!['\\', 'u', '{'] + spec_hex(n as int) + seq!['}']);
    }
    out
}

/// The escaped forms of the characters of `s`, one after the other.
pub open spec fn spec_escape_all(s: Seq<char>) -> Seq<char>
    decreases s.len(),
{
    if s.len() == 0 {
        Seq::empty()
    } else {
        spec_escape_all(s.drop_last()) + spec_escape_default(s.last())
    }
}

/// The first `max_chars` characters of a text, or all if there are fewer.
pub open spec fn spec_take_chars(s: Seq<char>, max_chars: int) -> Seq<char> {
    if max_chars < s.len() {
        s.take(max_chars)
    } else {
        s
    }
}

/// The first `max_chars` characters of a text, each in its escaped form.
pub open spec fn spec_body_preview(text: Seq<char>, max_chars: int) -> Seq<char> {
    spec_escape_all(spec_take_chars(text, max_chars))
}

/// The first `max_chars` characters of a text, each in its escaped form:
/// what of an answer's body goes into a message or a log line.
pub fn body_preview(text: &str, max_chars: usize) -> (r: String)
    ensures
        r@ == spec_body_preview(text@, max_chars as int),
{
    let chars = str_chars(text);
    let n = if max_chars < chars.len() {
        max_chars
    } else {
        chars.len()
    };
    let mut out = String::new();
    let mut i: usize = 0;
    assert(chars@.take(0) =~= Seq::empty());
    while i < n
        invariant
            i <= n <= chars.len(),
            out@ == spec_escape_all(chars@.take(i as int)),
        decreases n - i,
    {
        proof {
            assert(chars@.take(i + 1).drop_last() =~= chars@.take(i as int));
            assert(chars@.take(i + 1).last() == chars@[i as int]);
        }
        let piece = escape_default(chars[i]);
        out.append(piece.as_str());
        i += 1;
    }
    assert(chars@.take(chars.len() as int) =~= chars@);
    out
}

/// The first `max_chars` characters of the text that the bytes stand for,
/// each in its escaped form.
pub fn body_preview_from_bytes(bytes: &[u8], max_chars: usize) -> (r: String)
    ensures
        r@ == spec_body_preview(spec_utf8_lossy(bytes@), max_chars as int),
{
    let text = utf8_lossy(bytes);
    body_preview(text.as_str(), max_chars)
}

/// Position of the first occurrence of `c` in `s`, if there is one.
pub fn find_char(s: &Vec<char>, c: char) -> (r: Option<usize>)
    ensures
        r is Some <==> s@.contains(c),
        r matches Some(i) ==> i < s.len() && s[i as int] == c && forall|j: int|
            0 <= j < i ==> s[j] != c,
{
    let mut i: usize = 0;
    while i < s.len()
        invariant
            i <= s.len(),
            forall|j: int| 0 <= j < i ==> s[j] != c,
        decreases s.len() - i,
    {
        if s[i] == c {
            return Some(i);
        }
        i += 1;
    }
    None
}

/// `s` without the characters that `drop` holds.
pub open spec fn spec_without_chars(s: Seq<char>, drop: Seq<char>) -> Seq<char> {
    s.filter(|c: char| !drop.contains(c))
}

/// The characters of `s` but those that `drop` holds.
pub fn without_chars(s: &Vec<char>, drop: &Vec<char>) -> (r: Vec<char>)
    ensures
        r@ == spec_without_chars(s@, drop@),
{
    let ghost keep = |c: char| !drop@.contains(c);
    let mut out: Vec<char> = Vec::new();
    let mut i: usize = 0;
    proof {
        reveal(Seq::filter);
        assert(s@.take(0).filter(keep) =~= Seq::empty());
    }
    while i < s.len()
        invariant
            i <= s.len(),
            keep == |c: char| !drop@.contains(c),
            out@ == s@.take(i as int).filter(keep),
        decreases s.len() - i,
    {
        proof {
            assert(s@.take(i + 1) =~= s@.take(i as int).push(s@[i as int]));
            s@.take(i as int).lemma_filter_push(s@[i as int], keep);
        }
        if find_char(drop, s[i]).is_none() {
            out.push(s[i]);
        }
        i += 1;
    }
    assert(s@.take(i as int) =~= s@);
    out
}

/// The character for a digit.
pub open spec fn spec_digit(d: int) -> char {
    (('0' as u8) + d) as char
}

/// The decimal notation of a number that is not negative.
pub open spec fn spec_decimal_nat(n: int) -> Seq<char>
    decreases n,
{
    if n < 10 {
        seq![spec_digit(n)]
    } else {
        spec_decimal_nat(n / 10).push(spec_digit(n % 10))
    }
}

/// The decimal notation of a number.
pub open spec fn spec_decimal(n: int) -> Seq<char> {
    if n < 0 {
        seq!['-'] + spec_decimal_nat(-n)
    } else {
        spec_decimal_nat(n)
    }
}

/// The decimal notation of a number that is not negative.
pub fn decimal_u64(n: u64) -> (r: String)
    ensures
        r@ == spec_decimal_nat(n as int),
    decreases n,
{
    if n < 10 {
        let mut s = String::new();
        push_char(&mut s, (('0' as u8) + (n as u8)) as char);
        assert(s@ =~= seq![spec_digit(n as int)]);
        s
    } else {
        let mut s = decimal_u64(n / 10);
        push_char(&mut s, (('0' as u8) + ((n % 10) as u8)) as char);
        s
    }
}

/// The decimal notation of a number.
pub fn decimal_i64(n: i64) -> (r: String)
    ensures
        r@ == spec_decimal(n as int),
{
    if n < 0 {
        let magnitude: u64 = (-(n as i128)) as u64;
        let digits = decimal_u64(magnitude);
        proof {
            reveal_strlit("-");
            assert("-"@ =~= seq!['-']);
        }
        "-".to_owned().concat(digits.as_str())
    } else {
        decimal_u64(n as u64)
    }
}

/// The texts one after the other.
pub open spec fn spec_concat(parts: Seq<Seq<char>>) -> Seq<char>
    decreases parts.len(),
{
    if parts.len() == 0 {
        Seq::empty()
    } else {
        spec_concat(parts.drop_last()) + parts.last()
    }
}

/// The texts one after the other.
pub fn concat(parts: &Vec<String>) -> (r: String)
    ensures
        r@ == spec_concat(strings_view(parts@)),
{
    let ghost pv = strings_view(parts@);
    let mut out = String::new();
    let mut i: usize = 0;
    assert(pv.take(0) =~= Seq::empty());
    while i < parts.len()
        invariant
            i <= parts.len(),
            pv == strings_view(parts@),
            out@ == spec_concat(pv.take(i as int)),
        decreases parts.len() - i,
    {
        proof {
            assert(pv.take(i + 1).drop_last() =~= pv.take(i as int));
            assert(pv.take(i + 1).last() == pv[i as int]);
        }
        out.append(parts[i].as_str());
        i += 1;
    }
    assert(pv.take(i as int) =~= pv);
    out
}

/// Position in `v` behind every repetition of `p` that starts at `from`.
pub fn skip_repeated(v: &Vec<char>, from: usize, p: &Vec<char>) -> (r: usize)
    requires
        from <= v.len(),
    ensures
        from <= r <= v.len(),
        v@.skip(r as int) == spec_trim_start_matches(v@.skip(from as int), p@),
{
    if p.len() == 0 {
        return from;
    }
    let mut i: usize = from;
    while matches_at(v, i, p)
        invariant
            from <= i <= v.len(),
            p.len() > 0,
            spec_trim_start_matches(v@.skip(from as int), p@) == spec_trim_start_matches(
                v@.skip(i as int),
                p@,
            ),
        decreases v.len() - i,
    {
        proof {
            let rest = v@.skip(i as int);
            assert(rest.subrange(0, p.len() as int) =~= v@.subrange(i as int, i + p.len()));
            assert(spec_starts_with(rest, p@));
            assert(rest.skip(p.len() as int) =~= v@.skip(i + p.len()));
        }
        i += p.len();
    }
    proof {
        let rest = v@.skip(i as int);
        if spec_starts_with(rest, p@) {
            assert(rest.subrange(0, p.len() as int) =~= v@.subrange(i as int, i + p.len()));
        }
    }
    i
}

/// Whether `v[from..]` begins with `p`.
pub fn starts_with_at(v: &Vec<char>, from: usize, p: &Vec<char>) -> (r: bool)
    requires
        from <= v.len(),
    ensures
        r == spec_starts_with(v@.skip(from as int), p@),
{
    proof {
        let rest = v@.skip(from as int);
        if from + p.len() <= v.len() {
            assert(rest.subrange(0, p.len() as int) =~= v@.subrange(from as int, from + p.len()));
        }
    }
    matches_at(v, from, p)
}

/// The characters of `s` from position `from` on.
pub fn chars_from(v: &Vec<char>, from: usize, to: usize) -> (r: Vec<char>)
    requires
        from <= to <= v.len(),
    ensures
        r@ == v@.subrange(from as int, to as int),
{
    let mut out: Vec<char> = Vec::new();
    let mut i: usize = from;
    while i < to
        invariant
            from <= i <= to <= v.len(),
            out@ == v@.subrange(from as int, i as int),
        decreases to - i,
    {
        out.push(v[i]);
        i += 1;
    }
    out
}

} // verus!
