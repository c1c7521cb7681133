//! Choosing the browser that the upstream client passes for, and the
//! timeouts of the client.

use vstd::prelude::*;
use crate::text::{
    decimal_u64, lowercase_chars, spec_decimal_nat, spec_starts_with, spec_to_ascii_lowercase,
    spec_trim, spec_utf8_lossy, spec_without_chars, starts_with, str_chars, trim, utf8_lossy,
    without_chars,
};

verus! {

/// A family of browsers.
#[derive(Debug, Clone, Copy, PartialEq, Eq, Structural)]
pub enum Browser {
    Chrome,
    Edge,
    Firefox,
    Safari,
}

/// A browser that the client can pass for: its family and its version.
/// The version of a Safari is written without the dots: 1721 for 17.2.1.
#[derive(Debug, Clone, Copy, PartialEq, Eq, Structural)]
pub struct Emulation {
    pub browser: Browser,
    pub version: u16,
}

/// The browser that is taken when none is named or the name is not known.
pub open spec fn spec_default_emulation() -> Emulation {
    Emulation { browser: Browser::Chrome, version: 136 }
}

/// Whether the client can pass for this version of Chrome.
pub open spec fn spec_chrome_version(v: int) -> bool {
    v == 100 || v == 101 || (104 <= v <= 110) || v == 114 || (116 <= v <= 120) || v == 123 || v
        == 124 || (126 <= v <= 143)
}

/// Whether the client can pass for this version of Edge.
pub open spec fn spec_edge_version(v: int) -> bool {
    v == 101 || v == 122 || v == 127 || v == 131 || (134 <= v <= 142)
}

/// Whether the client can pass for this version of Firefox.
pub open spec fn spec_firefox_version(v: int) -> bool {
    v == 109 || v == 117 || v == 128 || v == 133 || v == 135 || v == 136 || v == 139 || (142 <= v
        <= 146)
}

/// Whether the client can pass for this version of Safari.
pub open spec fn spec_safari_version(v: int) -> bool {
    v == 153 || v == 155 || v == 16 || v == 165 || v == 170 || v == 1721 || v == 1741
}

/// Whether the client can pass for this version of a family.
pub open spec fn spec_known_version(browser: Browser, v: int) -> bool {
    match browser {
        Browser::Chrome => spec_chrome_version(v),
        Browser::Edge => spec_edge_version(v),
        Browser::Firefox => spec_firefox_version(v),
        Browser::Safari => spec_safari_version(v),
    }
}

/// Executable form of [`spec_known_version`].
pub fn known_version(browser: Browser, v: u16) -> (r: bool)
    ensures
        r == spec_known_version(browser, v as int),
{
    match browser {
        Browser::Chrome => v == 100 || v == 101 || (104 <= v && v <= 110) || v == 114 || (116 <= v
            && v <= 120) || v == 123 || v == 124 || (126 <= v && v <= 143),
        Browser::Edge => v == 101 || v == 122 || v == 127 || v == 131 || (134 <= v && v <= 142),
        Browser::Firefox => v == 109 || v == 117 || v == 128 || v == 133 || v == 135 || v == 136
            || v == 139 || (142 <= v && v <= 146),
        Browser::Safari => v == 153 || v == 155 || v == 16 || v == 165 || v == 170 || v == 1721
            || v == 1741,
    }
}

/// Whether a character is a decimal digit.
pub open spec fn spec_is_digit(c: char) -> bool {
    '0' <= c && c <= '9'
}

/// Number of characters at the start of `s` that are no digits.
pub open spec fn spec_leading_non_digits(s: Seq<char>) -> int
    decreases s.len(),
{
    if s.len() > 0 && !spec_is_digit(s[0]) {
        1 + spec_leading_non_digits(s.skip(1))
    } else {
        0
    }
}

/// Number of characters at the start of `s` that are digits.
pub open spec fn spec_leading_digits(s: Seq<char>) -> int
    decreases s.len(),
{
    if s.len() > 0 && spec_is_digit(s[0]) {
        1 + spec_leading_digits(s.skip(1))
    } else {
        0
    }
}

/// The leading runs of a text are parts of it.
pub proof fn lemma_leading_runs(s: Seq<char>)
    ensures
        0 <= spec_leading_non_digits(s) <= s.len(),
        0 <= spec_leading_digits(s) <= s.len(),
    decreases s.len(),
{
    if s.len() > 0 {
        lemma_leading_runs(s.skip(1));
    }
}

/// The first run of digits in a text; empty if there is none.
pub open spec fn spec_first_digits(s: Seq<char>) -> Seq<char> {
    let rest = s.skip(spec_leading_non_digits(s));
    rest.take(spec_leading_digits(rest))
}

/// The first run of digits in a text.
pub fn first_digits(s: &Vec<char>) -> (r: Vec<char>)
    ensures
        r@ == spec_first_digits(s@),
{
    let mut i: usize = 0;
    assert(s@.skip(0) =~= s@);
    while i < s.len() && !('0' <= s[i] && s[i] <= '9')
        invariant
            i <= s.len(),
            spec_leading_non_digits(s@) == i + spec_leading_non_digits(s@.skip(i as int)),
        decreases s.len() - i,
    {
        proof {
            assert(s@.skip(i as int)[0] == s[i as int]);
            assert(s@.skip(i as int).skip(1) =~= s@.skip(i + 1));
        }
        i += 1;
    }
    proof {
        if i < s.len() {
            assert(s@.skip(i as int)[0] == s[i as int]);
        }
    }
    let mut j: usize = i;
    let ghost rest = s@.skip(i as int);
    assert(rest.skip(0) =~= rest);
    let mut out: Vec<char> = Vec::new();
    while j < s.len() && ('0' <= s[j] && s[j] <= '9')
        invariant
            i <= j <= s.len(),
            rest == s@.skip(i as int),
            spec_leading_digits(rest) == (j - i) + spec_leading_digits(rest.skip(j - i)),
            out@ == rest.take(j - i),
        decreases s.len() - j,
    {
        proof {
            assert(rest.skip(j - i)[0] == s[j as int]);
            assert(rest.skip(j - i).skip(1) =~= rest.skip(j - i + 1));
            assert(rest.take(j - i + 1) =~= rest.take(j - i).push(s[j as int]));
        }
        out.push(s[j]);
        j += 1;
    }
    proof {
        if j < s.len() {
            assert(rest.skip(j - i)[0] == s[j as int]);
        }
    }
    out
}

/// The characters that do not count in the name of a browser.
pub open spec fn spec_name_noise() -> Seq<char> {
    seq!['-', '_']
}

/// The name of a browser as it is read: trimmed, in lower case, without
/// hyphens and underscores.
pub open spec fn spec_browser_name(raw: Seq<char>) -> Seq<char> {
    spec_without_chars(spec_to_ascii_lowercase(spec_trim(raw)), spec_name_noise())
}

/// The family that a name begins with, if it begins with one.
pub open spec fn spec_family(name: Seq<char>) -> Option<Browser> {
    if spec_starts_with(name, "chrome"@) {
        Some(Browser::Chrome)
    } else if spec_starts_with(name, "edge"@) {
        Some(Browser::Edge)
    } else if spec_starts_with(name, "firefox"@) {
        Some(Browser::Firefox)
    } else {
        None
    }
}

/// The browser of a family whose version is written by the digits, if the
/// client can pass for it; else the one that stands in for the family.
pub open spec fn spec_pick_version(browser: Browser, digits: Seq<char>) -> Emulation {
    if exists|v: u16| spec_known_version(browser, v as int) && spec_decimal_nat(v as int) == digits {
        Emulation {
            browser,
            version: choose|v: u16|
                spec_known_version(browser, v as int) && spec_decimal_nat(v as int) == digits,
        }
    } else {
        Emulation { browser, version: 136 }
    }
}

/// The browser that a name stands for. A name that begins with `chrome`,
/// `edge` or `firefox` stands for the version that its first run of digits
/// writes, or for version 136 of its family if the client cannot pass for
/// that. A name `safari` with digits stands for that Safari. Anything else
/// stands for Chrome 136.
pub open spec fn spec_parse_emulation(raw: Seq<char>) -> Emulation {
    let name = spec_browser_name(raw);
    match spec_family(name) {
        Some(browser) => spec_pick_version(browser, spec_first_digits(name)),
        None => if spec_starts_with(name, "safari"@) && exists|v: u16|
            spec_safari_version(v as int) && "safari"@ + spec_decimal_nat(v as int) == name {
            Emulation {
                browser: Browser::Safari,
                version: choose|v: u16|
                    spec_safari_version(v as int) && "safari"@ + spec_decimal_nat(v as int)
                        == name,
            }
        } else {
            spec_default_emulation()
        },
    }
}

/// Different digits have different characters.
pub proof fn lemma_digit_injective(a: int, b: int)
    requires
        0 <= a < 10,
        0 <= b < 10,
        crate::text::spec_digit(a) == crate::text::spec_digit(b),
    ensures
        a == b,
{
    assert(crate::text::spec_digit(a) as int == 48 + a);
    assert(crate::text::spec_digit(b) as int == 48 + b);
}

/// Different numbers have different decimal notations.
pub proof fn lemma_decimal_injective(a: int, b: int)
    requires
        0 <= a,
        0 <= b,
        spec_decimal_nat(a) == spec_decimal_nat(b),
    ensures
        a == b,
    decreases a,
{
    if a < 10 && b < 10 {
        assert(spec_decimal_nat(a)[0] == crate::text::spec_digit(a));
        assert(spec_decimal_nat(b)[0] == crate::text::spec_digit(b));
        lemma_digit_injective(a, b);
    } else if a < 10 {
        lemma_decimal_len(b / 10);
        assert(spec_decimal_nat(b).len() >= 2);
    } else if b < 10 {
        lemma_decimal_len(a / 10);
        assert(spec_decimal_nat(a).len() >= 2);
    } else {
        let da = spec_decimal_nat(a / 10);
        let db = spec_decimal_nat(b / 10);
        assert(spec_decimal_nat(a).drop_last() =~= da);
        assert(spec_decimal_nat(b).drop_last() =~= db);
        assert(spec_decimal_nat(a).last() == crate::text::spec_digit(a % 10));
        assert(spec_decimal_nat(b).last() == crate::text::spec_digit(b % 10));
        lemma_digit_injective(a % 10, b % 10);
        lemma_decimal_injective(a / 10, b / 10);
    }
}

/// A decimal notation has at least one digit.
pub proof fn lemma_decimal_len(a: int)
    requires
        0 <= a,
    ensures
        spec_decimal_nat(a).len() >= 1,
    decreases a,
{
    if a >= 10 {
        lemma_decimal_len(a / 10);
    }
}

/// The version of a family that the digits write, if the client can pass for it.
fn version_of(browser: Browser, digits: &Vec<char>) -> (r: Option<u16>)
    ensures
        r matches Some(v) ==> spec_known_version(browser, v as int) && spec_decimal_nat(v as int)
            == digits@,
        r is None ==> forall|v: u16|
            !(spec_known_version(browser, v as int) && spec_decimal_nat(v as int) == digits@),
{
    let mut v: u16 = 0;
    while v < 2000
        invariant
            v <= 2000,
            forall|w: u16|
                w < v ==> !(spec_known_version(browser, w as int) && spec_decimal_nat(w as int)
                    == digits@),
        decreases 2000 - v,
    {
        if known_version(browser, v) {
            let text = decimal_u64(v as u64);
            let candidate = str_chars(text.as_str());
            if candidate.len() == digits.len() && crate::text::matches_at(digits, 0, &candidate) {
                assert(digits@.subrange(0, digits.len() as int) =~= digits@);
                return Some(v);
            }
            assert(spec_decimal_nat(v as int) != digits@) by {
                if spec_decimal_nat(v as int) == digits@ {
                    assert(digits@.subrange(0, digits.len() as int) =~= digits@);
                }
            }
        }
        v += 1;
    }
    None
}

/// The browser that a name stands for.
pub fn parse_emulation(raw: &str) -> (r: Emulation)
    ensures
        r == spec_parse_emulation(raw@),
{
    let trimmed = trim(raw);
    let lower = lowercase_chars(trimmed.as_str());
    let mut noise: Vec<char> = Vec::new();
    noise.push('-');
    noise.push('_');
    assert(noise@ =~= spec_name_noise());
    let name = without_chars(&lower, &noise);
    let family = if starts_with(&name, &str_chars("chrome")) {
        Some(Browser::Chrome)
    } else if starts_with(&name, &str_chars("edge")) {
        Some(Browser::Edge)
    } else if starts_with(&name, &str_chars("firefox")) {
        Some(Browser::Firefox)
    } else {
        None
    };
    match family {
        Some(browser) => {
            let digits = first_digits(&name);
            match version_of(browser, &digits) {
                Some(v) => {
                    proof {
                        let chosen = choose|w: u16|
                            spec_known_version(browser, w as int) && spec_decimal_nat(w as int)
                                == digits@;
                        lemma_decimal_injective(chosen as int, v as int);
                        assert(spec_family(name@) == Some(browser));
                        assert(spec_pick_version(browser, digits@).version == v);
                    }
                    Emulation { browser, version: v }
                },
                None => {
                    assert(spec_pick_version(browser, digits@).version == 136);
                    Emulation { browser, version: 136 }
                },
            }
        },
        None => {
            let prefix = str_chars("safari");
            proof {
                reveal_strlit("safari");
                assert(prefix@.len() == 6);
            }
            if !starts_with(&name, &prefix) {
                return Emulation { browser: Browser::Chrome, version: 136 };
            }
            let digits = crate::text::chars_from(&name, 6, name.len());
            proof {
                assert(name@.subrange(0, 6) == prefix@);
                assert(name@ =~= "safari"@ + digits@);
                assert forall|v: u16| ("safari"@ + spec_decimal_nat(v as int) == name@)
                    == (#[trigger] spec_decimal_nat(v as int) == digits@) by {
                    let d = spec_decimal_nat(v as int);
                    if "safari"@ + d == name@ {
                        assert(("safari"@ + d).subrange(6, name@.len() as int) =~= d);
                        assert(name@.subrange(6, name@.len() as int) =~= digits@);
                    }
                }
            }
            match version_of(Browser::Safari, &digits) {
                Some(v) => {
                    proof {
                        let chosen = choose|w: u16|
                            spec_safari_version(w as int) && "safari"@ + spec_decimal_nat(w as int)
                                == name@;
                        assert(spec_safari_version(v as int) && "safari"@ + spec_decimal_nat(
                            v as int,
                        ) == name@);
                        assert(spec_family(name@) is None);
                        assert(spec_starts_with(name@, "safari"@));
                        assert forall|w: u16|
                            spec_safari_version(w as int) && "safari"@ + #[trigger] spec_decimal_nat(
                                w as int,
                            ) == name@ implies w == v by {
                            assert(spec_decimal_nat(w as int) == digits@);
                            lemma_decimal_injective(w as int, v as int);
                        }
                        assert(spec_decimal_nat(chosen as int) == digits@);
                        lemma_decimal_injective(chosen as int, v as int);
                        assert(spec_parse_emulation(raw@).version == v);
                    }
                    Emulation { browser: Browser::Safari, version: v }
                },
                None => {
                    assert(spec_parse_emulation(raw@) == spec_default_emulation());
                    Emulation { browser: Browser::Chrome, version: 136 }
                },
            }
        },
    }
}

/// The time, in seconds, that a call may take: the one configured, at least one.
pub fn request_timeout_secs(timeout_secs: u64) -> (r: u64)
    ensures
        r == if timeout_secs < 1 {
            1
        } else {
            timeout_secs
        },
{
    if timeout_secs < 1 {
        1
    } else {
        timeout_secs
    }
}

/// The time, in seconds, that connecting may take: the one configured, at
/// least five and at most thirty.
pub fn connect_timeout_secs(timeout_secs: u64) -> (r: u64)
    ensures
        r == if timeout_secs < 5 {
            5
        } else if timeout_secs > 30 {
            30
        } else {
            timeout_secs
        },
{
    if timeout_secs < 5 {
        5
    } else if timeout_secs > 30 {
        30
    } else {
        timeout_secs
    }
}

/// The proxy that the client goes through: the one configured, trimmed;
/// none if that is empty.
pub fn proxy_of(proxy: Option<&str>) -> (r: Option<String>)
    ensures
        crate::text::opt_chars(r) == match proxy {
            Some(p) => if spec_trim(p@).len() == 0 {
                None
            } else {
                Some(spec_trim(p@))
            },
            None => None,
        },
{
    match proxy {
        Some(p) => {
            let trimmed = trim(p);
            if trimmed.as_str().is_empty() {
                None
            } else {
                Some(trimmed)
            }
        },
        None => None,
    }
}

/// The bytes of a body that have arrived and belong to no complete line yet.
#[derive(Debug)]
pub struct LineBuffer {
    pending: Vec<u8>,
}

/// A line without the line feed at its end, and without the carriage
/// return before that, if there is one.
pub open spec fn spec_line_bytes(raw: Seq<u8>) -> Seq<u8> {
    let a = if raw.len() > 0 && raw.last() == 0x0a {
        raw.drop_last()
    } else {
        raw
    };
    if a.len() > 0 && a.last() == 0x0d {
        a.drop_last()
    } else {
        a
    }
}

/// The text of a line.
pub open spec fn spec_line_text(raw: Seq<u8>) -> Seq<char> {
    spec_utf8_lossy(spec_line_bytes(raw))
}

/// Number of bytes of the first line of `b`, with its line feed; zero if
/// there is no line feed.
pub open spec fn spec_first_line_len(b: Seq<u8>) -> int
    decreases b.len(),
{
    if b.len() == 0 {
        0
    } else if b[0] == 0x0a {
        1
    } else {
        let rest = spec_first_line_len(b.skip(1));
        if rest == 0 {
            0
        } else {
            rest + 1
        }
    }
}

/// The first line is a part of the bytes.
pub proof fn lemma_first_line_len(b: Seq<u8>)
    ensures
        0 <= spec_first_line_len(b) <= b.len(),
    decreases b.len(),
{
    if b.len() > 0 && b[0] != 0x0a {
        lemma_first_line_len(b.skip(1));
    }
}

/// The complete lines of `b`, in order, each as its text.
pub open spec fn spec_complete_lines(b: Seq<u8>) -> Seq<Seq<char>>
    decreases b.len(),
{
    let n = spec_first_line_len(b);
    if n <= 0 || n > b.len() {
        Seq::empty()
    } else {
        seq![spec_line_text(b.take(n))] + spec_complete_lines(b.skip(n))
    }
}

/// What of `b` follows its last complete line.
pub open spec fn spec_incomplete(b: Seq<u8>) -> Seq<u8>
    decreases b.len(),
{
    let n = spec_first_line_len(b);
    if n <= 0 || n > b.len() {
        b
    } else {
        spec_incomplete(b.skip(n))
    }
}

impl LineBuffer {
    /// The bytes that belong to no complete line yet.
    pub closed spec fn spec_pending(&self) -> Seq<u8> {
        self.pending@
    }

    /// A buffer that holds nothing.
    pub fn new() -> (r: Self)
        ensures
            r.spec_pending() == Seq::<u8>::empty(),
    {
        LineBuffer { pending: Vec::new() }
    }

    /// Takes in a chunk of the body and gives the lines that are complete
    /// with it, in order; what follows the last line feed is kept.
    pub fn push(&mut self, chunk: &[u8]) -> (lines: Vec<String>)
        ensures
            crate::text::strings_view(lines@) == spec_complete_lines(old(self).spec_pending() + chunk@),
            final(self).spec_pending() == spec_incomplete(old(self).spec_pending() + chunk@),
    {
        let mut all: Vec<u8> = Vec::new();
        let mut k: usize = 0;
        while k < self.pending.len()
            invariant
                k <= self.pending.len(),
                all@ == self.pending@.take(k as int),
            decreases self.pending.len() - k,
        {
            all.push(self.pending[k]);
            assert(self.pending@.take(k + 1) =~= self.pending@.take(k as int).push(
                self.pending@[k as int],
            ));
            k += 1;
        }
        assert(self.pending@.take(k as int) =~= self.pending@);
        let mut k: usize = 0;
        while k < chunk.len()
            invariant
                k <= chunk.len(),
                all@ == self.pending@ + chunk@.take(k as int),
            decreases chunk.len() - k,
        {
            all.push(chunk[k]);
            assert(chunk@.take(k + 1) =~= chunk@.take(k as int).push(chunk@[k as int]));
            k += 1;
        }
        assert(chunk@.take(k as int) =~= chunk@);
        let ghost whole = all@;
        let mut lines: Vec<String> = Vec::new();
        let mut start: usize = 0;
        let mut i: usize = 0;
        proof {
            assert(whole.skip(0) =~= whole);
            assert(crate::text::strings_view(lines@) =~= Seq::empty());
        }
        while i < all.len()
            invariant
                start <= i <= all.len(),
                all@ == whole,
                spec_complete_lines(whole) == crate::text::strings_view(lines@) + spec_complete_lines(
                    whole.skip(start as int),
                ),
                spec_incomplete(whole) == spec_incomplete(whole.skip(start as int)),
                forall|j: int| start <= j < i ==> whole[j] != 0x0a,
                spec_first_line_len(whole.skip(start as int)) == if spec_first_line_len(
                    whole.skip(i as int),
                ) == 0 {
                    0
                } else {
                    (i - start) + spec_first_line_len(whole.skip(i as int))
                },
            decreases all.len() - i,
        {
            proof {
                assert(whole.skip(i as int)[0] == whole[i as int]);
                assert(whole.skip(i as int).skip(1) =~= whole.skip(i + 1));
            }
            if all[i] == 0x0a {
                let mut end: usize = i;
                if end > start && all[end - 1] == 0x0d {
                    end -= 1;
                }
                let mut line: Vec<u8> = Vec::new();
                let mut j: usize = start;
                while j < end
                    invariant
                        start <= j <= end <= all.len(),
                        line@ == all@.subrange(start as int, j as int),
                    decreases end - j,
                {
                    line.push(all[j]);
                    j += 1;
                }
                let text = utf8_lossy(line.as_slice());
                proof {
                    let rest = whole.skip(start as int);
                    let n = i - start + 1;
                    assert(spec_first_line_len(rest) == n);
                    let raw = rest.take(n);
                    assert(raw.last() == 0x0a);
                    assert(raw.drop_last() =~= whole.subrange(start as int, i as int));
                    assert(spec_line_bytes(raw) =~= line@);
                    assert(rest.skip(n) =~= whole.skip(i + 1));
                    let prev = crate::text::strings_view(lines@);
                    assert(prev + (seq![text@] + spec_complete_lines(whole.skip(i + 1))) =~= prev.push(
                        text@,
                    ) + spec_complete_lines(whole.skip(i + 1)));
                }
                let ghost prev = crate::text::strings_view(lines@);
                lines.push(text);
                assert(crate::text::strings_view(lines@) =~= prev.push(text@));
                start = i + 1;
                assert(spec_first_line_len(whole.skip(start as int)) == if spec_first_line_len(
                    whole.skip(i + 1),
                ) == 0 {
                    0
                } else {
                    (i + 1 - start) + spec_first_line_len(whole.skip(i + 1))
                });
            } else {
                proof {
                    let here = spec_first_line_len(whole.skip(i as int));
                    let next = spec_first_line_len(whole.skip(i + 1));
                    assert(here == if next == 0 {
                        0
                    } else {
                        next + 1
                    });
                    lemma_first_line_len(whole.skip(i + 1));
                    assert(spec_first_line_len(whole.skip(start as int)) == if next == 0 {
                        0
                    } else {
                        (i + 1 - start) + next
                    });
                }
            }
            i += 1;
        }
        proof {
            assert(whole.skip(i as int) =~= Seq::empty());
            assert(spec_first_line_len(whole.skip(start as int)) == 0);
            assert(crate::text::strings_view(lines@) + Seq::<Seq<char>>::empty()
                =~= crate::text::strings_view(lines@));
        }
        let mut rest: Vec<u8> = Vec::new();
        let mut j: usize = start;
        while j < all.len()
            invariant
                start <= j <= all.len(),
                rest@ == all@.subrange(start as int, j as int),
            decreases all.len() - j,
        {
            rest.push(all[j]);
            j += 1;
        }
        assert(rest@ =~= whole.skip(start as int));
        self.pending = rest;
        lines
    }

    /// Ends the body and gives the text of what was kept, if that is not empty.
    pub fn finish(self) -> (r: Option<String>)
        ensures
            r is Some <==> spec_utf8_lossy(self.spec_pending()).len() > 0,
            r matches Some(text) ==> text@ == spec_utf8_lossy(self.spec_pending()),
    {
        let text = utf8_lossy(self.pending.as_slice());
        if text.as_str().is_empty() {
            None
        } else {
            Some(text)
        }
    }
}

} // verus!
