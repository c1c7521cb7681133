//! Reading the answer to a quota query.

use vstd::prelude::*;
use crate::text::{
    body_preview as preview_of, find_char, skip_repeated, skip_space, skip_space_back,
    spec_body_preview, spec_starts_with, spec_trim, spec_trim_start, spec_trim_start_matches,
    starts_with_at, str_chars, string_from_range,
};

verus! {

/// Number of characters of a body that go into a message.
pub const PREVIEW_CHARS: usize = 200;

/// The service that asks for the quota of a credential.
#[derive(Debug, Clone, Copy)]
pub struct UsageService;

/// The byte order mark.
pub open spec fn spec_bom() -> Seq<char> {
    seq!['\u{feff}']
}

/// Whether `i` is the position of the first line feed of `s`.
pub open spec fn spec_first_line_feed(s: Seq<char>, i: int) -> bool {
    0 <= i < s.len() && s[i] == '\n' && forall|j: int| 0 <= j < i ==> s[j] != '\n'
}

/// The text without the guard line `)]}'` at its start, if it has one and
/// a line follows it.
pub open spec fn spec_drop_guard_line(s: Seq<char>) -> Seq<char> {
    if spec_starts_with(s, ")]}'"@) && s.contains('\n') {
        spec_trim_start(s.skip((choose|i: int| spec_first_line_feed(s, i)) + 1))
    } else {
        s
    }
}

/// The text without the guard loops `for (;;);` at its start.
pub open spec fn spec_drop_guard_loop(s: Seq<char>) -> Seq<char> {
    if spec_starts_with(s, "for (;;);"@) {
        spec_trim_start(spec_trim_start_matches(s, "for (;;);"@))
    } else {
        s
    }
}

/// The JSON text of an answer: without byte order marks and white space at
/// its start, without the guards that some servers put before JSON, and
/// without white space at either end.
pub open spec fn spec_normalize_json_text(raw: Seq<char>) -> Seq<char> {
    spec_trim(
        spec_drop_guard_loop(
            spec_drop_guard_line(spec_trim_start(spec_trim_start_matches(raw, spec_bom()))),
        ),
    )
}

/// Position of the first character at or after `from` that is not white
/// space; what follows it is `v[from..]` without the white space at its start.
fn trim_start_at(v: &Vec<char>, from: usize) -> (r: usize)
    requires
        from <= v.len(),
    ensures
        from <= r <= v.len(),
        v@.skip(r as int) == spec_trim_start(v@.skip(from as int)),
{
    let r = skip_space(v, from);
    assert(v@.skip(from as int).skip(r - from) =~= v@.skip(r as int));
    r
}

/// The JSON text of an answer.
pub fn normalize_json_text(raw: &str) -> (r: String)
    ensures
        r@ == spec_normalize_json_text(raw@),
{
    let v = str_chars(raw);
    let mut bom: Vec<char> = Vec::new();
    bom.push('\u{feff}');
    assert(bom@ =~= spec_bom());
    assert(v@.skip(0) =~= v@);
    let after_bom = skip_repeated(&v, 0, &bom);
    let a = trim_start_at(&v, after_bom);
    let guard_line = str_chars(")]}'");
    let mut b = a;
    if starts_with_at(&v, a, &guard_line) {
        let rest = crate::text::chars_from(&v, a, v.len());
        assert(rest@ =~= v@.skip(a as int));
        match find_char(&rest, '\n') {
            Some(i) => {
                proof {
                    let s = v@.skip(a as int);
                    let chosen = choose|k: int| spec_first_line_feed(s, k);
                    assert(spec_first_line_feed(s, i as int));
                    assert(chosen == i);
                    assert(s.skip(i + 1) =~= v@.skip(a + i + 1));
                }
                b = trim_start_at(&v, a + i + 1);
            },
            None => {},
        }
    }
    let guard_loop = str_chars("for (;;);");
    let mut c = b;
    if starts_with_at(&v, b, &guard_loop) {
        let after_loop = skip_repeated(&v, b, &guard_loop);
        c = trim_start_at(&v, after_loop);
    }
    let from = skip_space(&v, c);
    let to = skip_space_back(&v, from);
    proof {
        let s = v@.skip(c as int);
        let t = spec_trim_start(s);
        assert(t =~= v@.skip(from as int));
        assert(crate::text::spec_trim_end(t) =~= v@.subrange(from as int, to as int));
    }
    string_from_range(&v, from, to)
}

/// The first 200 characters of a body, each in its escaped form.
pub fn body_preview(text: &str) -> (r: String)
    ensures
        r@ == spec_body_preview(text@, PREVIEW_CHARS as int),
{
    preview_of(text, PREVIEW_CHARS)
}

} // verus!
