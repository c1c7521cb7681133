//! Names and addresses of uploaded and cached files.

use vstd::prelude::*;
use vstd::utf8::encode_utf8;
use crate::services::grok::rotation::{sha1_hex, spec_sha1_hex};
use crate::text::{
    chars_from, find_char, skip_repeated, spec_starts_with, spec_to_lowercase, spec_trim,
    spec_trim_start_matches, starts_with, str_chars, str_eq, string_from_chars,
    string_from_range, strings_view, to_lowercase, trim,
};

verus! {

/// The kind of content that is taken when none is named.
pub open spec fn spec_default_mime() -> Seq<char> {
    "application/octet-stream"@
}

/// Where files are fetched from upstream.
pub open spec fn spec_download_api() -> Seq<char> {
    "https://assets.grok.com"@
}

/// Whether an input names a page on the web.
pub fn is_url(input: &str) -> (r: bool)
    ensures
        r == (spec_starts_with(input@, "http://"@) || spec_starts_with(input@, "https://"@)),
{
    let chars = str_chars(input);
    starts_with(&chars, &str_chars("http://")) || starts_with(&chars, &str_chars("https://"))
}

/// Whether `i` is the position of the first occurrence of `c` in `s`.
pub open spec fn spec_first_at(s: Seq<char>, c: char, i: int) -> bool {
    0 <= i < s.len() && s[i] == c && forall|j: int| 0 <= j < i ==> s[j] != c
}

/// What of a text stands before the first occurrence of `c`; all of it if
/// there is none.
pub open spec fn spec_before(s: Seq<char>, c: char) -> Seq<char> {
    if s.contains(c) {
        s.take(choose|i: int| spec_first_at(s, c, i))
    } else {
        s
    }
}

/// What of a text stands before the first occurrence of `c`.
fn before(s: &Vec<char>, c: char) -> (r: String)
    ensures
        r@ == spec_before(s@, c),
{
    match find_char(s, c) {
        Some(i) => {
            proof {
                let chosen = choose|k: int| spec_first_at(s@, c, k);
                assert(spec_first_at(s@, c, i as int));
                assert(chosen == i);
                assert(s@.take(i as int) =~= s@.subrange(0, i as int));
            }
            string_from_range(s, 0, i)
        },
        None => string_from_chars(s),
    }
}

/// The data and the kind of content that an input in the form of a data
/// address carries: `data:`, the kind and its parameters, a comma, the
/// data. Any other input is taken as data of the default kind.
pub open spec fn spec_parse_data_uri(input: Seq<char>) -> (Seq<char>, Seq<char>) {
    if spec_starts_with(input, "data:"@) && input.skip(5).contains(',') {
        let rest = input.skip(5);
        let comma = choose|i: int| spec_first_at(rest, ',', i);
        (spec_trim(rest.skip(comma + 1)), spec_before(rest.take(comma), ';'))
    } else {
        (spec_trim(input), spec_default_mime())
    }
}

/// The data and the kind of content that an input carries.
pub fn parse_data_uri(input: &str) -> (r: (String, String))
    ensures
        (r.0@, r.1@) == spec_parse_data_uri(input@),
{
    let chars = str_chars(input);
    let prefix = str_chars("data:");
    proof {
        reveal_strlit("data:");
        assert(prefix@.len() == 5);
    }
    if starts_with(&chars, &prefix) {
        let rest = chars_from(&chars, 5, chars.len());
        assert(rest@ =~= chars@.skip(5));
        match find_char(&rest, ',') {
            Some(i) => {
                proof {
                    let chosen = choose|k: int| spec_first_at(rest@, ',', k);
                    assert(spec_first_at(rest@, ',', i as int));
                    assert(chosen == i);
                    assert(rest@.skip(i + 1) =~= rest@.subrange(i + 1, rest.len() as int));
                    assert(rest@.take(i as int) =~= rest@.subrange(0, i as int));
                }
                let meta = chars_from(&rest, 0, i);
                let data = string_from_range(&rest, i + 1, rest.len());
                return (trim(data.as_str()), before(&meta, ';'));
            },
            None => {},
        }
    }
    (trim(input), "application/octet-stream".to_owned())
}

/// The name under which a file is cached: its path without leading
/// slashes, with a hyphen in place of each slash.
pub open spec fn spec_cache_file_name(file_path: Seq<char>) -> Seq<char> {
    spec_trim_start_matches(file_path, seq!['/']).map_values(
        |c: char|
            if c == '/' {
                '-'
            } else {
                c
            },
    )
}

/// The name under which a file is cached.
pub fn cache_file_name(file_path: &str) -> (r: String)
    ensures
        r@ == spec_cache_file_name(file_path@),
{
    let chars = str_chars(file_path);
    let mut slash: Vec<char> = Vec::new();
    slash.push('/');
    assert(slash@ =~= seq!['/']);
    assert(chars@.skip(0) =~= chars@);
    let from = skip_repeated(&chars, 0, &slash);
    let ghost rest = chars@.skip(from as int);
    let mut out: Vec<char> = Vec::new();
    let mut i: usize = from;
    while i < chars.len()
        invariant
            from <= i <= chars.len(),
            rest == chars@.skip(from as int),
            out.len() == i - from,
            forall|j: int|
                0 <= j < i - from ==> out[j] == if rest[j] == '/' {
                    '-'
                } else {
                    rest[j]
                },
        decreases chars.len() - i,
    {
        let c = chars[i];
        out.push(
            if c == '/' {
                '-'
            } else {
                c
            },
        );
        i += 1;
    }
    assert(out@ =~= spec_cache_file_name(file_path@));
    string_from_chars(&out)
}

/// A path that begins with a slash.
pub open spec fn spec_rooted(file_path: Seq<char>) -> Seq<char> {
    if file_path.len() > 0 && file_path[0] == '/' {
        file_path
    } else {
        seq!['/'] + file_path
    }
}

/// What of a text is left when the slashes at its end are taken off.
pub open spec fn spec_trim_end_slashes(s: Seq<char>) -> Seq<char>
    decreases s.len(),
{
    if s.len() > 0 && s.last() == '/' {
        spec_trim_end_slashes(s.drop_last())
    } else {
        s
    }
}

/// The address under which a file is offered: on this gateway, if it has
/// an address of its own, upstream otherwise.
pub open spec fn spec_public_url(app_url: Seq<char>, file_path: Seq<char>) -> Seq<char> {
    if app_url.len() == 0 {
        spec_download_api() + spec_rooted(file_path)
    } else {
        spec_trim_end_slashes(app_url) + "/v1/files"@ + spec_rooted(file_path)
    }
}

/// A path that begins with a slash.
pub fn rooted(file_path: &str) -> (r: String)
    ensures
        r@ == spec_rooted(file_path@),
{
    let path = str_chars(file_path);
    let mut out = String::new();
    if !(path.len() > 0 && path[0] == '/') {
        proof {
            reveal_strlit("/");
            assert("/"@ =~= seq!['/']);
        }
        out.append("/");
    }
    out.append(file_path);
    assert(out@ =~= spec_rooted(file_path@));
    out
}

/// A text without the slashes at its end.
pub fn trim_end_slashes(s: &str) -> (r: String)
    ensures
        r@ == spec_trim_end_slashes(s@),
{
    let base = str_chars(s);
    let mut end: usize = base.len();
    assert(base@.subrange(0, end as int) =~= base@);
    while end > 0 && base[end - 1] == '/'
        invariant
            end <= base.len(),
            spec_trim_end_slashes(base@) == spec_trim_end_slashes(base@.subrange(0, end as int)),
        decreases end,
    {
        proof {
            let cur = base@.subrange(0, end as int);
            assert(cur.last() == base[end - 1]);
            assert(cur.drop_last() =~= base@.subrange(0, end - 1));
        }
        end -= 1;
    }
    proof {
        let cur = base@.subrange(0, end as int);
        if end > 0 {
            assert(cur.last() == base[end - 1]);
        }
    }
    string_from_range(&base, 0, end)
}

/// The address under which a file is offered.
pub fn public_url(app_url: &str, file_path: &str) -> (r: String)
    ensures
        r@ == spec_public_url(app_url@, file_path@),
{
    let path = rooted(file_path);
    if app_url.is_empty() {
        let mut out = "https://assets.grok.com".to_owned();
        out.append(path.as_str());
        return out;
    }
    let mut out = trim_end_slashes(app_url);
    out.append("/v1/files");
    out.append(path.as_str());
    out
}

/// One header of an answer: its name and its value.
#[derive(Debug)]
pub struct HeaderPair {
    pub name: String,
    pub value: String,
}

/// Whether `i` is the position of the first header with the name, whatever
/// the case of its letters.
pub open spec fn spec_header_at(headers: Seq<HeaderPair>, name: Seq<char>, i: int) -> bool {
    &&& 0 <= i < headers.len()
    &&& spec_to_lowercase(headers[i].name@) == spec_to_lowercase(name)
    &&& forall|j: int|
        0 <= j < i ==> spec_to_lowercase(headers[j].name@) != spec_to_lowercase(name)
}

/// The value of the first header with the name, whatever the case of its letters.
pub fn header_value(headers: &Vec<HeaderPair>, name: &str) -> (r: Option<String>)
    ensures
        r matches Some(v) ==> exists|i: int| spec_header_at(headers@, name@, i) && v@ == headers[i].value@,
        r is None ==> forall|i: int|
            0 <= i < headers.len() ==> spec_to_lowercase(headers[i].name@) != spec_to_lowercase(
                name@,
            ),
{
    let key = to_lowercase(name);
    let mut i: usize = 0;
    while i < headers.len()
        invariant
            i <= headers.len(),
            key@ == spec_to_lowercase(name@),
            forall|j: int| 0 <= j < i ==> spec_to_lowercase(headers[j].name@) != key@,
        decreases headers.len() - i,
    {
        if to_lowercase(headers[i].name.as_str()) == key {
            assert(spec_header_at(headers@, name@, i as int));
            return Some(headers[i].value.clone());
        }
        i += 1;
    }
    None
}

/// The page element that shows a video, with its poster if it has one.
pub open spec fn spec_video_html(video_url: Seq<char>, thumbnail_url: Seq<char>) -> Seq<char> {
    "<video id=\"video\" controls=\"\" preload=\"none\""@ + (if thumbnail_url.len() == 0 {
        Seq::empty()
    } else {
        " poster=\""@ + thumbnail_url + "\""@
    }) + ">\n  <source id=\"mp4\" src=\""@ + video_url + "\" type=\"video/mp4\">\n</video>"@
}

/// The page element that shows a video.
pub fn build_video_html(video_url: &str, thumbnail_url: &str) -> (r: String)
    ensures
        r@ == spec_video_html(video_url@, thumbnail_url@),
{
    let mut poster = String::new();
    if !thumbnail_url.is_empty() {
        poster.append(" poster=\"");
        poster.append(thumbnail_url);
        poster.append("\"");
    }
    let mut out = "<video id=\"video\" controls=\"\" preload=\"none\"".to_owned();
    out.append(poster.as_str());
    out.append(">\n  <source id=\"mp4\" src=\"");
    out.append(video_url);
    out.append("\" type=\"video/mp4\">\n</video>");
    out
}

/// The kind of content that a header names: what stands before its first
/// semicolon; the default kind where there is no header.
pub open spec fn spec_mime_of(content_type: Option<Seq<char>>) -> Seq<char> {
    match content_type {
        Some(value) => spec_before(value, ';'),
        None => spec_default_mime(),
    }
}

/// The kind of content that a header names.
pub fn mime_of(content_type: Option<&str>) -> (r: String)
    ensures
        r@ == spec_mime_of(
            match content_type {
                Some(value) => Some(value@),
                None => None,
            },
        ),
{
    match content_type {
        Some(value) => before(&str_chars(value), ';'),
        None => "application/octet-stream".to_owned(),
    }
}

/// The data address of a file: `data:`, the kind of content, `;base64,`
/// and the base64 text.
pub open spec fn spec_data_address(mime: Seq<char>, b64: Seq<char>) -> Seq<char> {
    "data:"@ + mime + ";base64,"@ + b64
}

/// The data address of a file.
pub fn data_address(mime: &str, b64: &str) -> (r: String)
    ensures
        r@ == spec_data_address(mime@, b64@),
{
    let mut out = "data:".to_owned();
    out.append(mime);
    out.append(";base64,");
    out.append(b64);
    out
}

/// The name of the lock that guards the download of a file: the kind of
/// media and the SHA-1 digest of the file's path.
pub open spec fn spec_download_lock_name(media_type: Seq<char>, file_path: Seq<char>) -> Seq<
    char,
> {
    "download_"@ + media_type + "_"@ + spec_sha1_hex(encode_utf8(file_path))
}

/// The name of the lock that guards the download of a file.
pub fn download_lock_name(media_type: &str, file_path: &str) -> (r: String)
    ensures
        r@ == spec_download_lock_name(media_type@, file_path@),
{
    let digest = sha1_hex(file_path.as_bytes());
    let mut out = "download_".to_owned();
    out.append(media_type);
    out.append("_");
    out.append(digest.as_str());
    out
}

/// Where a page of a list begins: behind the pages before it. The first
/// page is page one; page zero counts as the first.
pub open spec fn spec_page_start(page: usize, page_size: usize) -> int {
    if page == 0 {
        0
    } else {
        (page - 1) * page_size
    }
}

/// The part of a list of `total` entries that a page shows, as the
/// positions of its first entry and behind its last. The page must begin
/// within the list or at its end.
pub fn page_range(page: usize, page_size: usize, total: usize) -> (r: (usize, usize))
    requires
        spec_page_start(page, page_size) <= total,
    ensures
        r.0 == spec_page_start(page, page_size),
        r.1 == if r.0 + page_size <= total {
            r.0 + page_size
        } else {
            total as int
        },
{
    let before: usize = if page == 0 {
        0
    } else {
        page - 1
    };
    assert(before * page_size == spec_page_start(page, page_size)) by (nonlinear_arith)
        requires
            before == (if page == 0 {
                0
            } else {
                page - 1
            }),
    ;
    let start: usize = before * page_size;
    let end: usize = if page_size <= total - start {
        start + page_size
    } else {
        total
    };
    (start, end)
}

/// The pages of an upstream list that were asked for, by their marks. A
/// list whose marks come round again is walked once.
#[derive(Debug)]
pub struct PageWalk {
    pub seen: Vec<String>,
}

/// Whether a mark is among those seen.
pub open spec fn spec_seen(seen: Seq<Seq<char>>, mark: Seq<char>) -> bool {
    exists|i: int| 0 <= i < seen.len() && #[trigger] seen[i] == mark
}

impl PageWalk {
    /// A walk that has seen no page.
    pub fn new() -> (r: Self)
        ensures
            r.seen@.len() == 0,
    {
        PageWalk { seen: Vec::new() }
    }

    /// Takes the mark of the next page, and tells whether that page is
    /// new: the mark of a new page is kept, that of a page seen before
    /// ends the walk.
    pub fn visit(&mut self, mark: &str) -> (r: bool)
        ensures
            r == !spec_seen(strings_view(old(self).seen@), mark@),
            strings_view(final(self).seen@) == if r {
                strings_view(old(self).seen@).push(mark@)
            } else {
                strings_view(old(self).seen@)
            },
    {
        let ghost before_view = strings_view(self.seen@);
        let mut i: usize = 0;
        while i < self.seen.len()
            invariant
                i <= self.seen.len(),
                before_view == strings_view(self.seen@),
                self.seen@ == old(self).seen@,
                forall|j: int| 0 <= j < i ==> #[trigger] before_view[j] != mark@,
            decreases self.seen.len() - i,
        {
            if str_eq(self.seen[i].as_str(), mark) {
                assert(before_view[i as int] == mark@);
                return false;
            }
            i += 1;
        }
        self.seen.push(mark.to_owned());
        assert(strings_view(self.seen@) =~= before_view.push(mark@));
        true
    }
}

/// Whether the entry at `a` goes before the entry at `b` when entries are
/// put in the order of their keys: the smaller key first, or the larger
/// one if the order is descending; of two entries with the same key, the
/// one that came first.
pub open spec fn spec_goes_before(keys: Seq<i64>, descending: bool, a: int, b: int) -> bool {
    if keys[a] == keys[b] {
        a < b
    } else if descending {
        keys[a] > keys[b]
    } else {
        keys[a] < keys[b]
    }
}

/// Whether `order` lists positions of `keys` in the order of their keys.
pub open spec fn spec_ordered(keys: Seq<i64>, descending: bool, order: Seq<usize>) -> bool {
    &&& forall|k: int| 0 <= k < order.len() ==> (#[trigger] order[k]) < keys.len()
    &&& forall|a: int, b: int|
        0 <= a < b < order.len() ==> spec_goes_before(
            keys,
            descending,
            #[trigger] order[a] as int,
            #[trigger] order[b] as int,
        )
}

/// Whether the position `x` is listed in `order`.
pub open spec fn spec_listed(order: Seq<usize>, x: int) -> bool {
    exists|k: int| 0 <= k < order.len() && #[trigger] order[k] == x
}

/// Whether `order` lists every position of `keys` once, in the order of
/// their keys.
pub open spec fn spec_in_order(keys: Seq<i64>, descending: bool, order: Seq<usize>) -> bool {
    &&& order.len() == keys.len()
    &&& spec_ordered(keys, descending, order)
    &&& forall|x: int| 0 <= x < keys.len() ==> spec_listed(order, x)
}

/// There is one way only to put the positions of `keys` in the order of
/// their keys.
pub proof fn lemma_order_unique(keys: Seq<i64>, descending: bool, a: Seq<usize>, b: Seq<usize>)
    requires
        spec_in_order(keys, descending, a),
        spec_in_order(keys, descending, b),
    ensures
        a == b,
{
    assert forall|k: int| 0 <= k < a.len() implies a[k] == b[k] by {
        lemma_order_unique_to(keys, descending, a, b, k);
    }
    assert(a =~= b);
}

/// Two orders of the positions of `keys` agree up to and at `k`.
proof fn lemma_order_unique_to(
    keys: Seq<i64>,
    descending: bool,
    a: Seq<usize>,
    b: Seq<usize>,
    k: int,
)
    requires
        spec_in_order(keys, descending, a),
        spec_in_order(keys, descending, b),
        0 <= k < a.len(),
    ensures
        forall|j: int| 0 <= j <= k ==> a[j] == b[j],
    decreases k,
{
    if k > 0 {
        lemma_order_unique_to(keys, descending, a, b, k - 1);
    }
    let x = a[k] as int;
    let y = b[k] as int;
    if x != y {
        assert(spec_listed(b, x));
        let j = choose|j: int| 0 <= j < b.len() && b[j] == x;
        assert(spec_listed(a, y));
        let i = choose|i: int| 0 <= i < a.len() && a[i] == y;
        if j < k {
            assert(a[j] == b[j]);
            assert(spec_goes_before(keys, descending, a[j] as int, a[k] as int));
        } else if i < k {
            assert(a[i] == b[i]);
            assert(spec_goes_before(keys, descending, b[i] as int, b[k] as int));
        } else {
            assert(j > k && i > k);
            assert(spec_goes_before(keys, descending, b[k] as int, b[j] as int));
            assert(spec_goes_before(keys, descending, a[k] as int, a[i] as int));
        }
    }
}

/// Whether the key at `a` stands at or before the key at `b` in the order.
fn key_not_after(keys: &Vec<i64>, descending: bool, a: usize, b: usize) -> (r: bool)
    requires
        a < keys.len(),
        b < keys.len(),
        a < b,
    ensures
        r == spec_goes_before(keys@, descending, a as int, b as int),
{
    if keys[a] == keys[b] {
        true
    } else if descending {
        keys[a] > keys[b]
    } else {
        keys[a] < keys[b]
    }
}

/// The positions of `keys` in the order of their keys.
pub open spec fn spec_sorted_order(keys: Seq<i64>, descending: bool) -> Seq<usize> {
    choose|order: Seq<usize>| spec_in_order(keys, descending, order)
}

/// The positions of `keys` in the order of their keys; entries with the
/// same key keep the order in which they came.
pub fn sorted_order(keys: &Vec<i64>, descending: bool) -> (r: Vec<usize>)
    ensures
        spec_in_order(keys@, descending, r@),
        r@ == spec_sorted_order(keys@, descending),
{
    let out = insert_each(keys, descending);
    proof {
        lemma_order_unique(keys@, descending, out@, spec_sorted_order(keys@, descending));
    }
    out
}

/// Puts each position of `keys` in its place among those before it.
fn insert_each(keys: &Vec<i64>, descending: bool) -> (r: Vec<usize>)
    ensures
        spec_in_order(keys@, descending, r@),
{
    let mut out: Vec<usize> = Vec::new();
    let mut i: usize = 0;
    while i < keys.len()
        invariant
            i <= keys.len(),
            out.len() == i,
            forall|k: int| 0 <= k < out.len() ==> (#[trigger] out[k]) < i,
            spec_ordered(keys@, descending, out@),
            forall|x: int| 0 <= x < i ==> spec_listed(out@, x),
        decreases keys.len() - i,
    {
        let mut p: usize = 0;
        while p < out.len() && key_not_after(keys, descending, out[p], i)
            invariant
                p <= out.len(),
                out.len() == i,
                i < keys.len(),
                forall|k: int| 0 <= k < out.len() ==> (#[trigger] out[k]) < i,
                forall|k: int|
                    0 <= k < p ==> spec_goes_before(
                        keys@,
                        descending,
                        (#[trigger] out[k]) as int,
                        i as int,
                    ),
            decreases out.len() - p,
        {
            p += 1;
        }
        let ghost before = out@;
        proof {
            // what stands at `p` goes behind the new entry, and so does all behind it
            assert forall|k: int| p <= k < before.len() implies spec_goes_before(
                keys@,
                descending,
                i as int,
                (#[trigger] before[k]) as int,
            ) by {
                assert(!spec_goes_before(keys@, descending, before[p as int] as int, i as int));
                if k > p {
                    assert(spec_goes_before(
                        keys@,
                        descending,
                        before[p as int] as int,
                        before[k] as int,
                    ));
                }
            }
        }
        out.insert(p, i);
        proof {
            assert forall|a: int, b: int| 0 <= a < b < out.len() implies spec_goes_before(
                keys@,
                descending,
                #[trigger] out[a] as int,
                #[trigger] out[b] as int,
            ) by {
                if b < p {
                    assert(out[a] == before[a] && out[b] == before[b]);
                } else if b == p {
                    assert(out[a] == before[a]);
                } else if a < p {
                    assert(out[a] == before[a] && out[b] == before[b - 1]);
                } else if a == p {
                    assert(out[b] == before[b - 1]);
                } else {
                    assert(out[a] == before[a - 1] && out[b] == before[b - 1]);
                }
            }
            assert forall|k: int| 0 <= k < out.len() implies (#[trigger] out[k]) < i + 1 by {
                if k < p {
                    assert(out[k] == before[k]);
                } else if k > p {
                    assert(out[k] == before[k - 1]);
                }
            }
            assert forall|x: int| 0 <= x < i + 1 implies spec_listed(out@, x) by {
                if x == i {
                    assert(out[p as int] == x);
                } else {
                    assert(spec_listed(before, x));
                    let k = choose|k: int| 0 <= k < before.len() && before[k] == x;
                    if k < p {
                        assert(out[k] == x);
                    } else {
                        assert(out[k + 1] == x);
                    }
                }
            }
        }
        i += 1;
    }
    out
}

/// The sum of the first `k` sizes.
pub open spec fn spec_total_size(sizes: Seq<u64>, k: int) -> int
    decreases k,
{
    if k <= 0 {
        0
    } else {
        spec_total_size(sizes, k - 1) + sizes[k - 1]
    }
}

/// How many files are removed, one after the other in `order` from
/// `from` on, until what is left of `left` bytes is no more than `target`.
pub open spec fn spec_removed_count(
    sizes: Seq<u64>,
    order: Seq<usize>,
    left: int,
    target: int,
    from: int,
) -> int
    decreases order.len() - from,
{
    if from < 0 || from >= order.len() {
        0
    } else {
        let size = sizes[order[from] as int] as int;
        let rest = if left >= size {
            left - size
        } else {
            0
        };
        if rest <= target {
            1
        } else {
            1 + spec_removed_count(sizes, order, rest, target, from + 1)
        }
    }
}

/// The files that leave a cache which holds more than `limit` bytes: the
/// youngest first, until what is left is no more than `target`. A cache
/// within its limit loses nothing.
pub open spec fn spec_cache_overflow(
    ages: Seq<i64>,
    sizes: Seq<u64>,
    limit: u64,
    target: u64,
) -> Seq<usize> {
    let total = spec_total_size(sizes, sizes.len() as int);
    let order = spec_sorted_order(ages, false);
    if total <= limit {
        Seq::empty()
    } else {
        order.take(spec_removed_count(sizes, order, total, target as int, 0))
    }
}

/// The bytes that the files of a cache hold together.
fn total_size(sizes: &Vec<u64>) -> (r: u128)
    ensures
        r == spec_total_size(sizes@, sizes.len() as int),
{
    let mut total: u128 = 0;
    let mut i: usize = 0;
    while i < sizes.len()
        invariant
            i <= sizes.len(),
            total == spec_total_size(sizes@, i as int),
            total <= i * 0xffff_ffff_ffff_ffff,
        decreases sizes.len() - i,
    {
        assert((i + 1) * 0xffff_ffff_ffff_ffff <= 0xffff_ffff_ffff_fffe_0000_0000_0000_0001)
            by (nonlinear_arith)
            requires
                0 <= i + 1 <= 0xffff_ffff_ffff_ffff,
        ;
        assert((i + 1) * 0xffff_ffff_ffff_ffff == i * 0xffff_ffff_ffff_ffff
            + 0xffff_ffff_ffff_ffff) by (nonlinear_arith);
        total = total + sizes[i] as u128;
        i += 1;
    }
    total
}

/// The files that leave a cache which holds more than `limit` bytes, by
/// their positions in the lists of ages and sizes.
pub fn cache_overflow(ages: &Vec<i64>, sizes: &Vec<u64>, limit: u64, target: u64) -> (r: Vec<
    usize,
>)
    requires
        ages.len() == sizes.len(),
    ensures
        r@ == spec_cache_overflow(ages@, sizes@, limit, target),
{
    let total = total_size(sizes);
    if total <= limit as u128 {
        return Vec::new();
    }
    let order = sorted_order(ages, false);
    let mut out: Vec<usize> = Vec::new();
    let mut left: u128 = total;
    let mut k: usize = 0;
    assert(order@.take(0) =~= out@);
    loop
        invariant_except_break
            spec_removed_count(sizes@, order@, total as int, target as int, 0) == k
                + spec_removed_count(sizes@, order@, left as int, target as int, k as int),
        invariant
            k <= order.len(),
            order.len() == sizes.len(),
            spec_in_order(ages@, false, order@),
            out@ == order@.take(k as int),
        ensures
            k <= order.len(),
            out@ == order@.take(k as int),
            k == spec_removed_count(sizes@, order@, total as int, target as int, 0),
        decreases order.len() - k,
    {
        if k >= order.len() {
            break ;
        }
        let at: usize = order[k];
        let size: u128 = sizes[at] as u128;
        left = if left >= size {
            left - size
        } else {
            0
        };
        out.push(at);
        k += 1;
        assert(out@ =~= order@.take(k as int));
        if left <= target as u128 {
            break ;
        }
    }
    out
}

} // verus!
