//! Generating images with rotating credentials: what a generation has
//! received so far, what its outcome is, and whether a failed attempt is
//! followed by another with the next credential.

use vstd::prelude::*;
use crate::common::string_map::StringMap;
use crate::text::{
    clone_opt_string, clone_strings, decimal_u64, matches_at, opt_chars, spec_decimal_nat,
    spec_matches_at, str_chars, str_eq, string_from_range, strings_view,
};

verus! {

/// Size of an image, in bytes of its base64 text, above which it is no
/// longer a preview.
pub const MEDIUM_BLOB_SIZE: usize = 30_000;

/// Size of an image, in bytes of its base64 text, above which a JPEG is final.
pub const FINAL_BLOB_SIZE: usize = 100_000;

/// Largest number of images of one generation.
pub const MAX_IMAGE_COUNT: u32 = 4;

/// The path of a URL, as `Url::path` has it; none for what is no URL.
pub uninterp spec fn spec_url_path(url: Seq<char>) -> Option<Seq<char>>;

/// `Url::parse` and `Url::path`: the path of the URL, or nothing if the
/// text is not a URL.
#[verifier::external_body]
pub(crate) fn url_path(url: &str) -> (r: Option<String>)
    ensures
        opt_chars(r) == spec_url_path(url@),
{
    url::Url::parse(url).ok().map(|u| u.path().to_string())
}

/// The path that is looked at: that of the URL, or the text itself if it is no URL.
pub open spec fn spec_path_of(url: Seq<char>) -> Seq<char> {
    match spec_url_path(url) {
        Some(p) => p,
        None => url,
    }
}

/// The path that is looked at.
fn path_of(url: &str) -> (r: String)
    ensures
        r@ == spec_path_of(url@),
{
    match url_path(url) {
        Some(p) => p,
        None => url.to_owned(),
    }
}

/// What a generation tells of one image on its way.
#[derive(Debug)]
pub struct ImagineProgressEvent {
    pub image_id: String,
    pub stage: ImageStage,
    pub is_final: bool,
    pub completed: usize,
    pub total: usize,
}

/// How far an image is.
#[derive(Debug, Clone, Copy, PartialEq, Eq, Structural)]
pub enum ImageStage {
    Preview,
    Medium,
    Final,
}

impl ImageStage {
    /// The word for the stage.
    pub fn word(self) -> (r: String)
        ensures
            r@ == match self {
                ImageStage::Preview => "preview"@,
                ImageStage::Medium => "medium"@,
                ImageStage::Final => "final"@,
            },
    {
        match self {
            ImageStage::Preview => "preview".to_owned(),
            ImageStage::Medium => "medium".to_owned(),
            ImageStage::Final => "final".to_owned(),
        }
    }
}

/// The outcome of a generation.
#[derive(Debug)]
pub struct ImagineResult {
    pub success: bool,
    pub urls: Vec<String>,
    pub b64_list: Vec<String>,
    pub count: usize,
    pub error_code: Option<String>,
    pub error: Option<String>,
}

/// The mathematical value of an outcome.
pub struct ImagineResultView {
    pub success: bool,
    pub urls: Seq<Seq<char>>,
    pub b64_list: Seq<Seq<char>>,
    pub count: nat,
    pub error_code: Option<Seq<char>>,
    pub error: Option<Seq<char>>,
}

impl View for ImagineResult {
    type V = ImagineResultView;

    open spec fn view(&self) -> ImagineResultView {
        ImagineResultView {
            success: self.success,
            urls: strings_view(self.urls@),
            b64_list: strings_view(self.b64_list@),
            count: self.count as nat,
            error_code: opt_chars(self.error_code),
            error: opt_chars(self.error),
        }
    }
}

impl ImagineResultView {
    /// A failure with a code and a message.
    pub open spec fn failed(error_code: Seq<char>, error: Seq<char>) -> ImagineResultView {
        ImagineResultView {
            success: false,
            urls: Seq::empty(),
            b64_list: Seq::empty(),
            count: 0,
            error_code: Some(error_code),
            error: Some(error),
        }
    }

    /// The code of the failure, or the empty text.
    pub open spec fn code(self) -> Seq<char> {
        match self.error_code {
            Some(c) => c,
            None => Seq::empty(),
        }
    }

    /// The message of the failure, or the empty text.
    pub open spec fn message(self) -> Seq<char> {
        match self.error {
            Some(m) => m,
            None => Seq::empty(),
        }
    }
}

impl Clone for ImagineResult {
    fn clone(&self) -> (r: Self)
        ensures
            r@ == self@,
    {
        ImagineResult {
            success: self.success,
            urls: clone_strings(&self.urls),
            b64_list: clone_strings(&self.b64_list),
            count: self.count,
            error_code: clone_opt_string(&self.error_code),
            error: clone_opt_string(&self.error),
        }
    }
}

impl ImagineResult {
    /// A success with the images at these URLs.
    pub fn ok(urls: Vec<String>, b64_list: Vec<String>) -> (r: Self)
        ensures
            r@ == (ImagineResultView {
                success: true,
                urls: strings_view(urls@),
                b64_list: strings_view(b64_list@),
                count: urls.len() as nat,
                error_code: None,
                error: None,
            }),
    {
        ImagineResult { success: true, count: urls.len(), urls, b64_list, error_code: None, error: None }
    }

    /// A failure with a code and a message.
    pub fn failed(error_code: &str, error: &str) -> (r: Self)
        ensures
            r@ == ImagineResultView::failed(error_code@, error@),
    {
        let r = ImagineResult {
            success: false,
            urls: Vec::new(),
            b64_list: Vec::new(),
            count: 0,
            error_code: Some(error_code.to_owned()),
            error: Some(error.to_owned()),
        };
        assert(strings_view(r.urls@) =~= Seq::empty());
        assert(strings_view(r.b64_list@) =~= Seq::empty());
        r
    }
}

/// The aspect ratio for a size: square for the square sizes, three to two
/// for the wide one, two to three for the tall one and for any other.
pub open spec fn spec_size_to_aspect_ratio(size: Seq<char>) -> Seq<char> {
    if size == "1024x1024"@ || size == "512x512"@ || size == "256x256"@ {
        "1:1"@
    } else if size == "1536x1024"@ {
        "3:2"@
    } else {
        "2:3"@
    }
}

/// The aspect ratio for a size.
pub fn size_to_aspect_ratio(size: &str) -> (r: String)
    ensures
        r@ == spec_size_to_aspect_ratio(size@),
{
    if str_eq(size, "1024x1024") || str_eq(size, "512x512") || str_eq(size, "256x256") {
        "1:1".to_owned()
    } else if str_eq(size, "1536x1024") {
        "3:2".to_owned()
    } else {
        "2:3".to_owned()
    }
}

/// The number of images that a generation makes: the number asked for, or
/// the configured one if none is asked for, at least one and at most four.
pub open spec fn spec_target_count(asked: Option<u32>, default_count: u32) -> int {
    let n: int = match asked {
        Some(n) => n as int,
        None => if default_count < 1 {
            1
        } else {
            default_count as int
        },
    };
    if n == 0 {
        1
    } else if n > MAX_IMAGE_COUNT {
        MAX_IMAGE_COUNT as int
    } else {
        n
    }
}

/// The number of images that a generation makes.
pub fn target_count(asked: Option<u32>, default_count: u32) -> (r: u32)
    ensures
        r == spec_target_count(asked, default_count),
        1 <= r <= MAX_IMAGE_COUNT,
{
    let n = match asked {
        Some(n) => n,
        None => if default_count < 1 {
            1
        } else {
            default_count
        },
    };
    if n == 0 {
        1
    } else if n > MAX_IMAGE_COUNT {
        MAX_IMAGE_COUNT
    } else {
        n
    }
}

/// Whether `i` is the first position at which `p` occurs in `s`.
pub open spec fn spec_first_occurrence(s: Seq<char>, p: Seq<char>, i: int) -> bool {
    spec_matches_at(s, i, p) && forall|j: int| 0 <= j < i ==> !spec_matches_at(s, j, p)
}

/// The first position at which `p` occurs in `s`.
pub fn find_sub(s: &Vec<char>, p: &Vec<char>) -> (r: Option<usize>)
    ensures
        r matches Some(i) ==> spec_first_occurrence(s@, p@, i as int),
        r is None ==> forall|j: int| !spec_matches_at(s@, j, p@),
{
    if p.len() > s.len() {
        assert forall|j: int| !spec_matches_at(s@, j, p@) by {}
        return None;
    }
    let last: usize = s.len() - p.len();
    let mut i: usize = 0;
    loop
        invariant
            i <= last,
            last == s.len() - p.len(),
            forall|j: int| 0 <= j < i ==> !spec_matches_at(s@, j, p@),
        ensures
            forall|j: int| 0 <= j <= last ==> !spec_matches_at(s@, j, p@),
        decreases last - i,
    {
        if matches_at(s, i, p) {
            return Some(i);
        }
        if i == last {
            break ;
        }
        i += 1;
    }
    assert forall|j: int| !spec_matches_at(s@, j, p@) by {}
    None
}

/// Whether `i` is the last position of a full stop in `s`.
pub open spec fn spec_last_dot(s: Seq<char>, i: int) -> bool {
    0 <= i < s.len() && s[i] == '.' && forall|j: int| i < j < s.len() ==> s[j] != '.'
}

/// The last position of a full stop in `s[from..]`.
fn rfind_dot(s: &Vec<char>, from: usize) -> (r: Option<usize>)
    requires
        from <= s.len(),
    ensures
        r matches Some(i) ==> from <= i && spec_last_dot(s@, i as int),
        r is None ==> forall|j: int| from <= j < s.len() ==> s[j] != '.',
{
    let mut i: usize = s.len();
    while i > from
        invariant
            from <= i <= s.len(),
            forall|j: int| i <= j < s.len() ==> s[j] != '.',
        decreases i,
    {
        i -= 1;
        if s[i] == '.' {
            return Some(i);
        }
    }
    None
}

/// Whether a character may stand in the identifier of an image: a
/// hexadecimal digit or a hyphen.
pub open spec fn spec_is_id_char(c: char) -> bool {
    ('0' <= c && c <= '9') || ('a' <= c && c <= 'f') || ('A' <= c && c <= 'F') || c == '-'
}

/// The identifier of the image that a path names: what stands between the
/// first `/images/` and the last full stop behind it, if that is not empty
/// and made of hexadecimal digits and hyphens, and `png` or `jpg` follows
/// the full stop.
pub open spec fn spec_image_id_in(path: Seq<char>) -> Option<Seq<char>> {
    if exists|i: int| spec_first_occurrence(path, "/images/"@, i) {
        let start = (choose|i: int| spec_first_occurrence(path, "/images/"@, i)) + 8;
        let tail = path.skip(start);
        if tail.contains('.') {
            let dot = choose|d: int| spec_last_dot(tail, d);
            let id = tail.take(dot);
            let ext = tail.skip(dot + 1);
            if (ext == "png"@ || ext == "jpg"@) && id.len() > 0 && forall|k: int|
                0 <= k < id.len() ==> spec_is_id_char(#[trigger] id[k]) {
                Some(id)
            } else {
                None
            }
        } else {
            None
        }
    } else {
        None
    }
}

/// The identifier of the image that a URL names.
pub open spec fn spec_extract_image_id(url: Seq<char>) -> Option<Seq<char>> {
    spec_image_id_in(spec_path_of(url))
}

/// The identifier of the image that a URL names.
pub fn extract_image_id(url: &str) -> (r: Option<String>)
    ensures
        opt_chars(r) == spec_extract_image_id(url@),
{
    let path_text = path_of(url);
    let path = str_chars(path_text.as_str());
    let marker = str_chars("/images/");
    proof {
        reveal_strlit("/images/");
        assert(marker@.len() == 8);
    }
    let at = match find_sub(&path, &marker) {
        Some(i) => i,
        None => {
            return None;
        },
    };
    proof {
        let chosen = choose|i: int| spec_first_occurrence(path@, "/images/"@, i);
        assert(spec_first_occurrence(path@, "/images/"@, at as int));
        assert(chosen == at);
        assert(spec_matches_at(path@, at as int, marker@));
        assert(at + marker@.len() <= path@.len());
    }
    assert(at + 8 <= path.len());
    let start: usize = at + 8;
    let ghost tail = path@.skip(start as int);
    let dot = match rfind_dot(&path, start) {
        Some(d) => d,
        None => {
            assert(!tail.contains('.')) by {
                if tail.contains('.') {
                    let k = choose|k: int| 0 <= k < tail.len() && tail[k] == '.';
                    assert(path@[start + k] == '.');
                }
            }
            return None;
        },
    };
    proof {
        assert(tail[dot - start] == '.');
        assert(spec_last_dot(tail, dot - start)) by {
            assert forall|j: int| dot - start < j < tail.len() implies tail[j] != '.' by {
                assert(tail[j] == path@[start + j]);
            }
        }
        let chosen = choose|d: int| spec_last_dot(tail, d);
        assert(chosen == dot - start) by {
            if chosen < dot - start {
                assert(tail[dot - start] != '.');
            }
            if chosen > dot - start {
                assert(tail[chosen] != '.');
            }
        }
        assert(tail.take(dot - start) =~= path@.subrange(start as int, dot as int));
        assert(tail.skip(dot - start + 1) =~= path@.subrange(dot + 1, path.len() as int));
    }
    let ext = string_from_range(&path, dot + 1, path.len());
    if !(str_eq(ext.as_str(), "png") || str_eq(ext.as_str(), "jpg")) {
        return None;
    }
    if dot == start {
        assert(tail.take(dot - start).len() == 0);
        return None;
    }
    let ghost id = path@.subrange(start as int, dot as int);
    proof {
        assert(tail.take(dot - start) =~= id);
        assert(spec_extract_image_id(url@) == if forall|j: int|
            0 <= j < id.len() ==> spec_is_id_char(#[trigger] id[j]) {
            Some(id)
        } else {
            None::<Seq<char>>
        });
    }
    let mut k: usize = start;
    while k < dot
        invariant
            start <= k <= dot < path.len(),
            id == path@.subrange(start as int, dot as int),
            spec_extract_image_id(url@) == if forall|j: int|
                0 <= j < id.len() ==> spec_is_id_char(#[trigger] id[j]) {
                Some(id)
            } else {
                None::<Seq<char>>
            },
            forall|j: int| 0 <= j < k - start ==> spec_is_id_char(#[trigger] id[j]),
        decreases dot - k,
    {
        let c = path[k];
        let ok = ('0' <= c && c <= '9') || ('a' <= c && c <= 'f') || ('A' <= c && c <= 'F') || c
            == '-';
        if !ok {
            assert(!spec_is_id_char(id[k - start]));
            return None;
        }
        assert(id[k - start] == c);
        k += 1;
    }
    Some(string_from_range(&path, start, dot))
}

/// Whether a path ends with `.jpg`.
pub open spec fn spec_is_jpg(path: Seq<char>) -> bool {
    path.len() >= 4 && path.skip(path.len() - 4) == ".jpg"@
}

/// Whether an image is the final one: a JPEG of more than 100 000 bytes.
pub open spec fn spec_is_final_image(url: Seq<char>, blob_size: usize) -> bool {
    spec_is_jpg(spec_path_of(url)) && blob_size > FINAL_BLOB_SIZE
}

/// Whether an image is the final one.
pub fn is_final_image(url: &str, blob_size: usize) -> (r: bool)
    ensures
        r == spec_is_final_image(url@, blob_size),
{
    let path_text = path_of(url);
    let path = str_chars(path_text.as_str());
    let suffix = str_chars(".jpg");
    proof {
        reveal_strlit(".jpg");
        assert(suffix@.len() == 4);
    }
    if path.len() < 4 {
        return false;
    }
    let at = path.len() - 4;
    proof {
        assert(path@.skip(at as int) =~= path@.subrange(at as int, at + 4));
    }
    matches_at(&path, at, &suffix) && blob_size > FINAL_BLOB_SIZE
}

/// The stage of an image of the given size.
pub open spec fn spec_stage(is_final: bool, blob_size: usize) -> ImageStage {
    if is_final {
        ImageStage::Final
    } else if blob_size > MEDIUM_BLOB_SIZE {
        ImageStage::Medium
    } else {
        ImageStage::Preview
    }
}

/// One image of a generation, as it was last received.
#[derive(Debug)]
pub struct ImageProgress {
    pub image_id: String,
    pub stage: ImageStage,
    pub blob: String,
    pub blob_size: usize,
    pub url: String,
    pub is_final: bool,
}

/// Number of final images in a list.
pub open spec fn spec_count_final(images: Seq<ImageProgress>) -> nat
    decreases images.len(),
{
    if images.len() == 0 {
        0
    } else {
        spec_count_final(images.drop_last()) + if images.last().is_final {
            1nat
        } else {
            0nat
        }
    }
}

/// Whether a list holds an image of the given stage.
pub open spec fn spec_has_stage(images: Seq<ImageProgress>, stage: ImageStage) -> bool {
    exists|i: int| 0 <= i < images.len() && images[i].stage == stage
}

/// Whether a list holds a final image.
pub open spec fn spec_has_final(images: Seq<ImageProgress>) -> bool {
    exists|i: int| 0 <= i < images.len() && images[i].is_final
}

/// Whether one image is to be kept before another: a final one before one
/// that is not, and of two alike the larger.
pub open spec fn spec_better(a: ImageProgress, b: ImageProgress) -> bool {
    (a.is_final && !b.is_final) || (a.is_final == b.is_final && a.blob_size > b.blob_size)
}

/// Whether `order` lists every position of `images` once, and no position
/// after one whose image is to be kept before its own.
pub open spec fn spec_keep_order(images: Seq<ImageProgress>, order: Seq<usize>) -> bool {
    &&& order.len() == images.len()
    &&& order.no_duplicates()
    &&& forall|k: int| 0 <= k < order.len() ==> (#[trigger] order[k]) < images.len()
    &&& forall|a: int, b: int|
        0 <= a < b < order.len() ==> !spec_better(
            images[order[b] as int],
            images[order[a] as int],
        )
}

/// What a generation has received so far.
#[derive(Debug)]
pub struct GenerationProgress {
    total: usize,
    images: StringMap<ImageProgress>,
    completed: usize,
}

impl GenerationProgress {
    /// The invariant of the record.
    pub closed spec fn wf(&self) -> bool {
        self.images.wf()
    }

    /// Number of images asked for.
    pub closed spec fn spec_total(&self) -> usize {
        self.total
    }

    /// Number of final images, as last counted.
    pub closed spec fn spec_completed(&self) -> usize {
        self.completed
    }

    /// The images by identifier.
    pub closed spec fn spec_images(&self) -> Map<Seq<char>, ImageProgress> {
        self.images@
    }

    /// The images in the order in which they were first received.
    pub closed spec fn spec_image_list(&self) -> Seq<ImageProgress> {
        self.images.values_view()
    }

    /// A record of nothing received.
    pub fn new(total: usize) -> (r: Self)
        ensures
            r.wf(),
            r.spec_total() == total,
            r.spec_completed() == 0,
            r.spec_images() == Map::<Seq<char>, ImageProgress>::empty(),
    {
        GenerationProgress { total, images: StringMap::new(), completed: 0 }
    }

    /// Number of images asked for.
    pub fn total(&self) -> (r: usize)
        ensures
            r == self.spec_total(),
    {
        self.total
    }

    /// Number of final images, as last counted.
    pub fn completed(&self) -> (r: usize)
        ensures
            r == self.spec_completed(),
    {
        self.completed
    }

    /// The images received.
    pub fn images(&self) -> (r: &StringMap<ImageProgress>)
        requires
            self.wf(),
        ensures
            r.wf(),
            r@ == self.spec_images(),
            r.values_view() == self.spec_image_list(),
    {
        &self.images
    }

    /// Number of final images.
    fn count_final(&self) -> (r: usize)
        requires
            self.wf(),
        ensures
            r == spec_count_final(self.spec_image_list()),
    {
        let n = self.images.len();
        let ghost list = self.images.values_view();
        proof {
            self.images.lemma_entries();
            assert(list.take(0) =~= Seq::empty());
        }
        let mut count: usize = 0;
        let mut i: usize = 0;
        while i < n
            invariant
                i <= n,
                self.wf(),
                self.images.wf(),
                n == self.images.keys_view().len(),
                n == list.len(),
                list == self.images.values_view(),
                count == spec_count_final(list.take(i as int)),
                count <= i,
            decreases n - i,
        {
            proof {
                assert(list.take(i + 1).drop_last() =~= list.take(i as int));
                assert(list.take(i + 1).last() == list[i as int]);
            }
            if self.images.value_at(i).is_final {
                count += 1;
            }
            i += 1;
        }
        assert(list.take(n as int) =~= list);
        count
    }

    /// The positions of the images in the order in which they are kept:
    /// the final ones first, and of images alike the larger first.
    pub fn keep_order(&self) -> (r: Vec<usize>)
        requires
            self.wf(),
        ensures
            spec_keep_order(self.spec_image_list(), r@),
    {
        let n = self.images.len();
        let ghost list = self.images.values_view();
        proof {
            self.images.lemma_entries();
        }
        let mut out: Vec<usize> = Vec::new();
        let mut i: usize = 0;
        while i < n
            invariant
                i <= n,
                self.images.wf(),
                n == self.images.keys_view().len(),
                n == list.len(),
                list == self.images.values_view(),
                out.len() == i,
                out@.no_duplicates(),
                forall|k: int| 0 <= k < out.len() ==> (#[trigger] out[k]) < i,
                forall|a: int, b: int|
                    0 <= a < b < out.len() ==> !spec_better(
                        list[out[b] as int],
                        list[out[a] as int],
                    ),
            decreases n - i,
        {
            let image = self.images.value_at(i);
            let mut p: usize = 0;
            while p < out.len()
                invariant
                    p <= out.len(),
                    i < n,
                    self.images.wf(),
                    n == self.images.keys_view().len(),
                    n == list.len(),
                    list == self.images.values_view(),
                    *image == list[i as int],
                    forall|k: int| 0 <= k < out.len() ==> (#[trigger] out[k]) < i,
                    forall|k: int| 0 <= k < p ==> !spec_better(list[i as int], list[out[k] as int]),
                ensures
                    p <= out.len(),
                    forall|k: int| 0 <= k < p ==> !spec_better(list[i as int], list[out[k] as int]),
                    p < out.len() ==> spec_better(list[i as int], list[out[p as int] as int]),
                decreases out.len() - p,
            {
                let other = self.images.value_at(out[p]);
                let better = (image.is_final && !other.is_final) || (image.is_final
                    == other.is_final && image.blob_size > other.blob_size);
                if better {
                    break ;
                }
                p += 1;
            }
            let ghost before = out@;
            out.insert(p, i);
            proof {
                let after = out@;
                assert(after == before.insert(p as int, i));
                assert forall|a: int, b: int| 0 <= a < b < after.len() && a != b implies after[a]
                    != after[b] by {
                    let a0 = if a < p {
                        a
                    } else {
                        a - 1
                    };
                    let b0 = if b < p {
                        b
                    } else {
                        b - 1
                    };
                    if a != p && b != p {
                        assert(after[a] == before[a0] && after[b] == before[b0]);
                    } else if a == p {
                        assert(after[b] == before[b0]);
                    } else {
                        assert(after[a] == before[a0]);
                    }
                }
                assert(after.no_duplicates());
                assert forall|a: int, b: int| 0 <= a < b < after.len() implies !spec_better(
                    list[after[b] as int],
                    list[after[a] as int],
                ) by {
                    let a0 = if a < p {
                        a
                    } else {
                        a - 1
                    };
                    let b0 = if b < p {
                        b
                    } else {
                        b - 1
                    };
                    if a != p && b != p {
                        assert(after[a] == before[a0] && after[b] == before[b0]);
                    } else if a == p {
                        assert(after[b] == before[b0]);
                        assert(spec_better(list[i as int], list[before[p as int] as int]));
                        if b0 > p {
                            assert(!spec_better(
                                list[before[b0] as int],
                                list[before[p as int] as int],
                            ));
                        }
                    } else {
                        assert(after[a] == before[a0]);
                    }
                }
            }
            i += 1;
        }
        out
    }

    /// Whether the generation looks blocked: an image got as far as the
    /// medium stage and none is final.
    pub fn check_blocked(&self) -> (r: bool)
        requires
            self.wf(),
        ensures
            r == (spec_has_stage(self.spec_image_list(), ImageStage::Medium) && !spec_has_final(
                self.spec_image_list(),
            )),
    {
        let n = self.images.len();
        let ghost list = self.images.values_view();
        proof {
            self.images.lemma_entries();
        }
        let mut has_medium = false;
        let mut has_final = false;
        let mut i: usize = 0;
        while i < n
            invariant
                i <= n,
                self.images.wf(),
                n == self.images.keys_view().len(),
                n == list.len(),
                list == self.images.values_view(),
                has_medium <==> exists|j: int| 0 <= j < i && list[j].stage == ImageStage::Medium,
                has_final <==> exists|j: int| 0 <= j < i && list[j].is_final,
            decreases n - i,
        {
            let image = self.images.value_at(i);
            if image.stage == ImageStage::Medium {
                has_medium = true;
            }
            if image.is_final {
                has_final = true;
            }
            i += 1;
        }
        has_medium && !has_final
    }

    /// Takes in an image that was received, and says what to tell of it.
    /// An image without data or without a URL that names it is passed
    /// over, and so is one whose final form is there already.
    pub fn on_image(&mut self, url: &str, blob: &str) -> (r: Option<ImagineProgressEvent>)
        requires
            old(self).wf(),
        ensures
            final(self).wf(),
            final(self).spec_total() == old(self).spec_total(),
            ({
                let id = spec_extract_image_id(url@);
                let taken = blob@.len() > 0 && url@.len() > 0 && id is Some && !(old(self).spec_images().dom().contains(id->0) && old(self).spec_images()[id->0].is_final);
                &&& r is Some <==> taken
                &&& !taken ==> final(self).spec_images() == old(self).spec_images() && final(self).spec_completed() == old(self).spec_completed()
                &&& taken ==> {
                    let e = r->0;
                    let image = final(self).spec_images()[id->0];
                    &&& final(self).spec_images().dom() == old(self).spec_images().dom().insert(
                        id->0,
                    )
                    &&& final(self).spec_images() == old(self).spec_images().insert(id->0, image)
                    &&& image.image_id@ == id->0
                    &&& image.blob@ == blob@
                    &&& image.url@ == url@
                    &&& image.blob_size == blob.len()
                    &&& image.is_final == spec_is_final_image(url@, image.blob_size)
                    &&& image.stage == spec_stage(image.is_final, image.blob_size)
                    &&& final(self).spec_completed() == spec_count_final(
                        final(self).spec_image_list(),
                    )
                    &&& e.image_id@ == id->0
                    &&& e.stage == image.stage
                    &&& e.is_final == image.is_final
                    &&& e.completed == final(self).spec_completed()
                    &&& e.total == final(self).spec_total()
                }
            }),
    {
        if blob.is_empty() || url.is_empty() {
            return None;
        }
        let image_id = match extract_image_id(url) {
            Some(id) => id,
            None => {
                return None;
            },
        };
        let blob_size = blob.len();
        let is_final = is_final_image(url, blob_size);
        let stage = if is_final {
            ImageStage::Final
        } else if blob_size > MEDIUM_BLOB_SIZE {
            ImageStage::Medium
        } else {
            ImageStage::Preview
        };
        let should_update = match self.images.get(image_id.as_str()) {
            Some(existing) => !existing.is_final,
            None => true,
        };
        if !should_update {
            return None;
        }
        let image = ImageProgress {
            image_id: image_id.clone(),
            stage,
            blob: blob.to_owned(),
            blob_size,
            url: url.to_owned(),
            is_final,
        };
        self.images.insert(image_id.as_str(), image);
        let completed = self.count_final();
        self.completed = completed;
        Some(ImagineProgressEvent { image_id, stage, is_final, completed, total: self.total })
    }
}

/// The message of a generation that was blocked.
pub open spec fn spec_blocked_message() -> Seq<char> {
    "生成被阻止，无法获取最终图片"@
}

/// The outcome of a generation that has stopped receiving: the images if
/// there are any; else the error that was received, if one was; else a
/// failure that says whether the generation looks blocked.
pub fn final_outcome(
    urls: Vec<String>,
    b64_list: Vec<String>,
    error_info: Option<(String, String)>,
    blocked: bool,
) -> (r: ImagineResult)
    ensures
        r@ == if urls.len() > 0 {
            ImagineResultView {
                success: true,
                urls: strings_view(urls@),
                b64_list: strings_view(b64_list@),
                count: urls.len() as nat,
                error_code: None,
                error: None,
            }
        } else {
            match error_info {
                Some((code, message)) => ImagineResultView::failed(code@, message@),
                None => if blocked {
                    ImagineResultView::failed("blocked"@, spec_blocked_message())
                } else {
                    ImagineResultView::failed("generation_failed"@, "未收到图片数据"@)
                },
            }
        },
{
    if urls.len() > 0 {
        return ImagineResult::ok(urls, b64_list);
    }
    match error_info {
        Some((code, message)) => ImagineResult::failed(code.as_str(), message.as_str()),
        None => {
            if blocked {
                ImagineResult::failed("blocked", "生成被阻止，无法获取最终图片")
            } else {
                ImagineResult::failed("generation_failed", "未收到图片数据")
            }
        },
    }
}

/// What follows an attempt of a generation.
#[derive(Debug)]
pub enum AttemptOutcome {
    /// The generation is over with this outcome; if it is a success, the
    /// credential is marked good and its use is recorded.
    Finish(ImagineResult),
    /// The credential is marked failed for this reason, and the generation
    /// is over with this outcome.
    GiveUp(String, ImagineResult),
    /// The credential is marked failed for this reason, and the generation
    /// goes on with the next credential.
    Retry(String),
}

/// The mathematical value of what follows an attempt.
pub enum AttemptOutcomeView {
    Finish(ImagineResultView),
    GiveUp(Seq<char>, ImagineResultView),
    Retry(Seq<char>),
}

impl View for AttemptOutcome {
    type V = AttemptOutcomeView;

    open spec fn view(&self) -> AttemptOutcomeView {
        match *self {
            AttemptOutcome::Finish(r) => AttemptOutcomeView::Finish(r@),
            AttemptOutcome::GiveUp(reason, r) => AttemptOutcomeView::GiveUp(reason@, r@),
            AttemptOutcome::Retry(reason) => AttemptOutcomeView::Retry(reason@),
        }
    }
}

/// The attempts of one generation.
#[derive(Debug)]
pub struct GenerationRetry {
    attempt: usize,
    max_retries: usize,
    blocked_retries: usize,
    max_blocked_retries: usize,
    last_error: Option<ImagineResult>,
}

/// The mathematical value of the attempts of one generation.
pub struct GenerationRetryView {
    /// Number of attempts made.
    pub attempt: nat,
    /// Number of attempts that may be made.
    pub max_retries: nat,
    /// Number of attempts that were blocked.
    pub blocked_retries: nat,
    /// Number of blocked attempts after which the generation gives up.
    pub max_blocked_retries: nat,
    /// The last failure for which another credential was tried.
    pub last_error: Option<ImagineResultView>,
}

/// The value of an optional outcome.
pub open spec fn opt_result(r: Option<ImagineResult>) -> Option<ImagineResultView> {
    match r {
        Some(r) => Some(r@),
        None => None,
    }
}

impl View for GenerationRetry {
    type V = GenerationRetryView;

    closed spec fn view(&self) -> GenerationRetryView {
        GenerationRetryView {
            attempt: self.attempt as nat,
            max_retries: self.max_retries as nat,
            blocked_retries: self.blocked_retries as nat,
            max_blocked_retries: self.max_blocked_retries as nat,
            last_error: opt_result(self.last_error),
        }
    }
}

/// The reason for which a credential is marked when its attempt was blocked.
pub open spec fn spec_blocked_reason() -> Seq<char> {
    "blocked - 无法生成最终图片"@
}

/// The message of a generation that gave up after `n` blocked attempts.
pub open spec fn spec_gave_up_message(n: nat) -> Seq<char> {
    "连续 "@ + spec_decimal_nat(n as int) + " 次被 blocked，请稍后重试"@
}

impl GenerationRetryView {
    /// Whether another attempt may be made.
    pub open spec fn has_attempts_left(self) -> bool {
        self.attempt < self.max_retries
    }

    /// What follows an attempt with the given outcome. A success and a
    /// failure of an unknown kind end the generation. A blocked attempt
    /// marks its credential failed; it is followed by another unless too
    /// many were blocked, in which case the generation gives up. A rate
    /// limit and a rejected credential mark the credential failed and are
    /// followed by another attempt.
    pub open spec fn outcome_of(self, result: ImagineResultView) -> AttemptOutcomeView {
        if result.success {
            AttemptOutcomeView::Finish(result)
        } else if result.code() == "blocked"@ {
            if self.blocked_retries + 1 >= self.max_blocked_retries {
                AttemptOutcomeView::GiveUp(
                    spec_blocked_reason(),
                    ImagineResultView::failed(
                        "blocked"@,
                        spec_gave_up_message(self.max_blocked_retries),
                    ),
                )
            } else {
                AttemptOutcomeView::Retry(spec_blocked_reason())
            }
        } else if result.code() == "rate_limit_exceeded"@ || result.code() == "unauthorized"@ {
            AttemptOutcomeView::Retry(result.message())
        } else {
            AttemptOutcomeView::Finish(result)
        }
    }

    /// The attempts after one with the given outcome: one more is made;
    /// a blocked one is counted as such; a rate limit or a rejected
    /// credential is kept as the last failure.
    pub open spec fn after(self, result: ImagineResultView) -> GenerationRetryView {
        let made = GenerationRetryView { attempt: self.attempt + 1, ..self };
        if result.success {
            made
        } else if result.code() == "blocked"@ {
            GenerationRetryView { blocked_retries: self.blocked_retries + 1, ..made }
        } else if result.code() == "rate_limit_exceeded"@ || result.code() == "unauthorized"@ {
            GenerationRetryView { last_error: Some(result), ..made }
        } else {
            made
        }
    }

    /// The outcome of a generation that ends for want of something: the
    /// last failure for which another credential was tried, or, if there
    /// was none, a failure with the given code and message.
    pub open spec fn fallback(self, code: Seq<char>, message: Seq<char>) -> ImagineResultView {
        match self.last_error {
            Some(e) => e,
            None => ImagineResultView::failed(code, message),
        }
    }
}

impl GenerationRetry {
    /// The attempts of a generation that has made none. At least one
    /// attempt may be made.
    pub fn new(max_retries: usize, max_blocked_retries: usize) -> (r: Self)
        ensures
            r@ == (GenerationRetryView {
                attempt: 0,
                max_retries: if max_retries < 1 {
                    1nat
                } else {
                    max_retries as nat
                },
                blocked_retries: 0,
                max_blocked_retries: max_blocked_retries as nat,
                last_error: None,
            }),
    {
        GenerationRetry {
            attempt: 0,
            max_retries: if max_retries < 1 {
                1
            } else {
                max_retries
            },
            blocked_retries: 0,
            max_blocked_retries,
            last_error: None,
        }
    }

    /// Whether another attempt may be made.
    pub fn has_attempts_left(&self) -> (r: bool)
        ensures
            r == self@.has_attempts_left(),
    {
        self.attempt < self.max_retries
    }

    /// Takes in the outcome of an attempt and says what follows.
    pub fn on_result(&mut self, result: ImagineResult) -> (r: AttemptOutcome)
        requires
            old(self)@.has_attempts_left(),
            old(self)@.blocked_retries <= old(self)@.attempt,
        ensures
            final(self)@ == old(self)@.after(result@),
            r@ == old(self)@.outcome_of(result@),
            final(self)@.blocked_retries <= final(self)@.attempt,
    {
        self.attempt = self.attempt + 1;
        if result.success {
            return AttemptOutcome::Finish(result);
        }
        let code = match &result.error_code {
            Some(c) => c.clone(),
            None => String::new(),
        };
        if str_eq(code.as_str(), "blocked") {
            self.blocked_retries = self.blocked_retries + 1;
            if self.blocked_retries >= self.max_blocked_retries {
                let mut message = "连续 ".to_owned();
                message.append(decimal_u64(self.max_blocked_retries as u64).as_str());
                message.append(" 次被 blocked，请稍后重试");
                return AttemptOutcome::GiveUp(
                    "blocked - 无法生成最终图片".to_owned(),
                    ImagineResult::failed("blocked", message.as_str()),
                );
            }
            return AttemptOutcome::Retry("blocked - 无法生成最终图片".to_owned());
        }
        if str_eq(code.as_str(), "rate_limit_exceeded") || str_eq(code.as_str(), "unauthorized") {
            let reason = match &result.error {
                Some(m) => m.clone(),
                None => String::new(),
            };
            self.last_error = Some(result);
            return AttemptOutcome::Retry(reason);
        }
        AttemptOutcome::Finish(result)
    }

    /// The outcome of a generation for which no credential is left.
    pub fn on_no_token(self) -> (r: ImagineResult)
        ensures
            r@ == self@.fallback("no_available_sso"@, "没有可用的 SSO"@),
    {
        match self.last_error {
            Some(e) => e,
            None => ImagineResult::failed("no_available_sso", "没有可用的 SSO"),
        }
    }

    /// The outcome of a generation whose attempts are used up.
    pub fn on_exhausted(self) -> (r: ImagineResult)
        ensures
            r@ == self@.fallback("generation_failed"@, "所有重试都失败了"@),
    {
        match self.last_error {
            Some(e) => e,
            None => ImagineResult::failed("generation_failed", "所有重试都失败了"),
        }
    }
}

} // verus!
