//! Turning what the upstream service sends, event by event, into the
//! pieces of a chat completion.
//!
//! The caller reads the events from the wire and writes the pieces to it;
//! what is written for which event, and in which order, is decided here.

use vstd::prelude::*;
use crate::common::clock::now_millis;
use crate::services::grok::assets::{
    build_video_html, rooted, spec_download_api, spec_first_at, spec_rooted,
    spec_trim_end_slashes, spec_video_html, trim_end_slashes,
};
use crate::services::grok::imagine_nsfw::{spec_url_path, url_path};
use crate::text::{
    clone_strings, contains, decimal_i64, decimal_u64, find_char, opt_chars, spec_contains, spec_decimal,
    spec_starts_with, starts_with, str_chars, string_from_range, strings_view,
};

verus! {

/// News of an image that is being made.
#[derive(Debug)]
pub struct ImageNote {
    pub index: i64,
    pub progress: i64,
}

/// The answer of the model, or a part of it.
#[derive(Debug)]
pub struct ModelReply {
    pub message: Option<String>,
    pub image_urls: Vec<String>,
    pub model_hash: Option<String>,
}

/// News of a video that is being made.
#[derive(Debug)]
pub struct VideoNote {
    pub progress: i64,
    pub video_url: String,
    pub thumbnail_url: String,
}

/// One event of the upstream service, with the fields that are read.
#[derive(Debug)]
pub struct UpstreamEvent {
    pub model_hash: Option<String>,
    pub response_id: Option<String>,
    pub image: Option<ImageNote>,
    pub reply: Option<ModelReply>,
    pub video: Option<VideoNote>,
    pub token: Option<String>,
}

/// What one chunk of a streamed completion carries.
#[derive(Debug)]
pub enum Piece {
    /// The opening chunk, which names the role.
    Role,
    /// A piece of text.
    Text(String),
    /// An image: its name, and the address it has upstream.
    Image { name: String, url: String },
    /// A video and its poster, by the addresses they have upstream.
    Video { video_url: String, thumbnail_url: String },
    /// The closing chunk.
    Stop,
    /// The mark behind the last chunk.
    Done,
}

/// Mathematical model of a [`Piece`].
pub enum PieceView {
    Role,
    Text(Seq<char>),
    Image { name: Seq<char>, url: Seq<char> },
    Video { video_url: Seq<char>, thumbnail_url: Seq<char> },
    Stop,
    Done,
}

impl View for Piece {
    type V = PieceView;

    open spec fn view(&self) -> PieceView {
        match *self {
            Piece::Role => PieceView::Role,
            Piece::Text(s) => PieceView::Text(s@),
            Piece::Image { name, url } => PieceView::Image { name: name@, url: url@ },
            Piece::Video { video_url, thumbnail_url } => PieceView::Video {
                video_url: video_url@,
                thumbnail_url: thumbnail_url@,
            },
            Piece::Stop => PieceView::Stop,
            Piece::Done => PieceView::Done,
        }
    }
}

/// One chunk of a streamed completion: the identifier of the answer as far
/// as it is known, the fingerprint of the model, and what the chunk carries.
#[derive(Debug)]
pub struct Chunk {
    pub response_id: Option<String>,
    pub fingerprint: String,
    pub piece: Piece,
}

/// Mathematical model of a [`Chunk`].
pub struct ChunkView {
    pub response_id: Option<Seq<char>>,
    pub fingerprint: Seq<char>,
    pub piece: PieceView,
}

impl View for Chunk {
    type V = ChunkView;

    open spec fn view(&self) -> ChunkView {
        ChunkView {
            response_id: opt_chars(self.response_id),
            fingerprint: self.fingerprint@,
            piece: self.piece@,
        }
    }
}

/// A list of chunks as a sequence of their models.
pub open spec fn chunks_view(v: Seq<Chunk>) -> Seq<ChunkView> {
    Seq::new(v.len(), |i: int| v[i]@)
}

/// The text that opens the model's thoughts.
pub open spec fn spec_think_open() -> Seq<char> {
    "<think>\n"@
}

/// The text that closes the model's thoughts.
pub open spec fn spec_think_close() -> Seq<char> {
    "</think>\n"@
}

/// The line that tells how far an image is.
pub open spec fn spec_image_progress(index: int, progress: int) -> Seq<char> {
    "正在生成第"@ + spec_decimal(index + 1) + "张图片中，当前进度"@ + spec_decimal(progress)
        + "%\n"@
}

/// The line that tells how far a video is.
pub open spec fn spec_video_progress(progress: int) -> Seq<char> {
    "正在生成视频中，当前进度"@ + spec_decimal(progress) + "%\n"@
}

/// The line that tells how far an image is.
pub fn image_progress(index: i64, progress: i64) -> (r: String)
    ensures
        r@ == spec_image_progress(index as int, progress as int),
{
    let number = if index == i64::MAX {
        decimal_u64(9_223_372_036_854_775_808u64)
    } else {
        decimal_i64(index + 1)
    };
    let mut out = "正在生成第".to_owned();
    out.append(number.as_str());
    out.append("张图片中，当前进度");
    out.append(decimal_i64(progress).as_str());
    out.append("%\n");
    out
}

/// The line that tells how far a video is.
pub fn video_progress(progress: i64) -> (r: String)
    ensures
        r@ == spec_video_progress(progress as int),
{
    let mut out = "正在生成视频中，当前进度".to_owned();
    out.append(decimal_i64(progress).as_str());
    out.append("%\n");
    out
}

/// Position of the last slash of `s` before `end`; -1 if there is none.
pub open spec fn spec_last_slash(s: Seq<char>, end: int) -> int
    decreases end,
{
    if end <= 0 {
        -1
    } else if s[end - 1] == '/' {
        end - 1
    } else {
        spec_last_slash(s, end - 1)
    }
}

/// The last slash before `end` stands before `end`.
pub proof fn lemma_last_slash_bound(s: Seq<char>, end: int)
    ensures
        -1 <= spec_last_slash(s, end),
        end > 0 ==> spec_last_slash(s, end) < end,
    decreases end,
{
    if end > 0 && s[end - 1] != '/' {
        lemma_last_slash_bound(s, end - 1);
    }
}

/// The name of an image: the part of its address between the last two
/// slashes, from the start if there is one slash only, and the whole
/// address if there is none.
pub open spec fn spec_image_name(url: Seq<char>) -> Seq<char> {
    let last = spec_last_slash(url, url.len() as int);
    if last < 0 {
        url
    } else {
        url.subrange(spec_last_slash(url, last) + 1, last)
    }
}

/// Position behind the last slash of `s` before `end`; 0 if there is none.
fn behind_last_slash(s: &Vec<char>, end: usize) -> (r: usize)
    requires
        end <= s.len(),
    ensures
        r == spec_last_slash(s@, end as int) + 1,
        r <= end,
{
    let mut i: usize = end;
    while i > 0 && s[i - 1] != '/'
        invariant
            i <= end,
            end <= s.len(),
            spec_last_slash(s@, end as int) == spec_last_slash(s@, i as int),
        decreases i,
    {
        i -= 1;
    }
    i
}

/// The name of an image, taken from its address.
pub fn image_name(url: &str) -> (r: String)
    ensures
        r@ == spec_image_name(url@),
{
    let chars = str_chars(url);
    let behind = behind_last_slash(&chars, chars.len());
    if behind == 0 {
        return url.to_owned();
    }
    let last: usize = behind - 1;
    let from = behind_last_slash(&chars, last);
    string_from_range(&chars, from, last)
}

/// Whether a token holds one of the tags that are kept from the reader.
pub open spec fn spec_filtered(tags: Seq<Seq<char>>, token: Seq<char>) -> bool {
    exists|i: int| 0 <= i < tags.len() && spec_contains(token, #[trigger] tags[i])
}

/// Whether a token holds one of the tags that are kept from the reader.
pub fn is_filtered(tags: &Vec<String>, token: &str) -> (r: bool)
    ensures
        r == spec_filtered(strings_view(tags@), token@),
{
    let text = str_chars(token);
    let ghost tv = strings_view(tags@);
    let mut i: usize = 0;
    while i < tags.len()
        invariant
            i <= tags.len(),
            text@ == token@,
            tv == strings_view(tags@),
            forall|j: int| 0 <= j < i ==> !spec_contains(token@, #[trigger] tv[j]),
        decreases tags.len() - i,
    {
        let tag = str_chars(tags[i].as_str());
        assert(tv[i as int] == tag@);
        if contains(&text, &tag) {
            return true;
        }
        i += 1;
    }
    false
}

/// The state of a streamed chat completion.
#[derive(Debug)]
pub struct StreamProcessor {
    pub response_id: Option<String>,
    pub fingerprint: String,
    pub think_opened: bool,
    pub role_sent: bool,
    pub filter_tags: Vec<String>,
    pub show_think: bool,
}

/// Mathematical model of a [`StreamProcessor`].
pub struct StreamProcessorView {
    pub response_id: Option<Seq<char>>,
    pub fingerprint: Seq<char>,
    pub think_opened: bool,
    pub role_sent: bool,
    pub filter_tags: Seq<Seq<char>>,
    pub show_think: bool,
}

impl View for StreamProcessor {
    type V = StreamProcessorView;

    open spec fn view(&self) -> StreamProcessorView {
        StreamProcessorView {
            response_id: opt_chars(self.response_id),
            fingerprint: self.fingerprint@,
            think_opened: self.think_opened,
            role_sent: self.role_sent,
            filter_tags: strings_view(self.filter_tags@),
            show_think: self.show_think,
        }
    }
}

impl StreamProcessorView {
    /// A chunk with the identifier and the fingerprint as they now are.
    pub open spec fn chunk(self, piece: PieceView) -> ChunkView {
        ChunkView { response_id: self.response_id, fingerprint: self.fingerprint, piece }
    }

    /// The state once the event's identifier and fingerprint are taken
    /// note of and the opening chunk is out. The fingerprint of an event
    /// counts only while none is known.
    pub open spec fn noted(self, ev: UpstreamEvent) -> StreamProcessorView {
        StreamProcessorView {
            response_id: if ev.response_id is Some {
                opt_chars(ev.response_id)
            } else {
                self.response_id
            },
            fingerprint: if ev.model_hash is Some && self.fingerprint.len() == 0 {
                ev.model_hash->0@
            } else {
                self.fingerprint
            },
            role_sent: true,
            ..self
        }
    }

    /// The opening chunk, if it is still owed.
    pub open spec fn opening(self, ev: UpstreamEvent) -> Seq<ChunkView> {
        if self.role_sent {
            Seq::empty()
        } else {
            seq![self.noted(ev).chunk(PieceView::Role)]
        }
    }

    /// The chunks for news of an image: a line of thought, behind the
    /// opening of the thoughts if they are not open yet. Nothing where
    /// thoughts are not shown.
    pub open spec fn image_chunks(self, note: ImageNote) -> Seq<ChunkView> {
        if !self.show_think {
            Seq::empty()
        } else {
            (if self.think_opened {
                Seq::empty()
            } else {
                seq![self.chunk(PieceView::Text(spec_think_open()))]
            }) + seq![
                self.chunk(
                    PieceView::Text(spec_image_progress(note.index as int, note.progress as int)),
                ),
            ]
        }
    }

    /// The chunks that end open thoughts when the answer comes: the
    /// answer's message as the last thought, then the closing.
    pub open spec fn closing(self, message: Option<String>) -> Seq<ChunkView> {
        if self.think_opened && self.show_think {
            (match message {
                Some(m) => seq![self.chunk(PieceView::Text(m@ + "\n"@))],
                None => Seq::empty(),
            }) + seq![self.chunk(PieceView::Text(spec_think_close()))]
        } else {
            Seq::empty()
        }
    }

    /// One chunk for each image of the answer, in their order.
    pub open spec fn pictures(self, urls: Seq<String>) -> Seq<ChunkView> {
        Seq::new(
            urls.len(),
            |i: int|
                self.chunk(PieceView::Image { name: spec_image_name(urls[i]@), url: urls[i]@ }),
        )
    }

    /// The chunk for a token: the token itself, unless it is empty or
    /// holds a tag that is kept from the reader.
    pub open spec fn token_chunks(self, token: Option<String>) -> Seq<ChunkView> {
        if token is Some && token->0@.len() > 0 && !spec_filtered(self.filter_tags, token->0@) {
            seq![self.chunk(PieceView::Text(token->0@))]
        } else {
            Seq::empty()
        }
    }

    /// The chunks that an event gives rise to. News of an image goes
    /// before an answer, an answer before a token.
    pub open spec fn emitted(self, ev: UpstreamEvent) -> Seq<ChunkView> {
        let s = self.noted(ev);
        self.opening(ev) + (if ev.image is Some {
            s.image_chunks(ev.image->0)
        } else if ev.reply is Some {
            s.closing(ev.reply->0.message) + s.pictures(ev.reply->0.image_urls@)
        } else {
            s.token_chunks(ev.token)
        })
    }

    /// The state behind an event.
    pub open spec fn after(self, ev: UpstreamEvent) -> StreamProcessorView {
        let s = self.noted(ev);
        if ev.image is Some {
            StreamProcessorView { think_opened: s.think_opened || s.show_think, ..s }
        } else if ev.reply is Some {
            StreamProcessorView {
                think_opened: s.think_opened && !s.show_think,
                fingerprint: if ev.reply->0.model_hash is Some {
                    ev.reply->0.model_hash->0@
                } else {
                    s.fingerprint
                },
                ..s
            }
        } else {
            s
        }
    }

    /// The chunks that end the stream: the closing of thoughts that are
    /// still open, the closing chunk, and the mark behind it.
    pub open spec fn ending(self) -> Seq<ChunkView> {
        (if self.think_opened {
            seq![self.chunk(PieceView::Text(spec_think_close()))]
        } else {
            Seq::empty()
        }) + seq![self.chunk(PieceView::Stop), self.chunk(PieceView::Done)]
    }
}

impl StreamProcessor {
    /// The state before the first event.
    pub fn new(filter_tags: Vec<String>, show_think: bool) -> (r: Self)
        ensures
            r@ == (StreamProcessorView {
                response_id: None,
                fingerprint: Seq::empty(),
                think_opened: false,
                role_sent: false,
                filter_tags: strings_view(filter_tags@),
                show_think,
            }),
    {
        StreamProcessor {
            response_id: None,
            fingerprint: String::new(),
            think_opened: false,
            role_sent: false,
            filter_tags,
            show_think,
        }
    }

    /// A chunk with the identifier and the fingerprint as they now are.
    fn chunk(&self, piece: Piece) -> (r: Chunk)
        ensures
            r@ == self@.chunk(piece@),
    {
        let response_id = match &self.response_id {
            Some(id) => Some(id.clone()),
            None => None,
        };
        Chunk { response_id, fingerprint: self.fingerprint.clone(), piece }
    }

    /// Takes note of the event's identifier and fingerprint.
    fn note(&mut self, ev: &UpstreamEvent)
        ensures
            final(self)@ == old(self)@.noted(*ev),
    {
        if let Some(hash) = &ev.model_hash {
            if self.fingerprint.as_str().is_empty() {
                self.fingerprint = hash.clone();
            }
        }
        if let Some(id) = &ev.response_id {
            self.response_id = Some(id.clone());
        }
        self.role_sent = true;
    }

    /// Takes one event and names the chunks to write for it, in their order.
    pub fn on_event(&mut self, ev: &UpstreamEvent) -> (r: Vec<Chunk>)
        ensures
            final(self)@ == old(self)@.after(*ev),
            chunks_view(r@) == old(self)@.emitted(*ev),
    {
        let mut out: Vec<Chunk> = Vec::new();
        let owed = !self.role_sent;
        self.note(ev);
        if owed {
            out.push(self.chunk(Piece::Role));
        }
        let ghost s = self@;
        let ghost head = old(self)@.opening(*ev);
        assert(chunks_view(out@) =~= head);
        if let Some(note) = &ev.image {
            if self.show_think {
                if !self.think_opened {
                    out.push(self.chunk(Piece::Text("<think>\n".to_owned())));
                    self.think_opened = true;
                }
                out.push(self.chunk(Piece::Text(image_progress(note.index, note.progress))));
            }
            assert(chunks_view(out@) =~= head + s.image_chunks(*note));
            return out;
        }
        if let Some(reply) = &ev.reply {
            if self.think_opened && self.show_think {
                if let Some(message) = &reply.message {
                    let mut line = message.clone();
                    line.append("\n");
                    out.push(self.chunk(Piece::Text(line)));
                }
                out.push(self.chunk(Piece::Text("</think>\n".to_owned())));
                self.think_opened = false;
            }
            let ghost before = head + s.closing(reply.message);
            assert(chunks_view(out@) =~= before);
            let mut i: usize = 0;
            while i < reply.image_urls.len()
                invariant
                    i <= reply.image_urls.len(),
                    self@ == (StreamProcessorView { think_opened: s.think_opened && !s.show_think, ..s }),
                    chunks_view(out@) == before + s.pictures(reply.image_urls@).take(i as int),
                decreases reply.image_urls.len() - i,
            {
                let ghost so_far = chunks_view(out@);
                let url = reply.image_urls[i].clone();
                let name = image_name(url.as_str());
                let chunk = self.chunk(Piece::Image { name, url });
                assert(chunk@ == s.pictures(reply.image_urls@)[i as int]);
                out.push(chunk);
                i += 1;
                assert(chunks_view(out@) =~= so_far.push(chunk@));
                assert(s.pictures(reply.image_urls@).take(i as int) =~= s.pictures(
                    reply.image_urls@,
                ).take(i - 1).push(chunk@));
            }
            assert(s.pictures(reply.image_urls@).take(i as int) =~= s.pictures(reply.image_urls@));
            if let Some(hash) = &reply.model_hash {
                self.fingerprint = hash.clone();
            }
            return out;
        }
        if let Some(token) = &ev.token {
            if !token.as_str().is_empty() && !is_filtered(&self.filter_tags, token.as_str()) {
                out.push(self.chunk(Piece::Text(token.clone())));
            }
        }
        assert(chunks_view(out@) =~= head + s.token_chunks(ev.token));
        out
    }

    /// Names the chunks that end the stream.
    pub fn finish(&self) -> (r: Vec<Chunk>)
        ensures
            chunks_view(r@) == self@.ending(),
    {
        let mut out: Vec<Chunk> = Vec::new();
        if self.think_opened {
            out.push(self.chunk(Piece::Text("</think>\n".to_owned())));
        }
        out.push(self.chunk(Piece::Stop));
        out.push(self.chunk(Piece::Done));
        assert(chunks_view(out@) =~= self@.ending());
        out
    }
}

/// The line that shows an image: its name in square brackets, its
/// address in round ones.
pub open spec fn spec_image_line(name: Seq<char>, link: Seq<char>) -> Seq<char> {
    "!["@ + name + "]("@ + link + ")\n"@
}

/// The line that shows an image.
pub fn image_line(name: &str, link: &str) -> (r: String)
    ensures
        r@ == spec_image_line(name@, link@),
{
    let mut out = "![".to_owned();
    out.append(name);
    out.append("](");
    out.append(link);
    out.append(")\n");
    out
}

/// The lines that show images without a name, one line for each address.
pub open spec fn spec_image_lines(links: Seq<Seq<char>>) -> Seq<char>
    decreases links.len(),
{
    if links.len() == 0 {
        Seq::empty()
    } else {
        spec_image_lines(links.drop_last()) + spec_image_line(Seq::empty(), links.last())
    }
}

/// The text of an optional string; empty where there is none.
pub open spec fn spec_text_of(o: Option<String>) -> Seq<char> {
    match o {
        Some(s) => s@,
        None => Seq::empty(),
    }
}

/// What a chat completion that is answered in one piece has gathered.
#[derive(Debug)]
pub struct CollectProcessor {
    pub response_id: String,
    pub fingerprint: String,
    pub content: String,
}

/// Mathematical model of a [`CollectProcessor`].
pub struct CollectProcessorView {
    pub response_id: Seq<char>,
    pub fingerprint: Seq<char>,
    pub content: Seq<char>,
}

impl View for CollectProcessor {
    type V = CollectProcessorView;

    open spec fn view(&self) -> CollectProcessorView {
        CollectProcessorView {
            response_id: self.response_id@,
            fingerprint: self.fingerprint@,
            content: self.content@,
        }
    }
}

impl CollectProcessorView {
    /// What an event adds to the content: the answer's message and a line
    /// for each of its images, then the token.
    pub open spec fn added(ev: UpstreamEvent, links: Seq<Seq<char>>) -> Seq<char> {
        (if ev.reply is Some {
            spec_text_of(ev.reply->0.message) + spec_image_lines(links)
        } else {
            Seq::empty()
        }) + spec_text_of(ev.token)
    }

    /// The state behind an event. The fingerprint of an event counts only
    /// while none is known; its identifier always does.
    pub open spec fn after(self, ev: UpstreamEvent, links: Seq<Seq<char>>) -> CollectProcessorView {
        CollectProcessorView {
            response_id: if ev.response_id is Some {
                ev.response_id->0@
            } else {
                self.response_id
            },
            fingerprint: if ev.model_hash is Some && self.fingerprint.len() == 0 {
                ev.model_hash->0@
            } else {
                self.fingerprint
            },
            content: self.content + Self::added(ev, links),
        }
    }
}

impl CollectProcessor {
    /// The state before the first event.
    pub fn new() -> (r: Self)
        ensures
            r@ == (CollectProcessorView {
                response_id: Seq::empty(),
                fingerprint: Seq::empty(),
                content: Seq::empty(),
            }),
    {
        CollectProcessor {
            response_id: String::new(),
            fingerprint: String::new(),
            content: String::new(),
        }
    }

    /// Takes one event. `links` are the addresses under which the images
    /// of the event's answer are shown, in their order.
    pub fn on_event(&mut self, ev: &UpstreamEvent, links: &Vec<String>)
        ensures
            final(self)@ == old(self)@.after(*ev, strings_view(links@)),
    {
        let ghost lv = strings_view(links@);
        let ghost start = self.content@;
        if let Some(hash) = &ev.model_hash {
            if self.fingerprint.as_str().is_empty() {
                self.fingerprint = hash.clone();
            }
        }
        if let Some(id) = &ev.response_id {
            self.response_id = id.clone();
        }
        if let Some(reply) = &ev.reply {
            if let Some(message) = &reply.message {
                self.content.append(message.as_str());
            }
            let ghost base = self.content@;
            let ghost id_now = self.response_id@;
            let ghost hash_now = self.fingerprint@;
            assert(base =~= start + spec_text_of(reply.message));
            let mut i: usize = 0;
            assert(lv.take(0) =~= Seq::empty());
            while i < links.len()
                invariant
                    i <= links.len(),
                    lv == strings_view(links@),
                    self.response_id@ == id_now,
                    self.fingerprint@ == hash_now,
                    self.content@ == base + spec_image_lines(lv.take(i as int)),
                decreases links.len() - i,
            {
                proof {
                    assert(lv.take(i + 1).drop_last() =~= lv.take(i as int));
                    assert(lv.take(i + 1).last() == links[i as int]@);
                    reveal_strlit("");
                    assert(""@ =~= Seq::<char>::empty());
                }
                self.content.append(image_line("", links[i].as_str()).as_str());
                i += 1;
                assert(self.content@ =~= base + spec_image_lines(lv.take(i as int)));
            }
            assert(lv.take(i as int) =~= lv);
        }
        if let Some(token) = &ev.token {
            self.content.append(token.as_str());
        }
        assert(self.content@ =~= start + CollectProcessorView::added(*ev, lv));
    }
}

/// The state of a streamed video completion.
#[derive(Debug)]
pub struct VideoStreamProcessor {
    pub response_id: Option<String>,
    pub think_opened: bool,
    pub role_sent: bool,
    pub show_think: bool,
}

/// Mathematical model of a [`VideoStreamProcessor`].
pub struct VideoStreamProcessorView {
    pub response_id: Option<Seq<char>>,
    pub think_opened: bool,
    pub role_sent: bool,
    pub show_think: bool,
}

impl View for VideoStreamProcessor {
    type V = VideoStreamProcessorView;

    open spec fn view(&self) -> VideoStreamProcessorView {
        VideoStreamProcessorView {
            response_id: opt_chars(self.response_id),
            think_opened: self.think_opened,
            role_sent: self.role_sent,
            show_think: self.show_think,
        }
    }
}

impl VideoStreamProcessorView {
    /// A chunk with the identifier as it now is; a video has no fingerprint.
    pub open spec fn chunk(self, piece: PieceView) -> ChunkView {
        ChunkView { response_id: self.response_id, fingerprint: Seq::empty(), piece }
    }

    /// The state once the event's identifier is taken note of and the
    /// opening chunk is out.
    pub open spec fn noted(self, ev: UpstreamEvent) -> VideoStreamProcessorView {
        VideoStreamProcessorView {
            response_id: if ev.response_id is Some {
                opt_chars(ev.response_id)
            } else {
                self.response_id
            },
            role_sent: true,
            ..self
        }
    }

    /// The opening chunk, if it is still owed.
    pub open spec fn opening(self, ev: UpstreamEvent) -> Seq<ChunkView> {
        if self.role_sent {
            Seq::empty()
        } else {
            seq![self.noted(ev).chunk(PieceView::Role)]
        }
    }

    /// The thoughts on news of a video: a line that tells how far it is,
    /// behind the opening of the thoughts if they are not open yet.
    pub open spec fn thoughts(self, note: VideoNote) -> Seq<ChunkView> {
        if !self.show_think {
            Seq::empty()
        } else {
            (if self.think_opened {
                Seq::empty()
            } else {
                seq![self.chunk(PieceView::Text(spec_think_open()))]
            }) + seq![self.chunk(PieceView::Text(spec_video_progress(note.progress as int)))]
        }
    }

    /// The chunks for a video that is done: the closing of the thoughts,
    /// where they are shown, and the video, where it has an address.
    pub open spec fn outcome(self, note: VideoNote) -> Seq<ChunkView> {
        if note.progress != 100 {
            Seq::empty()
        } else {
            (if self.show_think {
                seq![self.chunk(PieceView::Text(spec_think_close()))]
            } else {
                Seq::empty()
            }) + (if note.video_url@.len() > 0 {
                seq![
                    self.chunk(
                        PieceView::Video {
                            video_url: note.video_url@,
                            thumbnail_url: note.thumbnail_url@,
                        },
                    ),
                ]
            } else {
                Seq::empty()
            })
        }
    }

    /// The chunks that an event gives rise to.
    pub open spec fn emitted(self, ev: UpstreamEvent) -> Seq<ChunkView> {
        let s = self.noted(ev);
        self.opening(ev) + (if ev.video is Some {
            s.thoughts(ev.video->0) + s.outcome(ev.video->0)
        } else {
            Seq::empty()
        })
    }

    /// The state behind an event: thoughts are open while a video that is
    /// shown with thoughts is on its way.
    pub open spec fn after(self, ev: UpstreamEvent) -> VideoStreamProcessorView {
        let s = self.noted(ev);
        if ev.video is Some {
            VideoStreamProcessorView {
                think_opened: if s.show_think {
                    ev.video->0.progress != 100
                } else {
                    s.think_opened
                },
                ..s
            }
        } else {
            s
        }
    }

    /// The chunks that end the stream.
    pub open spec fn ending(self) -> Seq<ChunkView> {
        (if self.think_opened {
            seq![self.chunk(PieceView::Text(spec_think_close()))]
        } else {
            Seq::empty()
        }) + seq![self.chunk(PieceView::Stop), self.chunk(PieceView::Done)]
    }
}

impl VideoStreamProcessor {
    /// The state before the first event.
    pub fn new(show_think: bool) -> (r: Self)
        ensures
            r@ == (VideoStreamProcessorView {
                response_id: None,
                think_opened: false,
                role_sent: false,
                show_think,
            }),
    {
        VideoStreamProcessor { response_id: None, think_opened: false, role_sent: false, show_think }
    }

    /// A chunk with the identifier as it now is.
    fn chunk(&self, piece: Piece) -> (r: Chunk)
        ensures
            r@ == self@.chunk(piece@),
    {
        let response_id = match &self.response_id {
            Some(id) => Some(id.clone()),
            None => None,
        };
        Chunk { response_id, fingerprint: String::new(), piece }
    }

    /// Takes one event and names the chunks to write for it, in their order.
    pub fn on_event(&mut self, ev: &UpstreamEvent) -> (r: Vec<Chunk>)
        ensures
            final(self)@ == old(self)@.after(*ev),
            chunks_view(r@) == old(self)@.emitted(*ev),
    {
        let mut out: Vec<Chunk> = Vec::new();
        if let Some(id) = &ev.response_id {
            self.response_id = Some(id.clone());
        }
        if !self.role_sent {
            self.role_sent = true;
            out.push(self.chunk(Piece::Role));
        }
        let ghost s = self@;
        let ghost head = old(self)@.opening(*ev);
        assert(s == old(self)@.noted(*ev));
        assert(chunks_view(out@) =~= head);
        if let Some(note) = &ev.video {
            if self.show_think {
                if !self.think_opened {
                    out.push(self.chunk(Piece::Text("<think>\n".to_owned())));
                    self.think_opened = true;
                }
                out.push(self.chunk(Piece::Text(video_progress(note.progress))));
            }
            assert(chunks_view(out@) =~= head + s.thoughts(*note));
            if note.progress == 100 {
                if self.think_opened && self.show_think {
                    out.push(self.chunk(Piece::Text("</think>\n".to_owned())));
                    self.think_opened = false;
                }
                if !note.video_url.as_str().is_empty() {
                    out.push(
                        self.chunk(
                            Piece::Video {
                                video_url: note.video_url.clone(),
                                thumbnail_url: note.thumbnail_url.clone(),
                            },
                        ),
                    );
                }
            }
            assert(chunks_view(out@) =~= head + (s.thoughts(*note) + s.outcome(*note)));
        }
        out
    }

    /// Names the chunks that end the stream.
    pub fn finish(&self) -> (r: Vec<Chunk>)
        ensures
            chunks_view(r@) == self@.ending(),
    {
        let mut out: Vec<Chunk> = Vec::new();
        if self.think_opened {
            out.push(self.chunk(Piece::Text("</think>\n".to_owned())));
        }
        out.push(self.chunk(Piece::Stop));
        out.push(self.chunk(Piece::Done));
        assert(chunks_view(out@) =~= self@.ending());
        out
    }

    /// The page element that shows a video, with its poster if it has one.
    pub fn build_video_html(video_url: &str, thumbnail_url: &str) -> (r: String)
        ensures
            r@ == spec_video_html(video_url@, thumbnail_url@),
    {
        build_video_html(video_url, thumbnail_url)
    }
}

/// What a video completion that is answered in one piece has gathered.
#[derive(Debug)]
pub struct VideoCollectProcessor {
    pub response_id: String,
    pub content: String,
}

/// Whether an event brings a finished video that has an address.
pub open spec fn spec_brings_video(ev: UpstreamEvent) -> bool {
    ev.video is Some && ev.video->0.progress == 100 && ev.video->0.video_url@.len() > 0
}

impl VideoCollectProcessor {
    /// The state before the first event.
    pub fn new() -> (r: Self)
        ensures
            r.response_id@.len() == 0,
            r.content@.len() == 0,
    {
        VideoCollectProcessor { response_id: String::new(), content: String::new() }
    }

    /// Takes one event, and tells whether it brings a video to show. The
    /// identifier is that of the last event with a finished video, empty
    /// if that event had none.
    pub fn on_event(&mut self, ev: &UpstreamEvent) -> (r: bool)
        ensures
            r == spec_brings_video(*ev),
            final(self).content@ == old(self).content@,
            final(self).response_id@ == if ev.video is Some && ev.video->0.progress == 100 {
                spec_text_of(ev.response_id)
            } else {
                old(self).response_id@
            },
    {
        if let Some(note) = &ev.video {
            if note.progress == 100 {
                self.response_id = match &ev.response_id {
                    Some(id) => id.clone(),
                    None => String::new(),
                };
                return !note.video_url.as_str().is_empty();
            }
        }
        false
    }

    /// The page element that shows a video, with its poster if it has one.
    pub fn build_video_html(video_url: &str, thumbnail_url: &str) -> (r: String)
        ensures
            r@ == spec_video_html(video_url@, thumbnail_url@),
    {
        build_video_html(video_url, thumbnail_url)
    }

    /// Shows the video under the addresses given, in place of what was
    /// shown before.
    pub fn show(&mut self, video_link: &str, thumbnail_link: &str)
        ensures
            final(self).response_id@ == old(self).response_id@,
            final(self).content@ == spec_video_html(video_link@, thumbnail_link@),
    {
        self.content = Self::build_video_html(video_link, thumbnail_link);
    }
}

/// What is left of a data address when its head, up to the first comma,
/// is taken off; the whole text where there is no comma.
pub open spec fn spec_strip_data_head(s: Seq<char>) -> Seq<char> {
    if s.contains(',') {
        s.skip((choose|i: int| spec_first_at(s, ',', i)) + 1)
    } else {
        s
    }
}

/// The base64 text of a data address.
pub fn strip_data_head(data: &str) -> (r: String)
    ensures
        r@ == spec_strip_data_head(data@),
{
    let chars = str_chars(data);
    match find_char(&chars, ',') {
        Some(at) => {
            proof {
                let chosen = choose|k: int| spec_first_at(chars@, ',', k);
                assert(spec_first_at(chars@, ',', at as int));
                assert(chosen == at);
                assert(chars@.skip(at + 1) =~= chars@.subrange(at + 1, chars.len() as int));
            }
            string_from_range(&chars, at + 1, chars.len())
        },
        None => data.to_owned(),
    }
}

/// `rand::random::<usize>`: a random number. Nothing is claimed of it.
#[verifier::external_body]
fn random_index() -> (r: usize) {
    rand::random::<usize>()
}

/// News of a partial image, as it is passed on.
#[derive(Debug)]
pub struct PartialImage {
    pub index: usize,
    pub progress: i64,
}

/// A finished image, as it is passed on.
#[derive(Debug)]
pub struct CompletedImage {
    pub index: usize,
    pub image: String,
}

/// What an event of a streamed image generation asks for.
#[derive(Debug)]
pub enum ImageStep {
    /// To pass on news of a partial image.
    Partial(PartialImage),
    /// To fetch the finished images at these addresses and keep them.
    Fetch(Vec<String>),
    /// Nothing.
    Nothing,
}

/// Mathematical model of an [`ImageStep`].
pub enum ImageStepView {
    Partial(usize, i64),
    Fetch(Seq<Seq<char>>),
    Nothing,
}

impl View for ImageStep {
    type V = ImageStepView;

    open spec fn view(&self) -> ImageStepView {
        match *self {
            ImageStep::Partial(p) => ImageStepView::Partial(p.index, p.progress),
            ImageStep::Fetch(urls) => ImageStepView::Fetch(strings_view(urls@)),
            ImageStep::Nothing => ImageStepView::Nothing,
        }
    }
}

/// The state of a streamed image generation. Where one image is asked
/// for, one of the first two that are made is passed on, chosen at the
/// start, under the index 0.
#[derive(Debug)]
pub struct ImageStreamProcessor {
    pub n: usize,
    pub target_index: Option<usize>,
    pub return_base64: bool,
    pub final_images: Vec<String>,
}

/// Whether the image at `position` is passed on.
pub open spec fn spec_passes(n: usize, target: Option<usize>, position: usize) -> bool {
    !(n == 1 && target is Some && position != target->0)
}

/// The index under which the image at `position` is passed on.
pub open spec fn spec_out_index(n: usize, position: usize) -> usize {
    if n == 1 {
        0
    } else {
        position
    }
}

/// The finished images that are passed on, of the first `k` that came.
pub open spec fn spec_completed(
    n: usize,
    target: Option<usize>,
    images: Seq<String>,
    k: int,
) -> Seq<(usize, Seq<char>)>
    decreases k,
{
    if k <= 0 {
        Seq::empty()
    } else if spec_passes(n, target, (k - 1) as usize) {
        spec_completed(n, target, images, k - 1).push(
            (spec_out_index(n, (k - 1) as usize), images[k - 1]@),
        )
    } else {
        spec_completed(n, target, images, k - 1)
    }
}

/// A list of finished images as a sequence of indices and texts.
pub open spec fn completed_view(v: Seq<CompletedImage>) -> Seq<(usize, Seq<char>)> {
    Seq::new(v.len(), |i: int| (v[i].index, v[i].image@))
}

impl ImageStreamProcessor {
    /// The image that is passed on where one is asked for: the first or
    /// the second, by the number drawn.
    pub open spec fn spec_target(n: usize, draw: usize) -> Option<usize> {
        if n == 1 {
            Some((draw % 2) as usize)
        } else {
            None
        }
    }

    /// The state before the first event, for a number that was drawn.
    pub fn with_draw(n: usize, return_base64: bool, draw: usize) -> (r: Self)
        ensures
            r.n == n,
            r.return_base64 == return_base64,
            r.target_index == Self::spec_target(n, draw),
            r.final_images@.len() == 0,
    {
        let target_index = if n == 1 {
            Some(draw % 2)
        } else {
            None
        };
        ImageStreamProcessor { n, target_index, return_base64, final_images: Vec::new() }
    }

    /// The state before the first event. Which of the first two images is
    /// passed on where one is asked for is left to chance.
    pub fn new(n: usize, return_base64: bool) -> (r: Self)
        ensures
            r.n == n,
            r.return_base64 == return_base64,
            n != 1 ==> r.target_index is None,
            n == 1 ==> r.target_index == Some(0usize) || r.target_index == Some(1usize),
            r.final_images@.len() == 0,
    {
        Self::with_draw(n, return_base64, random_index())
    }

    /// What is passed on of news of a partial image, if anything.
    pub fn on_partial(&self, index: i64, progress: i64) -> (r: Option<PartialImage>)
        ensures
            r is Some == spec_passes(self.n, self.target_index, index as usize),
            r matches Some(p) ==> p.index == spec_out_index(self.n, index as usize)
                && p.progress == progress,
    {
        let position: usize = index as usize;
        if self.n == 1 {
            if let Some(target) = self.target_index {
                if position != target {
                    return None;
                }
            }
        }
        let out_index: usize = if self.n == 1 {
            0
        } else {
            position
        };
        Some(PartialImage { index: out_index, progress })
    }

    /// What an event asks for: news of an image goes before an answer.
    pub open spec fn spec_step(self, ev: UpstreamEvent) -> ImageStepView {
        if ev.image is Some {
            let position = ev.image->0.index as usize;
            if spec_passes(self.n, self.target_index, position) {
                ImageStepView::Partial(spec_out_index(self.n, position), ev.image->0.progress)
            } else {
                ImageStepView::Nothing
            }
        } else if ev.reply is Some {
            ImageStepView::Fetch(strings_view(ev.reply->0.image_urls@))
        } else {
            ImageStepView::Nothing
        }
    }

    /// Tells what an event asks for.
    pub fn step(&self, ev: &UpstreamEvent) -> (r: ImageStep)
        ensures
            r@ == self.spec_step(*ev),
    {
        if let Some(note) = &ev.image {
            return match self.on_partial(note.index, note.progress) {
                Some(p) => ImageStep::Partial(p),
                None => ImageStep::Nothing,
            };
        }
        if let Some(reply) = &ev.reply {
            return ImageStep::Fetch(clone_strings(&reply.image_urls));
        }
        ImageStep::Nothing
    }

    /// Keeps a finished image: its address, or its base64 text.
    pub fn on_final(&mut self, image: String)
        ensures
            final(self).n == old(self).n,
            final(self).target_index == old(self).target_index,
            final(self).return_base64 == old(self).return_base64,
            final(self).final_images@ == old(self).final_images@.push(image),
    {
        self.final_images.push(image);
    }

    /// The finished images that are passed on at the end, in the order in
    /// which they came.
    pub fn completed(&self) -> (r: Vec<CompletedImage>)
        ensures
            completed_view(r@) == spec_completed(
                self.n,
                self.target_index,
                self.final_images@,
                self.final_images@.len() as int,
            ),
    {
        let mut out: Vec<CompletedImage> = Vec::new();
        let mut i: usize = 0;
        while i < self.final_images.len()
            invariant
                i <= self.final_images.len(),
                completed_view(out@) =~= spec_completed(
                    self.n,
                    self.target_index,
                    self.final_images@,
                    i as int,
                ),
            decreases self.final_images.len() - i,
        {
            let ghost so_far = completed_view(out@);
            let mut passes = true;
            if self.n == 1 {
                if let Some(target) = self.target_index {
                    if i != target {
                        passes = false;
                    }
                }
            }
            if passes {
                let index: usize = if self.n == 1 {
                    0
                } else {
                    i
                };
                let image = self.final_images[i].clone();
                out.push(CompletedImage { index, image });
                assert(completed_view(out@) =~= so_far.push((index, self.final_images[i as int]@)));
            }
            i += 1;
        }
        out
    }
}

/// The path of a media file upstream: that of its address where it is
/// one, the text itself otherwise, with a slash in front.
pub open spec fn spec_media_path(path: Seq<char>) -> Seq<char> {
    spec_rooted(
        if spec_starts_with(path, "http"@) && spec_url_path(path) is Some {
            spec_url_path(path)->0
        } else {
            path
        },
    )
}

/// Where a media file is shown, and whether it has to be fetched first.
#[derive(Debug)]
pub struct MediaLink {
    /// The path of the file upstream.
    pub path: String,
    /// The address under which the file is shown.
    pub link: String,
    /// Whether the gateway serves the file itself and has to fetch it.
    pub fetch: bool,
}

/// The address under which a media file is shown: upstream, where the
/// gateway has no address of its own; under the gateway's files otherwise.
pub open spec fn spec_media_address(
    app_url: Seq<char>,
    path: Seq<char>,
    media_type: Seq<char>,
) -> Seq<char> {
    if app_url.len() == 0 {
        spec_download_api() + spec_media_path(path)
    } else {
        spec_trim_end_slashes(app_url) + "/v1/files/"@ + media_type + spec_media_path(path)
    }
}

/// Where a media file is shown, and whether it has to be fetched first.
pub fn media_link(app_url: &str, path: &str, media_type: &str) -> (r: MediaLink)
    ensures
        r.path@ == spec_media_path(path@),
        r.link@ == spec_media_address(app_url@, path@, media_type@),
        r.fetch == (app_url@.len() > 0),
{
    let chars = str_chars(path);
    let head = str_chars("http");
    let mut inner = path.to_owned();
    if starts_with(&chars, &head) {
        if let Some(p) = url_path(path) {
            inner = p;
        }
    }
    let rooted_path = rooted(inner.as_str());
    if app_url.is_empty() {
        let mut link = "https://assets.grok.com".to_owned();
        link.append(rooted_path.as_str());
        return MediaLink { path: rooted_path, link, fetch: false };
    }
    let mut link = trim_end_slashes(app_url);
    link.append("/v1/files/");
    link.append(media_type);
    link.append(rooted_path.as_str());
    MediaLink { path: rooted_path, link, fetch: true }
}

/// The seconds of a time given in milliseconds, rounded down.
pub open spec fn spec_seconds(millis: int) -> int {
    millis / 1000
}

/// The seconds of a time given in milliseconds, rounded down.
pub fn seconds_of(millis: i64) -> (r: i64)
    ensures
        r == spec_seconds(millis as int),
{
    let whole: i64 = millis / 1000;
    if millis % 1000 < 0 {
        whole - 1
    } else {
        whole
    }
}

/// What every processor knows of the completion it works on: the model,
/// the credential, the time at which it began, in seconds, and the
/// address of the gateway, empty if it has none.
#[derive(Debug)]
pub struct BaseProcessor {
    pub model: String,
    pub token: String,
    pub created: i64,
    pub app_url: String,
}

impl BaseProcessor {
    /// What is known of a completion that began at `created`.
    pub fn new_at(model: &str, token: &str, created: i64, app_url: &str) -> (r: Self)
        ensures
            r.model@ == model@,
            r.token@ == token@,
            r.created == created,
            r.app_url@ == app_url@,
    {
        BaseProcessor {
            model: model.to_owned(),
            token: token.to_owned(),
            created,
            app_url: app_url.to_owned(),
        }
    }

    /// What is known of a completion that begins now.
    pub fn new(model: &str, token: &str, app_url: &str) -> (r: Self)
        ensures
            r.model@ == model@,
            r.token@ == token@,
            r.app_url@ == app_url@,
    {
        Self::new_at(model, token, seconds_of(now_millis()), app_url)
    }

    /// Where a media file of the completion is shown, and whether it has
    /// to be fetched first.
    pub fn process_url(&self, path: &str, media_type: &str) -> (r: MediaLink)
        ensures
            r.path@ == spec_media_path(path@),
            r.link@ == spec_media_address(self.app_url@, path@, media_type@),
            r.fetch == (self.app_url@.len() > 0),
    {
        media_link(self.app_url.as_str(), path, media_type)
    }
}

/// The finished images of a generation that is answered in one piece.
#[derive(Debug)]
pub struct ImageCollectProcessor {
    pub return_base64: bool,
    pub images: Vec<String>,
}

impl ImageCollectProcessor {
    /// The state before the first event.
    pub fn new(return_base64: bool) -> (r: Self)
        ensures
            r.return_base64 == return_base64,
            r.images@.len() == 0,
    {
        ImageCollectProcessor { return_base64, images: Vec::new() }
    }

    /// The addresses of the finished images that an event brings: those
    /// of its answer, whatever else it carries.
    pub fn wanted(&self, ev: &UpstreamEvent) -> (r: Vec<String>)
        ensures
            strings_view(r@) == match ev.reply {
                Some(reply) => strings_view(reply.image_urls@),
                None => Seq::empty(),
            },
    {
        match &ev.reply {
            Some(reply) => clone_strings(&reply.image_urls),
            None => {
                let out: Vec<String> = Vec::new();
                assert(strings_view(out@) =~= Seq::empty());
                out
            },
        }
    }

    /// Keeps a finished image: its address, or its base64 text.
    pub fn on_final(&mut self, image: String)
        ensures
            final(self).return_base64 == old(self).return_base64,
            final(self).images@ == old(self).images@.push(image),
    {
        self.images.push(image);
    }
}

} // verus!
