//! Turning the messages of a chat request into one prompt and its attachments.

use vstd::prelude::*;
use crate::common::auth::spec_error_of;
use crate::common::exceptions::{ApiError, ApiErrorView, ErrorType};
use crate::text::{opt_chars, spec_trim, str_eq, strings_view, trim};

verus! {

/// One block of the content of a message, as far as it is read.
#[derive(Debug)]
pub struct ExtractBlock {
    /// The kind of the block; empty if it names none.
    pub block_type: String,
    /// The text of the block, if it has one.
    pub text: Option<String>,
    /// What an image, audio or file block refers to: an address or the
    /// data themselves; nothing if the block has no such part.
    pub reference: Option<String>,
}

/// The content of a message.
#[derive(Debug)]
pub enum ExtractContent {
    /// The message has no content.
    Missing,
    /// The content is a text.
    Text(String),
    /// The content is a list of blocks.
    Blocks(Vec<ExtractBlock>),
    /// The content is of another form, which is passed over.
    Other,
}

/// One message of a chat request, as far as it is read.
#[derive(Debug)]
pub struct ExtractMessage {
    /// The role of the message; a message without one is the user's.
    pub role: Option<String>,
    pub content: ExtractContent,
}

/// Something that goes with the prompt: its kind and its address or data.
#[derive(Debug)]
pub struct Attachment {
    pub kind: String,
    pub data: String,
}

/// What a chat request asks: the prompt and what goes with it.
#[derive(Debug)]
pub struct Extracted {
    pub prompt: String,
    pub attachments: Vec<Attachment>,
}

/// The kinds and data of a list of attachments.
pub open spec fn attachments_view(s: Seq<Attachment>) -> Seq<(Seq<char>, Seq<char>)> {
    Seq::new(s.len(), |i: int| (s[i].kind@, s[i].data@))
}

/// The texts with `sep` between each two.
pub open spec fn spec_join(parts: Seq<Seq<char>>, sep: Seq<char>) -> Seq<char>
    decreases parts.len(),
{
    if parts.len() == 0 {
        Seq::empty()
    } else if parts.len() == 1 {
        parts[0]
    } else {
        spec_join(parts.drop_last(), sep) + sep + parts.last()
    }
}

/// The texts with `sep` between each two.
pub fn join(parts: &Vec<String>, sep: &str) -> (r: String)
    ensures
        r@ == spec_join(strings_view(parts@), sep@),
{
    let ghost pv = strings_view(parts@);
    let mut out = String::new();
    let mut i: usize = 0;
    assert(pv.take(0) =~= Seq::empty());
    while i < parts.len()
        invariant
            i <= parts.len(),
            pv == strings_view(parts@),
            out@ == spec_join(pv.take(i as int), sep@),
        decreases parts.len() - i,
    {
        proof {
            assert(pv.take(i + 1).drop_last() =~= pv.take(i as int));
            assert(pv.take(i + 1).last() == pv[i as int]);
            if i == 0 {
                assert(pv.take(1)[0] == pv[0]);
                assert(Seq::<char>::empty() + pv[0] =~= pv[0]);
            }
        }
        if i > 0 {
            out.append(sep);
        }
        out.append(parts[i].as_str());
        i += 1;
    }
    assert(pv.take(i as int) =~= pv);
    out
}

/// The role under which a message stands: its own, or the user's if it has none.
pub open spec fn spec_role(msg: ExtractMessage) -> Seq<char> {
    match msg.role {
        Some(r) => r@,
        None => "user"@,
    }
}

/// The text that a block adds to its message, if any: that of a text
/// block, if it is not blank.
pub open spec fn spec_block_text(block: ExtractBlock) -> Option<Seq<char>> {
    if block.block_type@ == "text"@ && block.text is Some && spec_trim(block.text->0@).len() > 0 {
        Some(block.text->0@)
    } else {
        None
    }
}

/// The kind of attachment that a kind of block stands for, if any.
pub open spec fn spec_attachment_kind(block_type: Seq<char>) -> Option<Seq<char>> {
    if block_type == "image_url"@ {
        Some("image"@)
    } else if block_type == "input_audio"@ {
        Some("audio"@)
    } else if block_type == "file"@ {
        Some("file"@)
    } else {
        None
    }
}

/// The attachment that a block adds, if any: what an image, audio or file
/// block refers to, if that is not empty.
pub open spec fn spec_block_attachment(block: ExtractBlock) -> Option<(Seq<char>, Seq<char>)> {
    match spec_attachment_kind(block.block_type@) {
        Some(kind) => if block.reference is Some && block.reference->0@.len() > 0 {
            Some((kind, block.reference->0@))
        } else {
            None
        },
        None => None,
    }
}

/// The error for a block that a video model cannot take, if the block is such.
pub open spec fn spec_block_refused(block: ExtractBlock, is_video: bool) -> Option<ApiErrorView> {
    if is_video && block.block_type@ == "input_audio"@ {
        Some(
            ApiErrorView::of(
                400,
                "视频模型不支持 input_audio 类型"@,
                ErrorType::InvalidRequestError,
                "invalid_value"@,
            ),
        )
    } else if is_video && block.block_type@ == "file"@ {
        Some(
            ApiErrorView::of(
                400,
                "视频模型不支持 file 类型"@,
                ErrorType::InvalidRequestError,
                "invalid_value"@,
            ),
        )
    } else {
        None
    }
}

/// The texts that the first `n` blocks add to their message, in order.
pub open spec fn spec_block_texts(blocks: Seq<ExtractBlock>, n: int) -> Seq<Seq<char>>
    decreases n,
{
    if n <= 0 {
        Seq::empty()
    } else {
        let rest = spec_block_texts(blocks, n - 1);
        match spec_block_text(blocks[n - 1]) {
            Some(t) => rest.push(t),
            None => rest,
        }
    }
}

/// The attachments that the first `n` blocks add, in order.
pub open spec fn spec_block_attachments(blocks: Seq<ExtractBlock>, n: int) -> Seq<(Seq<char>, Seq<char>)>
    decreases n,
{
    if n <= 0 {
        Seq::empty()
    } else {
        let rest = spec_block_attachments(blocks, n - 1);
        match spec_block_attachment(blocks[n - 1]) {
            Some(a) => rest.push(a),
            None => rest,
        }
    }
}

/// The error of the first of the first `n` blocks that is refused, if any.
pub open spec fn spec_blocks_refused(blocks: Seq<ExtractBlock>, is_video: bool, n: int) -> Option<
    ApiErrorView,
>
    decreases n,
{
    if n <= 0 {
        None
    } else {
        match spec_blocks_refused(blocks, is_video, n - 1) {
            Some(e) => Some(e),
            None => spec_block_refused(blocks[n - 1], is_video),
        }
    }
}

/// The texts that a message holds, in order.
pub open spec fn spec_message_texts(msg: ExtractMessage) -> Seq<Seq<char>> {
    match msg.content {
        ExtractContent::Text(t) => if spec_trim(t@).len() > 0 {
            seq![t@]
        } else {
            Seq::empty()
        },
        ExtractContent::Blocks(blocks) => spec_block_texts(blocks@, blocks.len() as int),
        _ => Seq::empty(),
    }
}

/// The attachments that a message holds, in order.
pub open spec fn spec_message_attachments(msg: ExtractMessage) -> Seq<(Seq<char>, Seq<char>)> {
    match msg.content {
        ExtractContent::Blocks(blocks) => spec_block_attachments(blocks@, blocks.len() as int),
        _ => Seq::empty(),
    }
}

/// The error of the first block of a message that is refused, if any.
pub open spec fn spec_message_refused(msg: ExtractMessage, is_video: bool) -> Option<ApiErrorView> {
    match msg.content {
        ExtractContent::Blocks(blocks) => spec_blocks_refused(blocks@, is_video, blocks.len() as int),
        _ => None,
    }
}

/// The roles and texts of those of the first `n` messages that hold text,
/// in order; the texts of one message are joined by line feeds.
pub open spec fn spec_extracted(messages: Seq<ExtractMessage>, n: int) -> Seq<(Seq<char>, Seq<char>)>
    decreases n,
{
    if n <= 0 {
        Seq::empty()
    } else {
        let rest = spec_extracted(messages, n - 1);
        let texts = spec_message_texts(messages[n - 1]);
        if texts.len() > 0 {
            rest.push((spec_role(messages[n - 1]), spec_join(texts, "\n"@)))
        } else {
            rest
        }
    }
}

/// The attachments of the first `n` messages, in order.
pub open spec fn spec_attachments(messages: Seq<ExtractMessage>, n: int) -> Seq<(Seq<char>, Seq<char>)>
    decreases n,
{
    if n <= 0 {
        Seq::empty()
    } else {
        spec_attachments(messages, n - 1) + spec_message_attachments(messages[n - 1])
    }
}

/// The error of the first of the first `n` messages that holds a block
/// that is refused, if any.
pub open spec fn spec_refused(messages: Seq<ExtractMessage>, is_video: bool, n: int) -> Option<
    ApiErrorView,
>
    decreases n,
{
    if n <= 0 {
        None
    } else {
        match spec_refused(messages, is_video, n - 1) {
            Some(e) => Some(e),
            None => spec_message_refused(messages[n - 1], is_video),
        }
    }
}

/// Whether `i` is the position of the last entry under the user's role.
pub open spec fn spec_last_user(entries: Seq<(Seq<char>, Seq<char>)>, i: int) -> bool {
    &&& 0 <= i < entries.len()
    &&& entries[i].0 == "user"@
    &&& forall|j: int| i < j < entries.len() ==> entries[j].0 != "user"@
}

/// An entry as it stands in the prompt: the last one of the user by its
/// text alone, any other with its role before it; an empty role counts as
/// the user's.
pub open spec fn spec_prompt_part(entries: Seq<(Seq<char>, Seq<char>)>, i: int) -> Seq<char> {
    if spec_last_user(entries, i) {
        entries[i].1
    } else {
        (if entries[i].0.len() == 0 {
            "user"@
        } else {
            entries[i].0
        }) + ": "@ + entries[i].1
    }
}

/// The parts of the prompt, one for each entry.
pub open spec fn spec_prompt_parts(entries: Seq<(Seq<char>, Seq<char>)>) -> Seq<Seq<char>> {
    Seq::new(entries.len(), |i: int| spec_prompt_part(entries, i))
}

/// The prompt of a request: its parts with an empty line between each two.
pub open spec fn spec_prompt(messages: Seq<ExtractMessage>) -> Seq<char> {
    spec_join(spec_prompt_parts(spec_extracted(messages, messages.len() as int)), "\n\n"@)
}

/// Once a block is refused, looking at more blocks changes nothing.
pub proof fn lemma_blocks_refused_stable(blocks: Seq<ExtractBlock>, is_video: bool, k: int, n: int)
    requires
        0 <= k <= n,
        spec_blocks_refused(blocks, is_video, k) is Some,
    ensures
        spec_blocks_refused(blocks, is_video, n) == spec_blocks_refused(blocks, is_video, k),
    decreases n - k,
{
    if k < n {
        lemma_blocks_refused_stable(blocks, is_video, k, n - 1);
    }
}

/// Once a message is refused, looking at more messages changes nothing.
pub proof fn lemma_refused_stable(messages: Seq<ExtractMessage>, is_video: bool, k: int, n: int)
    requires
        0 <= k <= n,
        spec_refused(messages, is_video, k) is Some,
    ensures
        spec_refused(messages, is_video, n) == spec_refused(messages, is_video, k),
    decreases n - k,
{
    if k < n {
        lemma_refused_stable(messages, is_video, k, n - 1);
    }
}

/// The service that reads the messages of a request.
#[derive(Debug, Clone, Copy)]
pub struct MessageExtractor;

/// What the blocks of a message hold: their texts and their attachments,
/// or the error of the first block that is refused.
fn read_blocks(blocks: &Vec<ExtractBlock>, is_video: bool, attachments: &mut Vec<Attachment>) -> (r: Result<
    Vec<String>,
    ApiError,
>)
    ensures
        match r {
            Ok(texts) => spec_blocks_refused(blocks@, is_video, blocks.len() as int) is None
                && strings_view(texts@) == spec_block_texts(blocks@, blocks.len() as int)
                && attachments_view(final(attachments)@) == attachments_view(old(attachments)@)
                + spec_block_attachments(blocks@, blocks.len() as int),
            Err(e) => Some(e@) == spec_blocks_refused(blocks@, is_video, blocks.len() as int),
        },
{
    let ghost before = attachments_view(attachments@);
    let mut texts: Vec<String> = Vec::new();
    let mut i: usize = 0;
    proof {
        assert(strings_view(texts@) =~= Seq::empty());
        assert(before + Seq::empty() =~= before);
    }
    while i < blocks.len()
        invariant
            i <= blocks.len(),
            before == attachments_view(old(attachments)@),
            spec_blocks_refused(blocks@, is_video, i as int) is None,
            strings_view(texts@) == spec_block_texts(blocks@, i as int),
            attachments_view(attachments@) == before + spec_block_attachments(blocks@, i as int),
        decreases blocks.len() - i,
    {
        let block = &blocks[i];
        let kind = block.block_type.as_str();
        if is_video && str_eq(kind, "input_audio") {
            proof {
                lemma_blocks_refused_stable(blocks@, is_video, i + 1, blocks.len() as int);
            }
            return Err(ApiError::invalid_request("视频模型不支持 input_audio 类型"));
        }
        if is_video && str_eq(kind, "file") {
            proof {
                lemma_blocks_refused_stable(blocks@, is_video, i + 1, blocks.len() as int);
            }
            return Err(ApiError::invalid_request("视频模型不支持 file 类型"));
        }
        if str_eq(kind, "text") {
            match &block.text {
                Some(t) => {
                    if !trim(t.as_str()).as_str().is_empty() {
                        let ghost prev = strings_view(texts@);
                        texts.push(t.clone());
                        assert(strings_view(texts@) =~= prev.push(t@));
                    }
                },
                None => {},
            }
        }
        let attachment_kind = if str_eq(kind, "image_url") {
            Some("image")
        } else if str_eq(kind, "input_audio") {
            Some("audio")
        } else if str_eq(kind, "file") {
            Some("file")
        } else {
            None
        };
        match (attachment_kind, &block.reference) {
            (Some(k), Some(r)) => {
                if !r.as_str().is_empty() {
                    let ghost prev = attachments_view(attachments@);
                    attachments.push(Attachment { kind: k.to_owned(), data: r.clone() });
                    proof {
                        assert(attachments_view(attachments@) =~= prev.push((k@, r@)));
                        let sofar = spec_block_attachments(blocks@, i as int);
                        assert((before + sofar).push((k@, r@)) =~= before + sofar.push((k@, r@)));
                    }
                }
            },
            _ => {},
        }
        i += 1;
    }
    Ok(texts)
}

impl MessageExtractor {
    /// The prompt and the attachments of a request. The texts of each
    /// message are joined by line feeds; every message but the last one
    /// of the user is led by its role; the messages are joined by empty
    /// lines. A video model takes neither audio nor files.
    pub fn extract(messages: &Vec<ExtractMessage>, is_video: bool) -> (r: Result<Extracted, ApiError>)
        ensures
            spec_error_of(
                match r {
                    Ok(_) => Ok(()),
                    Err(e) => Err(e),
                },
            ) == spec_refused(messages@, is_video, messages.len() as int),
            r matches Ok(x) ==> x.prompt@ == spec_prompt(messages@) && attachments_view(
                x.attachments@,
            ) == spec_attachments(messages@, messages.len() as int),
    {
        let mut attachments: Vec<Attachment> = Vec::new();
        let mut roles: Vec<String> = Vec::new();
        let mut texts: Vec<String> = Vec::new();
        let ghost mut entries: Seq<(Seq<char>, Seq<char>)> = Seq::empty();
        let mut i: usize = 0;
        proof {
            assert(attachments_view(attachments@) =~= Seq::empty());
        }
        while i < messages.len()
            invariant
                i <= messages.len(),
                spec_refused(messages@, is_video, i as int) is None,
                entries == spec_extracted(messages@, i as int),
                roles.len() == entries.len(),
                texts.len() == entries.len(),
                forall|k: int|
                    0 <= k < entries.len() ==> roles[k]@ == (#[trigger] entries[k]).0 && texts[k]@
                        == entries[k].1,
                attachments_view(attachments@) == spec_attachments(messages@, i as int),
            decreases messages.len() - i,
        {
            let msg = &messages[i];
            let ghost before = attachments_view(attachments@);
            let parts = match &msg.content {
                ExtractContent::Text(t) => {
                    let mut one: Vec<String> = Vec::new();
                    if !trim(t.as_str()).as_str().is_empty() {
                        one.push(t.clone());
                        assert(strings_view(one@) =~= seq![t@]);
                    } else {
                        assert(strings_view(one@) =~= Seq::empty());
                    }
                    assert(before + Seq::empty() =~= before);
                    one
                },
                ExtractContent::Blocks(blocks) => {
                    match read_blocks(blocks, is_video, &mut attachments) {
                        Ok(found) => found,
                        Err(e) => {
                            proof {
                                lemma_refused_stable(
                                    messages@,
                                    is_video,
                                    i + 1,
                                    messages.len() as int,
                                );
                            }
                            return Err(e);
                        },
                    }
                },
                _ => {
                    let none: Vec<String> = Vec::new();
                    assert(strings_view(none@) =~= Seq::empty());
                    assert(before + Seq::empty() =~= before);
                    none
                },
            };
            assert(strings_view(parts@) == spec_message_texts(*msg));
            if parts.len() > 0 {
                let role = match &msg.role {
                    Some(r) => r.clone(),
                    None => "user".to_owned(),
                };
                let text = join(&parts, "\n");
                proof {
                    entries = entries.push((role@, text@));
                }
                roles.push(role);
                texts.push(text);
            }
            i += 1;
        }
        let n = roles.len();
        let mut last_user: Option<usize> = None;
        let mut k: usize = n;
        while k > 0
            invariant_except_break
                last_user is None,
                forall|j: int| k <= j < n ==> entries[j].0 != "user"@,
            invariant
                k <= n,
                n == roles.len(),
                n == entries.len(),
                forall|j: int| 0 <= j < n ==> roles[j]@ == (#[trigger] entries[j]).0,
            ensures
                last_user matches Some(u) ==> spec_last_user(entries, u as int),
                last_user is None ==> forall|j: int| 0 <= j < n ==> entries[j].0 != "user"@,
            decreases k,
        {
            k -= 1;
            if str_eq(roles[k].as_str(), "user") {
                last_user = Some(k);
                break ;
            }
        }
        let mut parts: Vec<String> = Vec::new();
        let mut j: usize = 0;
        while j < n
            invariant
                j <= n,
                n == roles.len(),
                n == texts.len(),
                n == entries.len(),
                parts.len() == j,
                last_user matches Some(u) ==> spec_last_user(entries, u as int),
                last_user is None ==> forall|q: int| 0 <= q < n ==> entries[q].0 != "user"@,
                forall|q: int|
                    0 <= q < n ==> roles[q]@ == (#[trigger] entries[q]).0 && texts[q]@
                        == entries[q].1,
                forall|q: int| 0 <= q < j ==> parts[q]@ == spec_prompt_part(entries, q),
            decreases n - j,
        {
            let is_last = match last_user {
                Some(u) => u == j,
                None => false,
            };
            proof {
                if !is_last && spec_last_user(entries, j as int) {
                    if last_user is Some {
                        let u = last_user->0 as int;
                        if u < j {
                            assert(entries[j as int].0 != "user"@);
                        } else {
                            assert(entries[u].0 != "user"@);
                        }
                    }
                }
            }
            if is_last {
                parts.push(texts[j].clone());
            } else {
                let mut line = if roles[j].as_str().is_empty() {
                    "user".to_owned()
                } else {
                    roles[j].clone()
                };
                line.append(": ");
                line.append(texts[j].as_str());
                parts.push(line);
            }
            j += 1;
        }
        assert(strings_view(parts@) =~= spec_prompt_parts(entries));
        let prompt = join(&parts, "\n\n");
        Ok(Extracted { prompt, attachments })
    }
}

/// The service that answers chat requests.
#[derive(Debug, Clone, Copy)]
pub struct ChatService;

/// What a request says of the model's thoughts: shown, hidden, or left
/// to the settings.
pub open spec fn spec_think_of(thinking: Option<Seq<char>>) -> Option<bool> {
    if thinking == Some("enabled"@) {
        Some(true)
    } else if thinking == Some("disabled"@) {
        Some(false)
    } else {
        None
    }
}

impl ChatService {
    /// What a request says of the model's thoughts.
    pub fn think_of(thinking: Option<&str>) -> (r: Option<bool>)
        ensures
            r == spec_think_of(
                match thinking {
                    Some(word) => Some(word@),
                    None => None,
                },
            ),
    {
        match thinking {
            Some(word) => {
                if str_eq(word, "enabled") {
                    Some(true)
                } else if str_eq(word, "disabled") {
                    Some(false)
                } else {
                    None
                }
            },
            None => None,
        }
    }
}

} // verus!
