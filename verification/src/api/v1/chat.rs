//! What a chat request may say about a video.

use vstd::prelude::*;
use crate::common::exceptions::{ApiError, ApiErrorView, ErrorBodyView, ErrorType};
use crate::services::grok::model::{spec_valid_model, ModelService};
use crate::text::{decimal_u64, spec_decimal_nat, spec_trim, str_eq, trim};

verus! {

/// The wishes for a video.
#[derive(Debug)]
pub struct VideoConfig {
    pub aspect_ratio: Option<String>,
    pub video_length: Option<i32>,
    pub resolution: Option<String>,
    pub preset: Option<String>,
}

/// The roles that a message may have.
pub open spec fn spec_valid_role(role: Seq<char>) -> bool {
    role == "developer"@ || role == "system"@ || role == "user"@ || role == "assistant"@
}

/// Whether a message may have the role.
pub fn valid_role(role: &str) -> (r: bool)
    ensures
        r == spec_valid_role(role@),
{
    crate::text::str_eq(role, "developer") || crate::text::str_eq(role, "system")
        || crate::text::str_eq(role, "user") || crate::text::str_eq(role, "assistant")
}

/// The kinds of content that a message of a user may hold.
pub open spec fn spec_user_content_type(kind: Seq<char>) -> bool {
    kind == "text"@ || kind == "image_url"@ || kind == "input_audio"@ || kind == "file"@
}

/// Whether a message of a user may hold content of the kind.
pub fn user_content_type(kind: &str) -> (r: bool)
    ensures
        r == spec_user_content_type(kind@),
{
    crate::text::str_eq(kind, "text") || crate::text::str_eq(kind, "image_url")
        || crate::text::str_eq(kind, "input_audio") || crate::text::str_eq(kind, "file")
}

/// One block of the content of a message, as far as it is checked.
#[derive(Debug)]
pub struct ContentBlock {
    /// Whether the block is nothing at all.
    pub is_null: bool,
    /// The kind of the block; empty if it names none.
    pub block_type: String,
    /// The text of a text block; empty if it has none.
    pub text: String,
    /// Whether an image block names a URL.
    pub has_image_url: bool,
    /// Whether an audio block carries data.
    pub has_audio_data: bool,
    /// Whether a file block names a URL or carries data.
    pub has_file_ref: bool,
}

/// The content of a message.
#[derive(Debug)]
pub enum MessageContent {
    /// The message has no content.
    Missing,
    /// The content is a text.
    Text(String),
    /// The content is a list of blocks.
    Blocks(Vec<ContentBlock>),
    /// The content is of another form, which is not checked.
    Other,
}

/// One message of a chat request, as far as it is checked.
#[derive(Debug)]
pub struct ChatMessage {
    pub role: String,
    pub content: MessageContent,
}

/// The place of a message in a request, as errors name it.
pub open spec fn spec_message_path(idx: int) -> Seq<char> {
    "messages."@ + spec_decimal_nat(idx)
}

/// The place of a block in a request, as errors name it.
pub open spec fn spec_block_path(idx: int, bidx: int) -> Seq<char> {
    spec_message_path(idx) + ".content."@ + spec_decimal_nat(bidx)
}

/// The error that tells what is wrong with a request, and where.
pub open spec fn spec_invalid(message: Seq<char>, param: Seq<char>) -> ApiErrorView {
    ApiErrorView {
        status: 400,
        body: ErrorBodyView {
            message,
            error_type: ErrorType::InvalidRequestError,
            param: Some(param),
            code: Some("invalid_value"@),
        },
    }
}

/// What is wrong with a block of a message of the given role, if anything.
pub open spec fn spec_block_error(role: Seq<char>, idx: int, bidx: int, block: ContentBlock) -> Option<
    ApiErrorView,
> {
    let path = spec_block_path(idx, bidx);
    let kind = block.block_type@;
    if block.is_null {
        Some(spec_invalid("Content block cannot be empty"@, path))
    } else if kind.len() == 0 {
        Some(spec_invalid("Content block 'type' cannot be empty"@, path + ".type"@))
    } else if role == "user"@ && !spec_user_content_type(kind) {
        Some(spec_invalid("Invalid content block type: '"@ + kind + "'"@, path + ".type"@))
    } else if role != "user"@ && kind != "text"@ {
        Some(
            spec_invalid(
                "The `"@ + role + "` role only supports 'text' type, got '"@ + kind + "'"@,
                path + ".type"@,
            ),
        )
    } else if kind == "text"@ {
        if spec_trim(block.text@).len() == 0 {
            Some(spec_invalid("Text content cannot be empty"@, path + ".text"@))
        } else {
            None
        }
    } else if kind == "image_url"@ {
        if !block.has_image_url {
            Some(spec_invalid("image_url must have a 'url' field"@, path + ".image_url"@))
        } else {
            None
        }
    } else if kind == "input_audio"@ {
        if !block.has_audio_data {
            Some(spec_invalid("input_audio must have a 'data' field"@, path + ".input_audio"@))
        } else {
            None
        }
    } else if kind == "file"@ {
        if !block.has_file_ref {
            Some(spec_invalid("file must have a 'url' or 'data' field"@, path + ".file"@))
        } else {
            None
        }
    } else {
        None
    }
}

/// What is wrong with the first `n` blocks of a message: the error of the
/// first block that has one.
pub open spec fn spec_blocks_error(role: Seq<char>, idx: int, blocks: Seq<ContentBlock>, n: int) -> Option<
    ApiErrorView,
>
    decreases n,
{
    if n <= 0 {
        None
    } else {
        match spec_blocks_error(role, idx, blocks, n - 1) {
            Some(e) => Some(e),
            None => spec_block_error(role, idx, n - 1, blocks[n - 1]),
        }
    }
}

/// What is wrong with a message, if anything.
pub open spec fn spec_message_error(idx: int, msg: ChatMessage) -> Option<ApiErrorView> {
    let path = spec_message_path(idx);
    if !spec_valid_role(msg.role@) {
        Some(
            spec_invalid(
                "role must be one of [\"developer\", \"system\", \"user\", \"assistant\"]"@,
                path + ".role"@,
            ),
        )
    } else {
        match msg.content {
            MessageContent::Missing => Some(
                spec_invalid("Message content cannot be empty"@, path + ".content"@),
            ),
            MessageContent::Text(text) => if spec_trim(text@).len() == 0 {
                Some(spec_invalid("Message content cannot be empty"@, path + ".content"@))
            } else {
                None
            },
            MessageContent::Blocks(blocks) => if blocks.len() == 0 {
                Some(
                    spec_invalid(
                        "Message content cannot be an empty array"@,
                        path + ".content"@,
                    ),
                )
            } else {
                spec_blocks_error(msg.role@, idx, blocks@, blocks.len() as int)
            },
            MessageContent::Other => None,
        }
    }
}

/// What is wrong with the first `n` messages: the error of the first
/// message that has one.
pub open spec fn spec_messages_error(messages: Seq<ChatMessage>, n: int) -> Option<ApiErrorView>
    decreases n,
{
    if n <= 0 {
        None
    } else {
        match spec_messages_error(messages, n - 1) {
            Some(e) => Some(e),
            None => spec_message_error(n - 1, messages[n - 1]),
        }
    }
}

/// The error for a model that is not on offer.
pub open spec fn spec_unknown_model(model: Seq<char>) -> ApiErrorView {
    ApiErrorView {
        status: 404,
        body: ErrorBodyView {
            message: "The model `"@ + model + "` does not exist or you do not have access to it."@,
            error_type: ErrorType::NotFoundError,
            param: Some("model"@),
            code: Some("model_not_found"@),
        },
    }
}

/// What is wrong with a request, if anything: its model, or else the
/// first of its messages that is at fault.
pub open spec fn spec_request_error(model: Seq<char>, messages: Seq<ChatMessage>) -> Option<ApiErrorView> {
    if !spec_valid_model(model) {
        Some(spec_unknown_model(model))
    } else {
        spec_messages_error(messages, messages.len() as int)
    }
}

/// Once a block is found at fault, looking at more blocks changes nothing.
pub proof fn lemma_blocks_error_stable(
    role: Seq<char>,
    idx: int,
    blocks: Seq<ContentBlock>,
    k: int,
    n: int,
)
    requires
        0 <= k <= n,
        spec_blocks_error(role, idx, blocks, k) is Some,
    ensures
        spec_blocks_error(role, idx, blocks, n) == spec_blocks_error(role, idx, blocks, k),
    decreases n - k,
{
    if k < n {
        lemma_blocks_error_stable(role, idx, blocks, k, n - 1);
    }
}

/// Once a message is found at fault, looking at more messages changes nothing.
pub proof fn lemma_messages_error_stable(messages: Seq<ChatMessage>, k: int, n: int)
    requires
        0 <= k <= n,
        spec_messages_error(messages, k) is Some,
    ensures
        spec_messages_error(messages, n) == spec_messages_error(messages, k),
    decreases n - k,
{
    if k < n {
        lemma_messages_error_stable(messages, k, n - 1);
    }
}

/// The error that tells what is wrong with a request, and where.
fn invalid(message: &str, path: &str, field: &str) -> (r: ApiError)
    ensures
        r@ == spec_invalid(message@, path@ + field@),
{
    let mut param = path.to_owned();
    param.append(field);
    ApiError::invalid_request(message).with_param(param.as_str())
}

/// What is wrong with a block of a message of the given role, if anything.
fn block_error(role: &str, idx: usize, bidx: usize, block: &ContentBlock) -> (r: Option<ApiError>)
    ensures
        crate::common::auth::spec_error_of(
            match r {
                Some(e) => Err(e),
                None => Ok(()),
            },
        ) == spec_block_error(role@, idx as int, bidx as int, *block),
{
    let mut path = "messages.".to_owned();
    path.append(decimal_u64(idx as u64).as_str());
    path.append(".content.");
    path.append(decimal_u64(bidx as u64).as_str());
    let kind = block.block_type.as_str();
    let is_user = str_eq(role, "user");
    if block.is_null {
        proof {
            reveal_strlit("");
            assert(path@ + ""@ =~= path@);
        }
        return Some(invalid("Content block cannot be empty", path.as_str(), ""));
    }
    if kind.is_empty() {
        return Some(invalid("Content block 'type' cannot be empty", path.as_str(), ".type"));
    }
    if is_user && !user_content_type(kind) {
        let mut message = "Invalid content block type: '".to_owned();
        message.append(kind);
        message.append("'");
        return Some(invalid(message.as_str(), path.as_str(), ".type"));
    }
    if !is_user && !str_eq(kind, "text") {
        let mut message = "The `".to_owned();
        message.append(role);
        message.append("` role only supports 'text' type, got '");
        message.append(kind);
        message.append("'");
        return Some(invalid(message.as_str(), path.as_str(), ".type"));
    }
    if str_eq(kind, "text") {
        if trim(block.text.as_str()).as_str().is_empty() {
            return Some(invalid("Text content cannot be empty", path.as_str(), ".text"));
        }
    } else if str_eq(kind, "image_url") {
        if !block.has_image_url {
            return Some(invalid("image_url must have a 'url' field", path.as_str(), ".image_url"));
        }
    } else if str_eq(kind, "input_audio") {
        if !block.has_audio_data {
            return Some(
                invalid("input_audio must have a 'data' field", path.as_str(), ".input_audio"),
            );
        }
    } else if str_eq(kind, "file") {
        if !block.has_file_ref {
            return Some(invalid("file must have a 'url' or 'data' field", path.as_str(), ".file"));
        }
    }
    None
}

/// What is wrong with a message, if anything.
fn message_error(idx: usize, msg: &ChatMessage) -> (r: Option<ApiError>)
    ensures
        crate::common::auth::spec_error_of(
            match r {
                Some(e) => Err(e),
                None => Ok(()),
            },
        ) == spec_message_error(idx as int, *msg),
{
    let mut path = "messages.".to_owned();
    path.append(decimal_u64(idx as u64).as_str());
    if !valid_role(msg.role.as_str()) {
        return Some(
            invalid(
                "role must be one of [\"developer\", \"system\", \"user\", \"assistant\"]",
                path.as_str(),
                ".role",
            ),
        );
    }
    match &msg.content {
        MessageContent::Missing => Some(
            invalid("Message content cannot be empty", path.as_str(), ".content"),
        ),
        MessageContent::Text(text) => {
            if trim(text.as_str()).as_str().is_empty() {
                Some(invalid("Message content cannot be empty", path.as_str(), ".content"))
            } else {
                None
            }
        },
        MessageContent::Blocks(blocks) => {
            if blocks.len() == 0 {
                return Some(
                    invalid("Message content cannot be an empty array", path.as_str(), ".content"),
                );
            }
            let mut b: usize = 0;
            while b < blocks.len()
                invariant
                    b <= blocks.len(),
                    blocks.len() > 0,
                    spec_valid_role(msg.role@),
                    msg.content == MessageContent::Blocks(*blocks),
                    spec_blocks_error(msg.role@, idx as int, blocks@, b as int) is None,
                decreases blocks.len() - b,
            {
                match block_error(msg.role.as_str(), idx, b, &blocks[b]) {
                    Some(e) => {
                        proof {
                            lemma_blocks_error_stable(
                                msg.role@,
                                idx as int,
                                blocks@,
                                b + 1,
                                blocks.len() as int,
                            );
                        }
                        return Some(e);
                    },
                    None => {},
                }
                b += 1;
            }
            None
        },
        MessageContent::Other => None,
    }
}

/// Checks a chat request: the model must be on offer, and every message
/// must have a role that is known and content that is not empty and fits
/// the role. The error names the first thing that is wrong.
pub fn validate_request(model: &str, messages: &Vec<ChatMessage>) -> (r: Result<(), ApiError>)
    ensures
        crate::common::auth::spec_error_of(r) == spec_request_error(model@, messages@),
{
    if !ModelService::valid(model) {
        let mut message = "The model `".to_owned();
        message.append(model);
        message.append("` does not exist or you do not have access to it.");
        return Err(
            ApiError::not_found(message.as_str()).with_param("model").with_code("model_not_found"),
        );
    }
    let mut i: usize = 0;
    while i < messages.len()
        invariant
            i <= messages.len(),
            spec_valid_model(model@),
            spec_messages_error(messages@, i as int) is None,
        decreases messages.len() - i,
    {
        match message_error(i, &messages[i]) {
            Some(e) => {
                proof {
                    lemma_messages_error_stable(messages@, i + 1, messages.len() as int);
                }
                return Err(e);
            },
            None => {},
        }
        i += 1;
    }
    Ok(())
}

} // verus!
