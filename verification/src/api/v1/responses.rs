//! Requests for a response: the forms that their input may take, and the
//! events of a completion read back from its stream.

use vstd::prelude::*;
use crate::common::exceptions::{ApiError, ApiErrorView, ErrorType};
use crate::text::{
    spec_starts_with, spec_trim, spec_trim_start_matches, starts_with, str_chars, str_eq,
    string_from_range, strings_view, trim, trim_chars, trim_start_matches,
};

verus! {

/// The wishes for a video.
#[derive(Debug)]
pub struct VideoConfig {
    pub aspect_ratio: Option<String>,
    pub video_length: Option<i32>,
    pub resolution: Option<String>,
    pub preset: Option<String>,
}

/// The form in which the input of a request came.
#[derive(Debug)]
pub enum InputForm {
    /// No input.
    Missing,
    /// One text.
    Text(String),
    /// A list: its length, whether each entry is a text, and whether each
    /// entry names a role.
    List { len: usize, all_text: bool, all_roles: bool },
    /// One message, which names its role.
    Message,
    /// Anything else.
    Other,
}

/// From what the messages of the conversation are made.
#[derive(Debug, PartialEq, Eq)]
pub enum InputPlan {
    /// The messages that the request lists.
    Messages,
    /// One message of the user, with the text of the input.
    OneText,
    /// One message of the user for each text of the input.
    EachText,
    /// The entries of the input, each a message.
    EachMessage,
    /// The input, as one message.
    OneMessage,
}

/// The error that rejects an input.
pub open spec fn spec_input_error(message: Seq<char>) -> ApiErrorView {
    ApiErrorView::of(400, message, ErrorType::InvalidRequestError, "invalid_value"@)
}

/// What is made of a request's messages and input: listed messages go
/// before the input; a blank text and an empty list are rejected as
/// empty; a list must hold texts only or messages only; anything else
/// counts as no input.
pub open spec fn spec_plan_input(message_count: usize, input: InputForm) -> Result<
    InputPlan,
    ApiErrorView,
> {
    if message_count > 0 {
        Ok(InputPlan::Messages)
    } else {
        match input {
            InputForm::Text(text) => if spec_trim(text@).len() == 0 {
                Err(spec_input_error("input cannot be empty"@))
            } else {
                Ok(InputPlan::OneText)
            },
            InputForm::List { len, all_text, all_roles } => if len == 0 {
                Err(spec_input_error("input cannot be empty"@))
            } else if all_text {
                Ok(InputPlan::EachText)
            } else if all_roles {
                Ok(InputPlan::EachMessage)
            } else {
                Err(spec_input_error("input is required"@))
            },
            InputForm::Message => Ok(InputPlan::OneMessage),
            _ => Err(spec_input_error("input is required"@)),
        }
    }
}

/// A plan or an error, the error by its model.
pub open spec fn plan_view(r: Result<InputPlan, ApiError>) -> Result<InputPlan, ApiErrorView> {
    match r {
        Ok(p) => Ok(p),
        Err(e) => Err(e@),
    }
}

/// Decides from what the messages of the conversation are made.
pub fn plan_input(message_count: usize, input: &InputForm) -> (r: Result<InputPlan, ApiError>)
    ensures
        plan_view(r) == spec_plan_input(message_count, *input),
{
    if message_count > 0 {
        return Ok(InputPlan::Messages);
    }
    match input {
        InputForm::Text(text) => {
            if trim_chars(text.as_str()).len() == 0 {
                Err(ApiError::invalid_request("input cannot be empty"))
            } else {
                Ok(InputPlan::OneText)
            }
        },
        InputForm::List { len, all_text, all_roles } => {
            if *len == 0 {
                Err(ApiError::invalid_request("input cannot be empty"))
            } else if *all_text {
                Ok(InputPlan::EachText)
            } else if *all_roles {
                Ok(InputPlan::EachMessage)
            } else {
                Err(ApiError::invalid_request("input is required"))
            }
        },
        InputForm::Message => Ok(InputPlan::OneMessage),
        _ => Err(ApiError::invalid_request("input is required")),
    }
}

/// A block of content as a request for a response writes it.
#[derive(Debug)]
pub enum InputBlock {
    /// A text block; its text, empty where it has none.
    Text(String),
    /// An image block; its address, empty where it has none.
    Image(String),
    /// Any other block.
    Other,
}

/// A block of content as a chat completion reads it.
#[derive(Debug)]
pub enum ChatBlock {
    Text(String),
    ImageUrl(String),
    /// The block as it came.
    Same,
}

/// Mathematical model of a [`ChatBlock`].
pub enum ChatBlockView {
    Text(Seq<char>),
    ImageUrl(Seq<char>),
    Same,
}

impl View for ChatBlock {
    type V = ChatBlockView;

    open spec fn view(&self) -> ChatBlockView {
        match *self {
            ChatBlock::Text(s) => ChatBlockView::Text(s@),
            ChatBlock::ImageUrl(s) => ChatBlockView::ImageUrl(s@),
            ChatBlock::Same => ChatBlockView::Same,
        }
    }
}

/// The block as a chat completion reads it: a text block with its text,
/// an image block with its address if it has one; any other as it came.
pub open spec fn spec_normalize_block(block: InputBlock) -> ChatBlockView {
    match block {
        InputBlock::Text(text) => ChatBlockView::Text(text@),
        InputBlock::Image(url) => if url@.len() > 0 {
            ChatBlockView::ImageUrl(url@)
        } else {
            ChatBlockView::Same
        },
        InputBlock::Other => ChatBlockView::Same,
    }
}

/// Turns a block of a request for a response into one of a chat completion.
pub fn normalize_block(block: &InputBlock) -> (r: ChatBlock)
    ensures
        r@ == spec_normalize_block(*block),
{
    match block {
        InputBlock::Text(text) => ChatBlock::Text(text.clone()),
        InputBlock::Image(url) => {
            if url.as_str().is_empty() {
                ChatBlock::Same
            } else {
                ChatBlock::ImageUrl(url.clone())
            }
        },
        InputBlock::Other => ChatBlock::Same,
    }
}

/// The total of the tokens used: the one reported, or else the sum of
/// those read and written, kept within the range of the type.
pub open spec fn spec_total_tokens(input: i64, output: i64, reported: Option<i64>) -> int {
    match reported {
        Some(total) => total as int,
        None => if input + output > i64::MAX {
            i64::MAX as int
        } else if input + output < i64::MIN {
            i64::MIN as int
        } else {
            input + output
        },
    }
}

/// The total of the tokens used.
pub fn total_tokens(input: i64, output: i64, reported: Option<i64>) -> (r: i64)
    ensures
        r == spec_total_tokens(input, output, reported),
{
    match reported {
        Some(total) => total,
        None => {
            let sum: i128 = input as i128 + output as i128;
            if sum > i64::MAX as i128 {
                i64::MAX
            } else if sum < i64::MIN as i128 {
                i64::MIN
            } else {
                sum as i64
            }
        },
    }
}

/// The payload of a line of an event stream: what stands behind `data: `
/// on a line that begins with it, without white space around it. A line
/// of another kind has none, nor has the mark that ends the stream.
pub open spec fn spec_data_payload(line: Seq<char>) -> Option<Seq<char>> {
    let text = spec_trim(line);
    let payload = spec_trim(spec_trim_start_matches(text, "data: "@));
    if !spec_starts_with(text, "data: "@) || payload == "[DONE]"@ {
        None
    } else {
        Some(payload)
    }
}

/// The payload of a line of an event stream.
pub fn data_payload(line: &str) -> (r: Option<String>)
    ensures
        crate::text::opt_chars(r) == spec_data_payload(line@),
{
    let text = trim(line);
    let chars = str_chars(text.as_str());
    let head = str_chars("data: ");
    if !starts_with(&chars, &head) {
        return None;
    }
    let rest = trim_start_matches(text.as_str(), "data: ");
    let payload = trim(rest.as_str());
    if str_eq(payload.as_str(), "[DONE]") {
        return None;
    }
    Some(payload)
}

/// Length of the first line of `s`: the number of characters before its
/// first line feed.
pub open spec fn spec_until_feed(s: Seq<char>) -> int
    decreases s.len(),
{
    if s.len() == 0 || s[0] == '\n' {
        0
    } else {
        1 + spec_until_feed(s.skip(1))
    }
}

/// The first line ends within the text.
pub proof fn lemma_until_feed_bound(s: Seq<char>)
    ensures
        0 <= spec_until_feed(s) <= s.len(),
    decreases s.len(),
{
    if !(s.len() == 0 || s[0] == '\n') {
        lemma_until_feed_bound(s.skip(1));
    }
}

/// The payloads of the lines of a text, in their order. The lines are
/// what stands between the line feeds.
pub open spec fn spec_data_payloads(s: Seq<char>) -> Seq<Seq<char>>
    decreases s.len(),
{
    let n = spec_until_feed(s);
    let first = match spec_data_payload(s.take(n)) {
        Some(p) => seq![p],
        None => Seq::empty(),
    };
    if 0 <= n < s.len() {
        first + spec_data_payloads(s.skip(n + 1))
    } else {
        first
    }
}

/// Position of the first line feed of `s` at or behind `from`; the length
/// of `s` if there is none.
fn line_end(s: &Vec<char>, from: usize) -> (r: usize)
    requires
        from <= s.len(),
    ensures
        from <= r <= s.len(),
        r - from == spec_until_feed(s@.skip(from as int)),
{
    let mut i: usize = from;
    while i < s.len() && s[i] != '\n'
        invariant
            from <= i <= s.len(),
            spec_until_feed(s@.skip(from as int)) == (i - from) + spec_until_feed(
                s@.skip(i as int),
            ),
        decreases s.len() - i,
    {
        proof {
            let rest = s@.skip(i as int);
            assert(rest[0] == s[i as int]);
            assert(rest.skip(1) =~= s@.skip(i + 1));
        }
        i += 1;
    }
    proof {
        let rest = s@.skip(i as int);
        if i < s.len() {
            assert(rest[0] == s[i as int]);
        }
    }
    i
}

/// The payloads of the lines of a piece of an event stream.
pub fn data_payloads(text: &str) -> (r: Vec<String>)
    ensures
        strings_view(r@) == spec_data_payloads(text@),
{
    let chars = str_chars(text);
    let mut out: Vec<String> = Vec::new();
    let mut from: usize = 0;
    assert(chars@.skip(0) =~= chars@);
    assert(strings_view(out@) =~= Seq::empty());
    loop
        invariant_except_break
            strings_view(out@) + spec_data_payloads(chars@.skip(from as int))
                == spec_data_payloads(text@),
        invariant
            from <= chars.len(),
            chars@ == text@,
        ensures
            strings_view(out@) == spec_data_payloads(text@),
        decreases chars.len() - from,
    {
        let ghost rest = chars@.skip(from as int);
        let ghost so_far = strings_view(out@);
        let end = line_end(&chars, from);
        let line = string_from_range(&chars, from, end);
        assert(line@ =~= rest.take(end - from));
        match data_payload(line.as_str()) {
            Some(p) => {
                out.push(p);
                assert(strings_view(out@) =~= so_far + seq![p@]);
            },
            None => {
                assert(strings_view(out@) =~= so_far + Seq::<Seq<char>>::empty());
            },
        }
        if end >= chars.len() {
            assert(strings_view(out@) =~= so_far + spec_data_payloads(rest));
            break ;
        }
        proof {
            assert(rest.skip(end - from + 1) =~= chars@.skip(end + 1));
            assert(strings_view(out@) + spec_data_payloads(chars@.skip(end + 1)) =~= so_far
                + spec_data_payloads(rest));
        }
        from = end + 1;
    }
    out
}

} // verus!
