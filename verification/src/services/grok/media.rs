//! What a video generation asks of the upstream service.

use vstd::prelude::*;
use crate::services::grok::chat::Attachment;
use crate::text::{opt_chars, str_eq};

verus! {

/// The service that generates videos.
#[derive(Debug, Clone, Copy)]
pub struct VideoService;

/// The flag that a preset stands for; that of a custom video for any
/// preset that is not known.
pub open spec fn spec_mode_flag(preset: Seq<char>) -> Seq<char> {
    if preset == "fun"@ {
        "--mode=extremely-crazy"@
    } else if preset == "normal"@ {
        "--mode=normal"@
    } else if preset == "spicy"@ {
        "--mode=extremely-spicy-or-crazy"@
    } else {
        "--mode=custom"@
    }
}

/// Whether `i` is the position of the first image among the attachments.
pub open spec fn spec_first_image(attachments: Seq<Attachment>, i: int) -> bool {
    &&& 0 <= i < attachments.len()
    &&& attachments[i].kind@ == "image"@
    &&& forall|j: int| 0 <= j < i ==> attachments[j].kind@ != "image"@
}

impl VideoService {
    /// The flag that a preset stands for.
    pub fn mode_flag(preset: &str) -> (r: String)
        ensures
            r@ == spec_mode_flag(preset@),
    {
        if str_eq(preset, "fun") {
            "--mode=extremely-crazy".to_owned()
        } else if str_eq(preset, "normal") {
            "--mode=normal".to_owned()
        } else if str_eq(preset, "spicy") {
            "--mode=extremely-spicy-or-crazy".to_owned()
        } else {
            "--mode=custom".to_owned()
        }
    }

    /// The prompt as it is sent: the prompt, a space, and the flag of the preset.
    pub fn full_prompt(prompt: &str, preset: &str) -> (r: String)
        ensures
            r@ == prompt@ + " "@ + spec_mode_flag(preset@),
    {
        let mut out = prompt.to_owned();
        out.append(" ");
        out.append(Self::mode_flag(preset).as_str());
        out
    }

    /// The address of an uploaded file.
    pub fn image_address(file_uri: &str) -> (r: String)
        ensures
            r@ == "https://assets.grok.com/"@ + file_uri@,
    {
        let mut out = "https://assets.grok.com/".to_owned();
        out.append(file_uri);
        out
    }

    /// The image from which the video is made: the first image among the
    /// attachments, if there is one.
    pub fn first_image(attachments: &Vec<Attachment>) -> (r: Option<String>)
        ensures
            r is Some <==> exists|i: int| spec_first_image(attachments@, i),
            forall|i: int|
                spec_first_image(attachments@, i) ==> opt_chars(r) == Some(attachments[i].data@),
    {
        let mut i: usize = 0;
        while i < attachments.len()
            invariant
                i <= attachments.len(),
                forall|j: int| 0 <= j < i ==> attachments[j].kind@ != "image"@,
            decreases attachments.len() - i,
        {
            if str_eq(attachments[i].kind.as_str(), "image") {
                assert(spec_first_image(attachments@, i as int));
                return Some(attachments[i].data.clone());
            }
            i += 1;
        }
        None
    }
}

} // verus!
