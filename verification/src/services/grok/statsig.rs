//! The identifier that a call upstream carries in its `x-statsig-id` header.

use vstd::prelude::*;
use vstd::utf8::encode_utf8;
use base64::Engine;
use rand::Rng;
use crate::text::{ascii_lower, string_from_chars};

verus! {

/// Number of random characters in an identifier of the first form.
pub const SHORT_RANDOM_LEN: usize = 5;

/// Number of random characters in an identifier of the second form.
pub const LONG_RANDOM_LEN: usize = 10;

/// The base64 text of bytes; standard alphabet, with padding.
pub uninterp spec fn spec_base64_encode(data: Seq<u8>) -> Seq<char>;

/// `Engine::encode` of `base64::engine::general_purpose::STANDARD`: the
/// base64 text of the bytes. The call panics only when the length of the
/// text, four thirds of that of the bytes, does not fit the address space;
/// a slice never has more than `isize::MAX` bytes, so that it always fits.
#[verifier::external_body]
fn base64_encode(data: &[u8]) -> (r: String)
    ensures
        r@ == spec_base64_encode(data@),
{
    base64::engine::general_purpose::STANDARD.encode(data)
}

/// `rand::random::<bool>`: a random truth value. Nothing is claimed of it.
#[verifier::external_body]
fn random_bool() -> (r: bool) {
    rand::random::<bool>()
}

/// `Rng::sample` of `Alphanumeric` with the thread's generator: a random
/// ASCII letter or digit.
#[verifier::external_body]
fn random_alphanumeric() -> (r: u8)
    ensures
        (0x41 <= r <= 0x5a) || (0x61 <= r <= 0x7a) || (0x30 <= r <= 0x39),
{
    rand::thread_rng().sample(rand::distributions::Alphanumeric)
}

/// `Rng::gen::<u8>` with the thread's generator: a random byte. Nothing is
/// claimed of it.
#[verifier::external_body]
fn random_byte() -> (r: u8) {
    rand::thread_rng().gen::<u8>()
}

/// The service that makes the identifiers.
#[derive(Debug, Clone, Copy)]
pub struct StatsigService;

/// Whether a character is a lower-case ASCII letter.
pub open spec fn spec_is_lower_letter(c: char) -> bool {
    'a' <= c && c <= 'z'
}

/// Whether a character is a lower-case ASCII letter or a digit.
pub open spec fn spec_is_lower_alnum(c: char) -> bool {
    spec_is_lower_letter(c) || ('0' <= c && c <= '9')
}

/// The identifier that is used when no random one is wanted.
pub open spec fn spec_static_id() -> Seq<char> {
    "ZTpUeXBlRXJyb3I6IENhbm5vdCByZWFkIHByb3BlcnRpZXMgb2YgdW5kZWZpbmVkIChyZWFkaW5nICdjaGlsZE5vZGVzJyk="@
}

/// The message of the first form around a random text.
pub open spec fn spec_null_message(random: Seq<char>) -> Seq<char> {
    "e:TypeError: Cannot read properties of null (reading 'children[\""@ + random + "\"]')"@
}

/// The message of the second form around a random text.
pub open spec fn spec_undefined_message(random: Seq<char>) -> Seq<char> {
    "e:TypeError: Cannot read properties of undefined (reading '"@ + random + "')"@
}

/// Whether an identifier is made from the random text: it is the base64
/// text of a message of the first form around five lower-case letters or
/// digits, or of one of the second form around ten lower-case letters.
pub open spec fn spec_made_from(id: Seq<char>, random: Seq<char>) -> bool {
    ||| (random.len() == SHORT_RANDOM_LEN && (forall|i: int|
        0 <= i < random.len() ==> spec_is_lower_alnum(#[trigger] random[i])) && id
        == spec_base64_encode(encode_utf8(spec_null_message(random))))
    ||| (random.len() == LONG_RANDOM_LEN && (forall|i: int|
        0 <= i < random.len() ==> spec_is_lower_letter(#[trigger] random[i])) && id
        == spec_base64_encode(encode_utf8(spec_undefined_message(random))))
}

/// Whether a text is an identifier that may be made at random.
pub open spec fn spec_is_dynamic_id(id: Seq<char>) -> bool {
    exists|random: Seq<char>| spec_made_from(id, random)
}

impl StatsigService {
    /// A random text of the given length: of lower-case letters and
    /// digits, or of lower-case letters only.
    pub fn rand_str(len: usize, alnum: bool) -> (r: Vec<char>)
        ensures
            r.len() == len,
            alnum ==> forall|i: int| 0 <= i < len ==> spec_is_lower_alnum(#[trigger] r[i]),
            !alnum ==> forall|i: int| 0 <= i < len ==> spec_is_lower_letter(#[trigger] r[i]),
    {
        let mut out: Vec<char> = Vec::new();
        let mut i: usize = 0;
        while i < len
            invariant
                i <= len,
                out.len() == i,
                alnum ==> forall|j: int| 0 <= j < i ==> spec_is_lower_alnum(#[trigger] out[j]),
                !alnum ==> forall|j: int| 0 <= j < i ==> spec_is_lower_letter(#[trigger] out[j]),
            decreases len - i,
        {
            let c = if alnum {
                let b = random_alphanumeric();
                ascii_lower(b as char)
            } else {
                let b = random_byte();
                ((0x61 + (b % 26)) as u8) as char
            };
            out.push(c);
            i += 1;
        }
        out
    }

    /// The identifier for a call: a random one if `dynamic` is set, the
    /// fixed one otherwise.
    pub fn gen_id(dynamic: bool) -> (r: String)
        ensures
            !dynamic ==> r@ == spec_static_id(),
            dynamic ==> spec_is_dynamic_id(r@),
    {
        if !dynamic {
            return "ZTpUeXBlRXJyb3I6IENhbm5vdCByZWFkIHByb3BlcnRpZXMgb2YgdW5kZWZpbmVkIChyZWFkaW5nICdjaGlsZE5vZGVzJyk=".to_owned();
        }
        if random_bool() {
            let random = StatsigService::rand_str(SHORT_RANDOM_LEN, true);
            let mut msg = "e:TypeError: Cannot read properties of null (reading 'children[\"".to_owned();
            msg.append(string_from_chars(&random).as_str());
            msg.append("\"]')");
            let id = base64_encode(msg.as_str().as_bytes());
            assert(spec_made_from(id@, random@));
            id
        } else {
            let random = StatsigService::rand_str(LONG_RANDOM_LEN, false);
            let mut msg = "e:TypeError: Cannot read properties of undefined (reading '".to_owned();
            msg.append(string_from_chars(&random).as_str());
            msg.append("')");
            let id = base64_encode(msg.as_str().as_bytes());
            assert(spec_made_from(id@, random@));
            id
        }
    }
}

} // verus!
