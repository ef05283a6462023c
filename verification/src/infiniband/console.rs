//! The console of the native simulator: what it prints up to its next prompt.

use vstd::prelude::*;
use vstd::string::*;
use vstd::utf8::{encode_utf8, is_ascii_chars_encode_utf8, valid_utf8};

verus! {

/// Most bytes that the console may print between two prompts.
pub const MAX_RESPONSE: usize = 1_048_576;

/// How long the console may take to print its prompt, in milliseconds.
pub const PROMPT_DEADLINE: u64 = 5_000;

/// The bytes of the prompt, `sim> `.
pub open spec fn prompt() -> Seq<u8> {
    seq![115u8, 105u8, 109u8, 62u8, 32u8]
}

/// The prompt has been printed.
pub open spec fn prompted(data: Seq<u8>) -> bool {
    data.len() >= 5 && data.skip(data.len() - 5) == prompt()
}

/// What was printed before the prompt.
pub open spec fn printed(data: Seq<u8>) -> Seq<u8> {
    data.take(data.len() - 5)
}

/// Where a response stands.
#[derive(Clone, Copy, Debug, PartialEq, Eq, Structural)]
pub enum PromptStep {
    More,
    Complete,
    TooLarge,
}

pub open spec fn prompt_step(data: Seq<u8>) -> PromptStep {
    if prompted(data) {
        PromptStep::Complete
    } else if data.len() > MAX_RESPONSE {
        PromptStep::TooLarge
    } else {
        PromptStep::More
    }
}

/// What a `FromUtf8Error` prints as.
pub uninterp spec fn utf8_error_words(error: std::string::FromUtf8Error) -> Seq<char>;

/// What the error of `String::from_utf8` prints as for bytes that are not UTF-8.
pub uninterp spec fn utf8_report(bytes: Seq<u8>) -> Seq<char>;

/// Calls `String::from_utf8`: bytes are a string exactly if they are valid UTF-8, and then it is
/// the string that they encode. What is reported of other bytes depends on them alone.
#[verifier::external_body]
fn string_from_utf8(bytes: Vec<u8>) -> (r: Result<String, std::string::FromUtf8Error>)
    ensures
        match r {
            Ok(s) => valid_utf8(bytes@) && encode_utf8(s@) == bytes@,
            Err(e) => !valid_utf8(bytes@) && utf8_error_words(e) == utf8_report(bytes@),
        },
{
    String::from_utf8(bytes)
}

/// Calls `to_string` of `FromUtf8Error`: what the error prints as.
#[verifier::external_body]
fn utf8_error_text(error: &std::string::FromUtf8Error) -> (r: String)
    ensures
        r@ == utf8_error_words(*error),
{
    error.to_string()
}

/// std's error for bytes that are not UTF-8.
#[verifier::external_type_specification]
#[verifier::external_body]
pub struct ExFromUtf8Error(std::string::FromUtf8Error);

/// Why a response is not text.
#[derive(Debug)]
pub enum ResponseError {
    /// The prompt has not been printed yet.
    NoPrompt,
    /// What was printed before the prompt is not UTF-8; this is reported of it.
    NotUtf8(String),
}

impl ResponseError {
    pub open spec fn says(self) -> Seq<char> {
        match self {
            ResponseError::NoPrompt => "no ibsim prompt"@,
            ResponseError::NotUtf8(report) => report@,
        }
    }

    /// The error in words.
    pub fn message(self) -> (r: String)
        ensures
            r@ == self.says(),
    {
        match self {
            ResponseError::NoPrompt => "no ibsim prompt".to_owned(),
            ResponseError::NotUtf8(report) => report,
        }
    }
}

/// What the console has printed since the last prompt.
#[derive(Debug)]
pub struct Response {
    data: Vec<u8>,
}

impl View for Response {
    type V = Seq<u8>;

    closed spec fn view(&self) -> Seq<u8> {
        self.data@
    }
}

impl Response {
    pub fn new() -> (r: Self)
        ensures
            r@ == Seq::<u8>::empty(),
    {
        Response { data: Vec::new() }
    }

    /// Everything printed so far, the prompt included.
    pub fn bytes(&self) -> (r: &Vec<u8>)
        ensures
            r@ == self@,
    {
        &self.data
    }

    /// Takes one more byte.
    pub fn push(&mut self, b: u8) -> (r: PromptStep)
        ensures
            final(self)@ == old(self)@.push(b),
            r == prompt_step(final(self)@),
    {
        self.data.push(b);
        if ends_with_prompt(&self.data) {
            return PromptStep::Complete;
        }
        if self.data.len() > MAX_RESPONSE {
            PromptStep::TooLarge
        } else {
            PromptStep::More
        }
    }

    /// What was printed before the prompt.
    pub fn text(self) -> (r: Result<String, ResponseError>)
        ensures
            match r {
                Ok(s) => prompted(self@) && encode_utf8(s@) == printed(self@),
                Err(ResponseError::NoPrompt) => !prompted(self@),
                Err(ResponseError::NotUtf8(report)) => prompted(self@) && !valid_utf8(
                    printed(self@),
                ) && report@ == utf8_report(printed(self@)),
            },
    {
        if !ends_with_prompt(&self.data) {
            return Err(ResponseError::NoPrompt);
        }
        let mut data = self.data;
        let n: usize = data.len() - 5;
        data.truncate(n);
        assert(data@ =~= printed(self@));
        match string_from_utf8(data) {
            Ok(s) => Ok(s),
            Err(e) => Err(ResponseError::NotUtf8(utf8_error_text(&e))),
        }
    }
}

/// A response that is complete with its last byte, and was not with any before, has the prompt at
/// its end and nowhere before.
pub proof fn law_response_ends_at_its_first_prompt(data: Seq<u8>)
    requires
        forall|k: int| 0 <= k < data.len() ==> prompt_step(#[trigger] data.take(k)) == PromptStep::More,
        prompt_step(data) == PromptStep::Complete,
    ensures
        data == printed(data) + prompt(),
        data.len() <= MAX_RESPONSE + 1,
        forall|i: int|
            0 <= i < data.len() - 5 ==> #[trigger] data.subrange(i, i + 5) != prompt(),
{
    assert(data =~= printed(data) + data.skip(data.len() - 5));
    let shorter = data.take(data.len() - 1);
    assert(prompt_step(shorter) == PromptStep::More);
    assert forall|i: int| 0 <= i < data.len() - 5 implies #[trigger] data.subrange(i, i + 5)
        != prompt() by {
        let head = data.take(i + 5);
        assert(prompt_step(head) == PromptStep::More);
        assert(head.skip(i) =~= data.subrange(i, i + 5));
    }
}

fn ends_with_prompt(data: &Vec<u8>) -> (r: bool)
    ensures
        r == prompted(data@),
{
    let n: usize = data.len();
    if n < 5 {
        return false;
    }
    let ghost tail = data@.skip(n - 5);
    let found = data[n - 5] == 115 && data[n - 4] == 105 && data[n - 3] == 109 && data[n - 2] == 62
        && data[n - 1] == 32;
    proof {
        assert(tail[0] == data@[n - 5]);
        assert(tail[1] == data@[n - 4]);
        assert(tail[2] == data@[n - 3]);
        assert(tail[3] == data@[n - 2]);
        assert(tail[4] == data@[n - 1]);
        if found {
            assert(tail =~= prompt());
        }
    }
    found
}

/// The prompt is `sim> `. A response is complete exactly if it ends so, and too large if it does not
/// and is longer than a mebibyte; what was printed is all but the prompt.
pub proof fn law_responses(data: Seq<u8>, text: Seq<u8>)
    ensures
        prompt() == encode_utf8("sim> "@),
        prompt_step(data) == PromptStep::Complete <==> exists|before: Seq<u8>|
            data == before + encode_utf8("sim> "@),
        prompt_step(data) == PromptStep::TooLarge <==> data.len() > 1_048_576 && !exists|
            before: Seq<u8>,
        |
            data == before + encode_utf8("sim> "@),
        printed(text + encode_utf8("sim> "@)) == text,
{
    reveal_strlit("sim> ");
    is_ascii_chars_encode_utf8("sim> "@);
    assert(encode_utf8("sim> "@) =~= prompt());
    if prompted(data) {
        assert(data =~= printed(data) + prompt());
    }
    if exists|before: Seq<u8>| data == before + encode_utf8("sim> "@) {
        let before = choose|before: Seq<u8>| data == before + encode_utf8("sim> "@);
        assert(data.skip(data.len() - 5) =~= prompt());
    }
    assert(printed(text + prompt()) =~= text);
}

} // verus!
