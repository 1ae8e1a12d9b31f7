use base64::Engine;
use vstd::prelude::*;
use crate::error::SauronError;
use crate::text::{chars_of, push_str_chars, same_text, trim, trim_text};

verus! {

broadcast use vstd::string::group_string_axioms;

/// What every screenshot description asks of the model.
pub const SCREENSHOT_PROMPT: &'static str = "Describe what the user is doing on their screen. Be concise (2-3 sentences). Focus on: application in use, task being performed, key content visible.";

/// What the OCR helper prints when it cannot load the image.
pub const OCR_LOAD_ERROR: &'static str = "ERROR: Could not load image";

/// A request to Ollama's generate endpoint; it is sent with streaming off.
pub struct OllamaRequest {
    /// Where the request goes.
    pub url: String,
    /// The model that answers.
    pub model: String,
    /// What the model is asked.
    pub prompt: String,
    /// Base64-encoded images, for a vision model.
    pub images: Option<Vec<String>>,
    /// How long to wait for the answer, in seconds.
    pub timeout_secs: u64,
}

/// The generate endpoint of the Ollama server at `base_url`.
pub open spec fn generate_url_of(base_url: Seq<char>) -> Seq<char> {
    base_url + "/api/generate"@
}

/// Whether an HTTP status code counts as success: 200 to 299.
pub open spec fn is_success_status(code: u16) -> bool {
    200 <= code <= 299
}

/// The generate endpoint of the Ollama server at `base_url`.
pub fn generate_url(base_url: &str) -> (r: String)
    ensures
        r@ == generate_url_of(base_url@),
{
    let mut r = base_url.to_string();
    push_str_chars(&mut r, "/api/generate");
    r
}

/// Checks the HTTP status of an Ollama answer: `code` is the status code
/// and `status_text` how it prints (such as `404 Not Found`).
pub fn check_ollama_status(code: u16, status_text: &str) -> (r: Result<(), SauronError>)
    ensures
        is_success_status(code) ==> r is Ok,
        !is_success_status(code) ==> (r matches Err(SauronError::Ollama(msg)) && msg@
            == "Ollama returned status: "@ + status_text@),
{
    if 200 <= code && code <= 299 {
        Ok(())
    } else {
        let mut msg = "Ollama returned status: ".to_string();
        push_str_chars(&mut msg, status_text);
        Err(SauronError::Ollama(msg))
    }
}

/// The text of an Ollama answer whose `response` field is `response` (when
/// it is a string): that text without surrounding white space, or the error
/// `missing` when there is none.
pub fn reply_text(response: Option<String>, missing: &str) -> (r: Result<String, SauronError>)
    ensures
        match response {
            Some(t) => r matches Ok(s) && s@ == trim(t@),
            None => r matches Err(SauronError::Ollama(msg)) && msg@ == missing@,
        },
{
    match response {
        Some(t) => Ok(trim_text(t.as_str())),
        None => Err(SauronError::Ollama(missing.to_string())),
    }
}

/// The character of the 6-bit value `v` in the standard Base64 alphabet:
/// `A`-`Z`, `a`-`z`, `0`-`9`, `+` and `/`.
pub open spec fn base64_digit(v: int) -> char {
    if v < 26 {
        (('A' as int) + v) as char
    } else if v < 52 {
        (('a' as int) + (v - 26)) as char
    } else if v < 62 {
        (('0' as int) + (v - 52)) as char
    } else if v == 62 {
        '+'
    } else {
        '/'
    }
}

/// The Base64 text of `data` (RFC 4648) in the standard alphabet with `=`
/// padding: each group of three bytes becomes four characters of six bits
/// each, and a last group of one or two bytes is padded with `=` to four.
pub open spec fn base64_standard(data: Seq<u8>) -> Seq<char>
    decreases data.len(),
{
    if data.len() == 0 {
        Seq::empty()
    } else if data.len() == 1 {
        let a = data[0] as int;
        seq![base64_digit(a / 4), base64_digit((a % 4) * 16), '=', '=']
    } else if data.len() == 2 {
        let a = data[0] as int;
        let b = data[1] as int;
        seq![
            base64_digit(a / 4),
            base64_digit((a % 4) * 16 + b / 16),
            base64_digit((b % 16) * 4),
            '=',
        ]
    } else {
        let a = data[0] as int;
        let b = data[1] as int;
        let c = data[2] as int;
        seq![
            base64_digit(a / 4),
            base64_digit((a % 4) * 16 + b / 16),
            base64_digit((b % 16) * 4 + c / 64),
            base64_digit(c % 64),
        ] + base64_standard(data.skip(3))
    }
}

/// `base64::Engine::encode` with the `STANDARD` engine: the standard Base64
/// text of `data`, with padding.
#[verifier::external_body]
fn encode_base64(data: &[u8]) -> (r: String)
    ensures
        r@ == base64_standard(data@),
{
    base64::engine::general_purpose::STANDARD.encode(data)
}

/// The prompt for the vision model about a screenshot of the display
/// `display_label`.
pub open spec fn vision_prompt_of(display_label: Seq<char>) -> Seq<char> {
    SCREENSHOT_PROMPT@ + " This screenshot is from monitor '"@ + display_label + "'."@
}

/// The prompt for the text model about the text `text` read off a screen.
pub open spec fn ocr_prompt_of(text: Seq<char>) -> Seq<char> {
    "The following text was extracted from a user's screen via OCR. "@ + SCREENSHOT_PROMPT@
        + "\n\nExtracted text:\n"@ + text
}

/// The OCR text, when the OCR helper succeeded and printed `stdout`: the
/// printout without surrounding white space, unless it is empty or the
/// helper's load error.
pub open spec fn ocr_accepts(success: bool, stdout: Seq<char>) -> bool {
    success && trim(stdout).len() > 0 && trim(stdout) != OCR_LOAD_ERROR@
}

/// OCR output is rejected only when the helper failed, printed nothing but
/// white space, or printed exactly its load error: any other text, even one
/// that mentions an error, is accepted.
pub proof fn lemma_ocr_rejects_only_failures(success: bool, stdout: Seq<char>)
    ensures
        !success ==> !ocr_accepts(success, stdout),
        success && trim(stdout).len() > 0 && trim(stdout) != OCR_LOAD_ERROR@ ==> ocr_accepts(
            success,
            stdout,
        ),
        trim(stdout).len() == 0 ==> !ocr_accepts(success, stdout),
        trim(stdout) == OCR_LOAD_ERROR@ ==> !ocr_accepts(success, stdout),
{
}

/// Describes screenshots with Ollama: the vision model first, and OCR with
/// the text model when that fails.
pub struct Processor {
    pub base_url: String,
    pub vision_model: String,
    pub text_model: String,
}

impl Processor {
    pub fn new(base_url: String, vision_model: String, text_model: String) -> (p: Self)
        ensures
            p.base_url == base_url,
            p.vision_model == vision_model,
            p.text_model == text_model,
    {
        Processor { base_url, vision_model, text_model }
    }

    /// The request asking the vision model to describe the screenshot
    /// `image` of the display `display_label`.
    pub fn vision_request(&self, image: &[u8], display_label: &str) -> (r: OllamaRequest)
        ensures
            r.url@ == generate_url_of(self.base_url@),
            r.model@ == self.vision_model@,
            r.prompt@ == vision_prompt_of(display_label@),
            r.images matches Some(v) && v@.len() == 1 && v@[0]@ == base64_standard(image@),
            r.timeout_secs == 120,
    {
        let encoded = encode_base64(image);
        let mut prompt = SCREENSHOT_PROMPT.to_string();
        push_str_chars(&mut prompt, " This screenshot is from monitor '");
        push_str_chars(&mut prompt, display_label);
        push_str_chars(&mut prompt, "'.");
        let mut images: Vec<String> = Vec::new();
        images.push(encoded);
        OllamaRequest {
            url: generate_url(self.base_url.as_str()),
            model: self.vision_model.clone(),
            prompt,
            images: Some(images),
            timeout_secs: 120,
        }
    }

    /// The request asking the text model to describe the screen from the
    /// text `text` read off it.
    pub fn text_request(&self, text: &str) -> (r: OllamaRequest)
        ensures
            r.url@ == generate_url_of(self.base_url@),
            r.model@ == self.text_model@,
            r.prompt@ == ocr_prompt_of(text@),
            r.images is None,
            r.timeout_secs == 120,
    {
        let mut prompt = "The following text was extracted from a user's screen via OCR. ".to_string();
        push_str_chars(&mut prompt, SCREENSHOT_PROMPT);
        push_str_chars(&mut prompt, "\n\nExtracted text:\n");
        push_str_chars(&mut prompt, text);
        OllamaRequest {
            url: generate_url(self.base_url.as_str()),
            model: self.text_model.clone(),
            prompt,
            images: None,
            timeout_secs: 120,
        }
    }

    /// The text that OCR of the image `image_path` gave, from whether the
    /// helper succeeded and what it printed.
    pub fn ocr_text(success: bool, stdout: &str, image_path: &str) -> (r: Result<
        String,
        SauronError,
    >)
        ensures
            (success && trim(stdout@).len() > 0 && trim(stdout@) != OCR_LOAD_ERROR@) ==> (r matches Ok(
                t,
            ) && t@ == trim(stdout@)),
            !(success && trim(stdout@).len() > 0 && trim(stdout@) != OCR_LOAD_ERROR@) ==> (r matches Err(
                SauronError::Ollama(msg),
            ) && msg@
                == "OCR failed for "@ + image_path@),
    {
        let t = trim_text(stdout);
        if success && chars_of(t.as_str()).len() > 0 && !same_text(t.as_str(), OCR_LOAD_ERROR) {
            return Ok(t);
        }
        let mut msg = "OCR failed for ".to_string();
        push_str_chars(&mut msg, image_path);
        Err(SauronError::Ollama(msg))
    }

    /// What the vision model's attempt settles: its description, credited to
    /// the vision model and the method `vision`, when it succeeded; `None`,
    /// meaning OCR is tried next, when it failed.
    pub fn vision_outcome(&self, attempt: Result<String, SauronError>) -> (r: Option<
        (String, String, String),
    >)
        ensures
            match attempt {
                Ok(s) => r matches Some(t) && t.0 == s && t.1@ == self.vision_model@ && t.2@
                    == "vision"@,
                Err(_) => r is None,
            },
    {
        match attempt {
            Ok(summary) => Some((summary, self.vision_model.clone(), "vision".to_string())),
            Err(_) => None,
        }
    }

    /// The description made from OCR text, credited to the text model and
    /// the method `ocr_fallback`.
    pub fn fallback_outcome(&self, summary: String) -> (r: (String, String, String))
        ensures
            r.0 == summary,
            r.1@ == self.text_model@,
            r.2@ == "ocr_fallback"@,
    {
        (summary, self.text_model.clone(), "ocr_fallback".to_string())
    }
}

} // verus!
