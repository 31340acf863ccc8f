//! What the transcription service is sent and how its answers are read.
//!
//! The request itself is the caller's. JSON is parsed by `serde_json`;
//! which part of an answer is shown to the user is decided here.

use vstd::prelude::*;
use vstd::string::StringExecFns;
use crate::paths::{
    extension, file_name_of, path_file_name, spec_extension, str_lowercase, to_lowercase,
};
use crate::text::{join3, push_decimal, spec_decimal, spec_trim, text_of, trim};

verus! {

/// The body of a successful answer of the transcription service.
#[derive(Clone, Debug, PartialEq, Eq)]
pub struct SuccessResponse {
    /// The complete transcript.
    pub text: String,
}

/// The integer that `serde_json` finds under `key` in the JSON object
/// `body`, if `body` is a JSON object with an integer that fits 64 bits
/// under that key.
pub uninterp spec fn json_field_integer(body: Seq<char>, key: Seq<char>) -> Option<i64>;

/// The string that `serde_json` finds under `key` in the JSON object
/// `body`, if `body` is a JSON object with a string under that key.
pub uninterp spec fn json_field_text(body: Seq<char>, key: Seq<char>) -> Option<Seq<char>>;

/// The string that `body` is, if `serde_json` reads it as a JSON string.
pub uninterp spec fn json_text(body: Seq<char>) -> Option<Seq<char>>;

/// Parses `body` with `serde_json::from_str` and looks `key` up with
/// `Value::as_object`, `Map::get` and `Value::as_i64`; the contract only
/// names what that yields.
#[verifier::external_body]
fn field_integer(body: &str, key: &str) -> (found: Option<i64>)
    ensures
        found == json_field_integer(body@, key@),
{
    let value = serde_json::from_str::<serde_json::Value>(body).ok()?;
    value.as_object()?.get(key)?.as_i64()
}

/// Parses `body` with `serde_json::from_str` and looks `key` up with
/// `Value::as_object`, `Map::get` and `Value::as_str`; the contract only
/// names what that yields.
#[verifier::external_body]
fn field_text(body: &str, key: &str) -> (found: Option<String>)
    ensures
        text_of(found) == json_field_text(body@, key@),
{
    let value = serde_json::from_str::<serde_json::Value>(body).ok()?;
    value.as_object()?.get(key)?.as_str().map(String::from)
}

/// Parses `body` with `serde_json::from_str` and reads it with
/// `Value::as_str`; the contract only names what that yields.
#[verifier::external_body]
fn whole_text(body: &str) -> (found: Option<String>)
    ensures
        text_of(found) == json_text(body@),
{
    let value = serde_json::from_str::<serde_json::Value>(body).ok()?;
    value.as_str().map(String::from)
}

/// What the body of a failed answer holds, as far as it is shown.
#[derive(Clone, Debug, PartialEq, Eq)]
pub struct ErrorBody {
    /// The `code` of a JSON object.
    pub code: Option<i64>,
    /// The `message` of a JSON object.
    pub message: Option<String>,
    /// The `data` of a JSON object.
    pub data: Option<String>,
    /// The body itself, where it is a JSON string.
    pub text: Option<String>,
}

/// What an error body says.
pub struct ErrorBodyView {
    /// The `code` of a JSON object.
    pub code: Option<i64>,
    /// The `message` of a JSON object.
    pub message: Option<Seq<char>>,
    /// The `data` of a JSON object.
    pub data: Option<Seq<char>>,
    /// The body itself, where it is a JSON string.
    pub text: Option<Seq<char>>,
}

impl View for ErrorBody {
    type V = ErrorBodyView;

    open spec fn view(&self) -> ErrorBodyView {
        ErrorBodyView {
            code: self.code,
            message: text_of(self.message),
            data: text_of(self.data),
            text: text_of(self.text),
        }
    }
}

/// What the JSON parser finds in `body`.
pub open spec fn spec_error_body(body: Seq<char>) -> ErrorBodyView {
    ErrorBodyView {
        code: json_field_integer(body, "code"@),
        message: json_field_text(body, "message"@),
        data: json_field_text(body, "data"@),
        text: json_text(body),
    }
}

/// Reads the parts of a failed answer that are shown to the user.
pub fn read_error_body(body: &str) -> (parts: ErrorBody)
    ensures
        parts@ == spec_error_body(body@),
{
    ErrorBody {
        code: field_integer(body, "code"),
        message: field_text(body, "message"),
        data: field_text(body, "data"),
        text: whole_text(body),
    }
}

/// `value` in decimal, with a minus sign when it is negative.
pub open spec fn spec_signed_decimal(value: int) -> Seq<char> {
    if value < 0 {
        "-"@ + spec_decimal((-value) as nat)
    } else {
        spec_decimal(value as nat)
    }
}

/// How an optional integer is shown: `Some(..)` around the number, or
/// `None`.
pub open spec fn spec_optional_integer(value: Option<i64>) -> Seq<char> {
    match value {
        Some(number) => "Some("@ + spec_signed_decimal(number as int) + ")"@,
        None => "None"@,
    }
}

/// Shows an optional integer.
pub fn optional_integer(value: Option<i64>) -> (text: String)
    ensures
        text@ == spec_optional_integer(value),
{
    match value {
        Some(number) => {
            let mut text = String::from_str("Some(");
            if number < 0 {
                text.append("-");
                let magnitude: u64 = ((-(number + 1)) as u64) + 1;
                push_decimal(&mut text, magnitude);
            } else {
                push_decimal(&mut text, number as u64);
            }
            text.append(")");
            proof {
                assert(text@ =~= spec_optional_integer(value));
            }
            text
        },
        None => String::from_str("None"),
    }
}

/// `value`, or nothing where there is none.
pub open spec fn or_empty(value: Option<Seq<char>>) -> Seq<char> {
    match value {
        Some(text) => text,
        None => Seq::empty(),
    }
}

/// What the user is told about a failed answer with the status
/// `status`, numbered `code`, and the body `body` whose parts are
/// `parts`: the fields of a JSON object where it has any of them, else
/// the text of a JSON string, else the body as it is, marked as rate
/// limiting for status 429.
pub open spec fn spec_describe_api_error(
    code: u16,
    status: Seq<char>,
    body: Seq<char>,
    parts: ErrorBodyView,
) -> Seq<char> {
    if parts.code is Some || parts.message is Some || parts.data is Some {
        spec_trim(
            "API Error (HTTP "@ + status + ", code "@ + spec_optional_integer(parts.code) + "): "@
                + or_empty(parts.message) + " "@ + or_empty(parts.data),
        )
    } else if parts.text is Some {
        "API Error (HTTP "@ + status + "): "@ + parts.text->0
    } else if code == 429 {
        "Rate limited (HTTP 429): "@ + body
    } else {
        "API Error (HTTP "@ + status + "): "@ + body
    }
}

fn append_or_empty(out: &mut String, value: &Option<String>)
    ensures
        final(out)@ == old(out)@ + or_empty(text_of(*value)),
{
    match value {
        Some(text) => out.append(text.as_str()),
        None => {
            proof {
                assert(out@ =~= old(out)@ + Seq::<char>::empty());
            }
        },
    }
}

/// Words the failure of a request from the status of the answer, its
/// body, and the parts that the JSON parser found in the body.
pub fn describe_api_error(code: u16, status: &str, body: &str, parts: &ErrorBody) -> (text: String)
    ensures
        text@ == spec_describe_api_error(code, status@, body@, parts@),
{
    if parts.code.is_some() || parts.message.is_some() || parts.data.is_some() {
        let mut text = join3("API Error (HTTP ", status, ", code ");
        text.append(optional_integer(parts.code).as_str());
        text.append("): ");
        append_or_empty(&mut text, &parts.message);
        text.append(" ");
        append_or_empty(&mut text, &parts.data);
        trim(text.as_str())
    } else {
        match &parts.text {
            Some(inner) => {
                let mut text = join3("API Error (HTTP ", status, "): ");
                text.append(inner.as_str());
                text
            },
            None => {
                if code == 429 {
                    let mut text = String::from_str("Rate limited (HTTP 429): ");
                    text.append(body);
                    text
                } else {
                    let mut text = join3("API Error (HTTP ", status, "): ");
                    text.append(body);
                    text
                }
            },
        }
    }
}

/// Words the failure of a request whose answer has the status `status`,
/// numbered `code`, and the body `body`.
pub fn format_api_error(code: u16, status: &str, body: &str) -> (text: String)
    ensures
        text@ == spec_describe_api_error(code, status@, body@, spec_error_body(body@)),
{
    let parts = read_error_body(body);
    describe_api_error(code, status, body, &parts)
}

/// Whether `code` is a status of success: 200 to 299.
pub open spec fn spec_is_success(code: u16) -> bool {
    200 <= code <= 299
}

/// What a request came to: the transcript of a successful answer that
/// could be read, and the wording of the failure otherwise.
pub open spec fn spec_interpret_response(
    code: u16,
    status: Seq<char>,
    body: Seq<char>,
    parsed: Option<Seq<char>>,
) -> Result<Seq<char>, Seq<char>> {
    if spec_is_success(code) {
        match parsed {
            Some(text) => Ok(text),
            None => Err("Failed to parse success response: "@ + body),
        }
    } else {
        Err(spec_describe_api_error(code, status, body, spec_error_body(body)))
    }
}

/// The transcript of a parsed answer, if there is one.
pub open spec fn transcript_of(parsed: Option<SuccessResponse>) -> Option<Seq<char>> {
    match parsed {
        Some(response) => Some(response.text@),
        None => None,
    }
}

/// The texts of a result.
pub open spec fn texts_of_result(outcome: Result<String, String>) -> Result<Seq<char>, Seq<char>> {
    match outcome {
        Ok(text) => Ok(text@),
        Err(error) => Err(error@),
    }
}

/// Decides what a request came to from the status of the answer, its
/// body, and the success response that was read from the body, if one
/// could be.
pub fn interpret_response(
    code: u16,
    status: &str,
    body: &str,
    parsed: Option<SuccessResponse>,
) -> (outcome: Result<String, String>)
    ensures
        texts_of_result(outcome) == spec_interpret_response(
            code,
            status@,
            body@,
            transcript_of(parsed),
        ),
{
    if 200 <= code && code <= 299 {
        match parsed {
            Some(response) => Ok(response.text),
            None => {
                let mut error = String::from_str("Failed to parse success response: ");
                error.append(body);
                Err(error)
            },
        }
    } else {
        Err(format_api_error(code, status, body))
    }
}

/// The media type a file is uploaded as, by its extension in lower
/// case.
pub open spec fn spec_mime_for_extension(ext: Seq<char>) -> Seq<char> {
    if ext == "wav"@ {
        "audio/wav"@
    } else if ext == "ogg"@ || ext == "opus"@ {
        "audio/ogg"@
    } else if ext == "mp3"@ {
        "audio/mpeg"@
    } else if ext == "m4a"@ {
        "audio/mp4"@
    } else {
        "audio/mpeg"@
    }
}

/// The media type the file at `path` is uploaded as: by its extension,
/// whatever its case, and `audio/mpeg` where it has none or an unknown
/// one.
pub open spec fn spec_mime_type(path: Seq<char>) -> Seq<char> {
    match spec_extension(path) {
        Some(ext) => spec_mime_for_extension(str_lowercase(ext)),
        None => "audio/mpeg"@,
    }
}

/// The media type for the extension `ext`, given in lower case.
pub fn mime_for_extension(ext: &str) -> (mime: &'static str)
    ensures
        mime@ == spec_mime_for_extension(ext@),
{
    if ext.eq("wav") {
        "audio/wav"
    } else if ext.eq("ogg") || ext.eq("opus") {
        "audio/ogg"
    } else if ext.eq("mp3") {
        "audio/mpeg"
    } else if ext.eq("m4a") {
        "audio/mp4"
    } else {
        "audio/mpeg"
    }
}

/// The media type the file at `path` is uploaded as.
pub fn mime_type(path: &str) -> (mime: &'static str)
    ensures
        mime@ == spec_mime_type(path@),
{
    match extension(path) {
        Some(ext) => {
            let lower = to_lowercase(ext.as_str());
            mime_for_extension(lower.as_str())
        },
        None => "audio/mpeg",
    }
}

/// The name a file is uploaded under: its file name, or nothing where
/// the path has none.
pub fn upload_file_name(path: &str) -> (name: String)
    ensures
        name@ == or_empty(path_file_name(path@)),
{
    match file_name_of(path) {
        Some(name) => name,
        None => String::new(),
    }
}

/// The value of the authorization header for the credential `api_key`.
pub fn bearer_token(api_key: &str) -> (header: String)
    ensures
        header@ == "Bearer "@ + api_key@,
{
    let mut header = String::from_str("Bearer ");
    header.append(api_key);
    header
}

} // verus!

