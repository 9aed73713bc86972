//! What a lookup of an entry is asked and what it answers, and how the answer
//! is written as JSON text.

use vstd::prelude::*;
use vstd::string::StringExecFns;

verus! {

/// The address of an entry.
#[derive(Debug, Default)]
pub struct Address {
    /// The address as text.
    pub hash: String,
}

/// What a lookup is asked: the address of the entry.
#[derive(Debug, Default)]
pub struct GetEntryArgs {
    /// The address of the entry that is looked up.
    pub address: Address,
}

/// Whether a lookup found its entry.
#[derive(Clone, Copy, Debug, PartialEq, Eq, Structural)]
pub enum GetResultStatus {
    /// The entry was found.
    Found,
    /// There is no entry at the address.
    NotFound,
}

/// A JSON text.
#[derive(Debug)]
pub struct JsonString {
    text: String,
}

impl View for JsonString {
    type V = Seq<char>;

    closed spec fn view(&self) -> Seq<char> {
        self.text@
    }
}

/// What a lookup answers: whether it found the entry, and the entry as JSON
/// text.
#[derive(Debug)]
pub struct GetEntryResult {
    /// Whether the entry was found.
    pub status: GetResultStatus,
    /// The entry, or the JSON text `null` where there is none.
    pub entry_json: JsonString,
}

/// An answer of a lookup with both parts as plain text, the form in which it
/// is written out. The entry, itself JSON text, becomes one string of the
/// text written: it is written as JSON twice.
pub struct SerializableGetEntryResult {
    /// The status, `Found` or `NotFound`.
    pub status: String,
    /// The entry as JSON text.
    pub entry_json: String,
}

/// The JSON text that `serde_json::to_string` writes for a string: the
/// string in quotes, with what JSON asks to be escaped escaped.
pub uninterp spec fn json_text_of_string(value: Seq<char>) -> Seq<char>;

/// The string that `serde_json::from_str` reads from a JSON text, or `None`
/// for a text that is no JSON string.
pub uninterp spec fn string_of_json_text(text: Seq<char>) -> Option<Seq<char>>;

/// A string that was read, as a sequence of characters.
pub open spec fn read_view(read: Option<String>) -> Option<Seq<char>> {
    match read {
        Some(value) => Some(value@),
        None => None,
    }
}

/// `serde_json::to_string` of a string: the JSON text of the string. Its
/// errors are those of a value that refuses to be written and of a map with
/// other keys than strings, neither of which a string is.
/// `serde_json::from_str` reads the string back from the text.
#[verifier::external_body]
fn json_quote(value: &str) -> (text: String)
    ensures
        text@ == json_text_of_string(value@),
        string_of_json_text(text@) == Some(value@),
{
    serde_json::to_string(value).unwrap()
}

/// `serde_json::from_str` for a string: the string that a JSON text holds,
/// or `None` for a text that is no JSON string.
#[verifier::external_body]
fn json_unquote(text: &str) -> (value: Option<String>)
    ensures
        read_view(value) == string_of_json_text(text@),
{
    serde_json::from_str::<String>(text).ok()
}

/// The name of a status.
pub open spec fn status_name(status: GetResultStatus) -> Seq<char> {
    match status {
        GetResultStatus::Found => "Found"@,
        GetResultStatus::NotFound => "NotFound"@,
    }
}

/// The status that a name names.
pub open spec fn status_named(name: Seq<char>) -> Option<GetResultStatus> {
    if name == "Found"@ {
        Some(GetResultStatus::Found)
    } else if name == "NotFound"@ {
        Some(GetResultStatus::NotFound)
    } else {
        None
    }
}

/// The JSON text of an answer in its plain form: an object of the status
/// and the entry, each as a string.
pub open spec fn result_json(status: Seq<char>, entry_json: Seq<char>) -> Seq<char> {
    "{\"status\":"@ + json_text_of_string(status) + ",\"entry_json\":"@ + json_text_of_string(
        entry_json,
    ) + "}"@
}

impl JsonString {
    /// Takes a text over as JSON text.
    pub fn from_string(text: String) -> (json: JsonString)
        ensures
            json@ == text@,
    {
        JsonString { text }
    }

    /// Gives the text out.
    pub fn into_string(self) -> (text: String)
        ensures
            text@ == self@,
    {
        self.text
    }

    /// The JSON text `null`, which stands for no value.
    pub fn none() -> (json: JsonString)
        ensures
            json@ == "null"@,
    {
        JsonString { text: "null".to_owned() }
    }

    /// The JSON text of a status: its name as a JSON string.
    pub fn from_status(status: GetResultStatus) -> (json: JsonString)
        ensures
            json@ == json_text_of_string(status_name(status)),
            string_of_json_text(json@) == Some(status_name(status)),
    {
        let text: String = match status {
            GetResultStatus::Found => json_quote("Found"),
            GetResultStatus::NotFound => json_quote("NotFound"),
        };
        JsonString { text }
    }

    /// The JSON text of an answer in its plain form.
    pub fn from_result(result: &SerializableGetEntryResult) -> (json: JsonString)
        ensures
            json@ == result_json(result.status@, result.entry_json@),
    {
        let mut text: String = "{\"status\":".to_owned();
        let status: String = json_quote(result.status.as_str());
        text.append(status.as_str());
        text.append(",\"entry_json\":");
        let entry_json: String = json_quote(result.entry_json.as_str());
        text.append(entry_json.as_str());
        text.append("}");
        JsonString { text }
    }
}

impl GetResultStatus {
    /// The status that a JSON text names: that of the JSON string `Found`
    /// or `NotFound`, and `None` for any other text.
    pub fn from_json(json: &JsonString) -> (status: Option<GetResultStatus>)
        ensures
            status == match string_of_json_text(json@) {
                Some(name) => status_named(name),
                None => None,
            },
    {
        let name: String = match json_unquote(json.text.as_str()) {
            Some(name) => name,
            None => {
                return None;
            },
        };
        let found: String = "Found".to_owned();
        let not_found: String = "NotFound".to_owned();
        if name == found {
            Some(GetResultStatus::Found)
        } else if name == not_found {
            Some(GetResultStatus::NotFound)
        } else {
            None
        }
    }
}

impl GetEntryResult {
    /// The answer of a lookup that found the entry.
    pub fn found(entry_json: JsonString) -> (result: GetEntryResult)
        ensures
            result.status == GetResultStatus::Found,
            result.entry_json == entry_json,
    {
        GetEntryResult { status: GetResultStatus::Found, entry_json }
    }

    /// The answer of a lookup that found nothing: the entry is `null`.
    pub fn not_found() -> (result: GetEntryResult)
        ensures
            result.status == GetResultStatus::NotFound,
            result.entry_json@ == "null"@,
    {
        GetEntryResult { status: GetResultStatus::NotFound, entry_json: JsonString::none() }
    }
}

} // verus!
