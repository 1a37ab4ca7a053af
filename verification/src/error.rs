//! Why an extraction fails, and the messages that say so.

use vstd::prelude::*;
use vstd::string::*;

verus! {

/// Why an extraction fails. Most causes hold the debug text of the error behind them.
#[derive(Debug)]
pub enum ExtractError {
    /// The manager cannot be created. Holds the whole message.
    CreateManager(String),
    /// An SAE cannot be added to the manager.
    AddSae(String),
    /// The network address of a KME cannot be added to the manager.
    AddKmeNetInfo(String),
    /// A key directory cannot be read.
    ReadDirectory(String),
    /// A path is not valid Unicode.
    PathNotUnicode,
    /// The metadata of a key file cannot be read.
    ReadMetadata(String),
    /// The path of a key file is something else than a file.
    NotAFile,
    /// A key file cannot be opened.
    OpenFile(String),
    /// A key of the file is refused.
    CreateKey(String),
    /// The keys cannot be stored.
    StoreKeys(String),
    /// A key file cannot be deleted once its keys are stored.
    DeleteFile(String),
    /// The watcher of a key directory cannot be created.
    CreateWatcher(String),
    /// A key directory cannot be watched. Holds the directory.
    WatchDirectory(String),
}

/// What `format!("{:?}", ..)` gives for a text: the text between quotes, with escapes.
pub uninterp spec fn debug_text(text: Seq<char>) -> Seq<char>;

/// The debug form of a text, by the `Debug` impl of `str`. It depends on the text alone; which
/// characters it escapes is not stated.
#[verifier::external_body]
fn debug_form(text: &str) -> (quoted: String)
    ensures
        quoted@ == debug_text(text@),
{
    format!("{:?}", text)
}

/// A message: a label, followed by the details.
pub fn labelled(label: &str, details: &str) -> (message: String)
    ensures
        message@ == label@ + details@,
{
    let mut message = label.to_owned();
    message.append(details);
    message
}

impl ExtractError {
    /// The message of the error.
    pub open spec fn text(&self) -> Seq<char> {
        match self {
            ExtractError::CreateManager(message) => message@,
            ExtractError::AddSae(e) => "Cannot add SAE config: "@ + e@,
            ExtractError::AddKmeNetInfo(e) => "Cannot add KME classical network info: "@ + e@,
            ExtractError::ReadDirectory(e) => "Cannot read directory: "@ + e@,
            ExtractError::PathNotUnicode => "Error converting path to string"@,
            ExtractError::ReadMetadata(e) => "Cannot read file metadata: "@ + e@,
            ExtractError::NotAFile => "Path is not a file"@,
            ExtractError::OpenFile(e) => "Cannot open file: "@ + e@,
            ExtractError::CreateKey(e) => "Cannot create QKD key: "@ + e@,
            ExtractError::StoreKeys(e) => "Cannot import QKD keys from file: "@ + e@,
            ExtractError::DeleteFile(e) => "Cannot delete file after reading: "@ + e@,
            ExtractError::CreateWatcher(e) => "Error creating watcher: "@ + e@,
            ExtractError::WatchDirectory(dir) => "Error watching directory: "@ + debug_text(dir@),
        }
    }

    /// The message of the error.
    pub fn message(&self) -> (message: String)
        ensures
            message@ == self.text(),
    {
        match self {
            ExtractError::CreateManager(message) => message.clone(),
            ExtractError::AddSae(e) => labelled("Cannot add SAE config: ", e.as_str()),
            ExtractError::AddKmeNetInfo(e) => labelled(
                "Cannot add KME classical network info: ",
                e.as_str(),
            ),
            ExtractError::ReadDirectory(e) => labelled("Cannot read directory: ", e.as_str()),
            ExtractError::PathNotUnicode => "Error converting path to string".to_owned(),
            ExtractError::ReadMetadata(e) => labelled("Cannot read file metadata: ", e.as_str()),
            ExtractError::NotAFile => "Path is not a file".to_owned(),
            ExtractError::OpenFile(e) => labelled("Cannot open file: ", e.as_str()),
            ExtractError::CreateKey(e) => labelled("Cannot create QKD key: ", e.as_str()),
            ExtractError::StoreKeys(e) => labelled(
                "Cannot import QKD keys from file: ",
                e.as_str(),
            ),
            ExtractError::DeleteFile(e) => labelled(
                "Cannot delete file after reading: ",
                e.as_str(),
            ),
            ExtractError::CreateWatcher(e) => labelled("Error creating watcher: ", e.as_str()),
            ExtractError::WatchDirectory(dir) => labelled(
                "Error watching directory: ",
                debug_form(dir.as_str()).as_str(),
            ),
        }
    }
}

/// Every message begins with what could not be done, and ends with the whole of the cause.
pub proof fn law_messages(cause: String)
    ensures
        ExtractError::CreateManager(cause).text() == cause@,
        ExtractError::AddSae(cause).text() == "Cannot add SAE config: "@ + cause@,
        ExtractError::AddKmeNetInfo(cause).text() == "Cannot add KME classical network info: "@
            + cause@,
        ExtractError::ReadDirectory(cause).text() == "Cannot read directory: "@ + cause@,
        ExtractError::PathNotUnicode.text() == "Error converting path to string"@,
        ExtractError::ReadMetadata(cause).text() == "Cannot read file metadata: "@ + cause@,
        ExtractError::NotAFile.text() == "Path is not a file"@,
        ExtractError::OpenFile(cause).text() == "Cannot open file: "@ + cause@,
        ExtractError::CreateKey(cause).text() == "Cannot create QKD key: "@ + cause@,
        ExtractError::StoreKeys(cause).text() == "Cannot import QKD keys from file: "@ + cause@,
        ExtractError::DeleteFile(cause).text() == "Cannot delete file after reading: "@ + cause@,
        ExtractError::CreateWatcher(cause).text() == "Error creating watcher: "@ + cause@,
        ExtractError::WatchDirectory(cause).text() == "Error watching directory: "@ + debug_text(
            cause@,
        ),
{
}

} // verus!
