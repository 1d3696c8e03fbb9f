//! What can go wrong, and how each failure reads.

use vstd::prelude::*;
use vstd::string::StringExecFns;

verus! {

/// A failure of the sync engine. Each kind carries its detail as text.
#[derive(Debug, Clone, PartialEq, Eq)]
pub enum RingsideError {
    /// The configuration file is not there.
    ConfigNotFound(String),
    /// The configuration file cannot be read as a configuration.
    ConfigParse(String),
    /// There is a configuration file already.
    ConfigAlreadyExists(String),
    /// Git could not fetch a source.
    GitError(String),
    /// A directory could not be created.
    DirectoryCreation(String),
    /// The content could not be placed.
    FileCopy(String),
    /// The subpath that was asked for is not in what was fetched from the
    /// source at `url`.
    SubpathNotFound { url: String, path: String },
    /// A source with this address and this destination is declared already.
    DuplicateSource,
    /// The file system failed.
    Io(String),
    /// A value could not be written out.
    Serialize(String),
}

/// What a [`RingsideError`] holds, as text.
pub enum ErrorText {
    ConfigNotFound(Seq<char>),
    ConfigParse(Seq<char>),
    ConfigAlreadyExists(Seq<char>),
    GitError(Seq<char>),
    DirectoryCreation(Seq<char>),
    FileCopy(Seq<char>),
    SubpathNotFound { url: Seq<char>, path: Seq<char> },
    DuplicateSource,
    Io(Seq<char>),
    Serialize(Seq<char>),
}

/// How a missing subpath is described.
pub open spec fn missing_subpath_detail(path: Seq<char>, url: Seq<char>) -> Seq<char> {
    "Path '"@ + path + "' not found in "@ + url
}

/// How a source that is declared already is described.
pub open spec fn duplicate_detail() -> Seq<char> {
    "Source already exists in config"@
}

impl ErrorText {
    /// The failure as it is shown: a heading, then the detail. A missing
    /// subpath is shown among the failures to place content, a duplicate
    /// source among those of the configuration.
    pub open spec fn shown(self) -> Seq<char> {
        match self {
            ErrorText::ConfigNotFound(d) => "Config file not found: "@ + d,
            ErrorText::ConfigParse(d) => "Failed to parse config: "@ + d,
            ErrorText::ConfigAlreadyExists(d) => "Config file already exists: "@ + d,
            ErrorText::GitError(d) => "Git operation failed: "@ + d,
            ErrorText::DirectoryCreation(d) => "Failed to create directory: "@ + d,
            ErrorText::FileCopy(d) => "Failed to copy files: "@ + d,
            ErrorText::SubpathNotFound { url, path } => "Failed to copy files: "@
                + missing_subpath_detail(path, url),
            ErrorText::DuplicateSource => "Failed to parse config: "@ + duplicate_detail(),
            ErrorText::Io(d) => "IO error: "@ + d,
            ErrorText::Serialize(d) => "Serialization error: "@ + d,
        }
    }
}

impl View for RingsideError {
    type V = ErrorText;

    open spec fn view(&self) -> ErrorText {
        match self {
            RingsideError::ConfigNotFound(d) => ErrorText::ConfigNotFound(d@),
            RingsideError::ConfigParse(d) => ErrorText::ConfigParse(d@),
            RingsideError::ConfigAlreadyExists(d) => ErrorText::ConfigAlreadyExists(d@),
            RingsideError::GitError(d) => ErrorText::GitError(d@),
            RingsideError::DirectoryCreation(d) => ErrorText::DirectoryCreation(d@),
            RingsideError::FileCopy(d) => ErrorText::FileCopy(d@),
            RingsideError::SubpathNotFound { url, path } => ErrorText::SubpathNotFound {
                url: url@,
                path: path@,
            },
            RingsideError::DuplicateSource => ErrorText::DuplicateSource,
            RingsideError::Io(d) => ErrorText::Io(d@),
            RingsideError::Serialize(d) => ErrorText::Serialize(d@),
        }
    }
}

/// A heading and a detail, as one text.
fn headed(heading: &str, detail: &str) -> (r: String)
    ensures
        r@ == heading@ + detail@,
{
    let mut r = String::from_str(heading);
    r.append(detail);
    r
}

impl RingsideError {
    /// The failure as it is shown to the user.
    pub fn message(&self) -> (r: String)
        ensures
            r@ == self@.shown(),
    {
        match self {
            RingsideError::ConfigNotFound(d) => headed("Config file not found: ", d.as_str()),
            RingsideError::ConfigParse(d) => headed("Failed to parse config: ", d.as_str()),
            RingsideError::ConfigAlreadyExists(d) => headed(
                "Config file already exists: ",
                d.as_str(),
            ),
            RingsideError::GitError(d) => headed("Git operation failed: ", d.as_str()),
            RingsideError::DirectoryCreation(d) => headed(
                "Failed to create directory: ",
                d.as_str(),
            ),
            RingsideError::FileCopy(d) => headed("Failed to copy files: ", d.as_str()),
            RingsideError::SubpathNotFound { url, path } => {
                let mut detail = String::from_str("Path '");
                detail.append(path.as_str());
                detail.append("' not found in ");
                detail.append(url.as_str());
                headed("Failed to copy files: ", detail.as_str())
            },
            RingsideError::DuplicateSource => headed(
                "Failed to parse config: ",
                "Source already exists in config",
            ),
            RingsideError::Io(d) => headed("IO error: ", d.as_str()),
            RingsideError::Serialize(d) => headed("Serialization error: ", d.as_str()),
        }
    }
}

} // verus!
