//! The error type of the library.
//!
//! Reading and writing the binary formats reports I/O style errors (a kind
//! and a message); project and symbol handling reports the structured
//! variants. `message` renders an error the way it is displayed to users.
use vstd::prelude::*;
use crate::text::{dec, push_dec, push_str};

verus! {

/// The category of an I/O style error.
#[derive(Debug, Clone, Copy, PartialEq, Eq, Structural)]
pub enum ErrorKind {
    /// The data does not follow the expected format.
    InvalidData,
    /// An argument is out of range.
    InvalidInput,
    /// A requested item does not exist.
    NotFound,
    /// The data ended before a complete record was read.
    UnexpectedEof,
    /// Any other failure.
    Other,
}

/// Unified error type of the library.
#[derive(Debug, Clone)]
pub enum UxieError {
    /// I/O style error with its kind and message.
    Io { kind: ErrorKind, message: String },
    /// Invalid binary format (wrong magic bytes, corrupted data, etc.).
    InvalidFormat { message: String },
    /// Resource not found (map header, script, text bank, etc.).
    NotFound { resource_type: String, id: String },
    /// Index out of bounds.
    OutOfBounds { resource_type: String, id: u32, max: u32 },
    /// Project detection failed at the given path.
    ProjectDetectionFailed { path: String },
    /// Game detection failed.
    GameDetectionFailed,
    /// Symbol resolution failed.
    SymbolResolutionFailed { name: String },
    /// Missing required file or directory.
    MissingRequired { item_type: String, path: String },
}

/// The message of an `InvalidData` error.
pub open spec fn invalid_data_text(e: UxieError) -> Option<Seq<char>> {
    match e {
        UxieError::Io { kind: ErrorKind::InvalidData, message } => Some(message@),
        _ => None,
    }
}

impl UxieError {
    /// The kind an error maps to when reported as an I/O error.
    pub open spec fn spec_kind(&self) -> ErrorKind {
        match self {
            UxieError::Io { kind, .. } => *kind,
            UxieError::InvalidFormat { .. } => ErrorKind::InvalidData,
            UxieError::NotFound { .. } => ErrorKind::NotFound,
            UxieError::OutOfBounds { .. } => ErrorKind::InvalidInput,
            UxieError::ProjectDetectionFailed { .. } => ErrorKind::NotFound,
            UxieError::GameDetectionFailed => ErrorKind::InvalidData,
            UxieError::SymbolResolutionFailed { .. } => ErrorKind::NotFound,
            UxieError::MissingRequired { .. } => ErrorKind::NotFound,
        }
    }

    /// The text an error is displayed with.
    pub open spec fn spec_message(&self) -> Seq<char> {
        match self {
            UxieError::Io { message, .. } => "I/O error: "@ + message@,
            UxieError::InvalidFormat { message } => "Invalid format: "@ + message@,
            UxieError::NotFound { resource_type, id } => resource_type@ + " not found: "@ + id@,
            UxieError::OutOfBounds { resource_type, id, max } => resource_type@ + " ID "@ + dec(
                *id as nat,
            ) + " out of range (max: "@ + dec(*max as nat) + ")"@,
            UxieError::ProjectDetectionFailed { path } => "Could not detect project type at "@
                + path@,
            UxieError::GameDetectionFailed => "Could not detect game from ROM header"@,
            UxieError::SymbolResolutionFailed { name } => "Failed to resolve symbol: "@ + name@,
            UxieError::MissingRequired { item_type, path } => "Missing required "@ + item_type@
                + ": "@ + path@,
        }
    }

    /// An I/O style error of kind `InvalidData`.
    pub fn invalid_data(message: String) -> (e: Self)
        ensures
            e == (UxieError::Io { kind: ErrorKind::InvalidData, message }),
    {
        UxieError::Io { kind: ErrorKind::InvalidData, message }
    }

    /// An I/O style error for data that ended early.
    pub fn unexpected_eof() -> (e: Self)
        ensures
            e matches UxieError::Io { kind, message } && kind == ErrorKind::UnexpectedEof
                && message@ == "failed to fill whole buffer"@,
    {
        UxieError::Io { kind: ErrorKind::UnexpectedEof, message: String::from_str("failed to fill whole buffer") }
    }

    /// Create an InvalidFormat error with a message.
    pub fn invalid_format(message: &str) -> (e: Self)
        ensures
            e matches UxieError::InvalidFormat { message: m } && m@ == message@,
    {
        UxieError::InvalidFormat { message: String::from_str(message) }
    }

    /// Create a NotFound error.
    pub fn not_found(resource_type: &str, id: &str) -> (e: Self)
        ensures
            e matches UxieError::NotFound { resource_type: r, id: i } && r@ == resource_type@
                && i@ == id@,
    {
        UxieError::NotFound { resource_type: String::from_str(resource_type), id: String::from_str(id) }
    }

    /// Create an OutOfBounds error.
    pub fn out_of_bounds(resource_type: &str, id: u32, max: u32) -> (e: Self)
        ensures
            e matches UxieError::OutOfBounds { resource_type: r, id: i, max: m } && r@
                == resource_type@ && i == id && m == max,
    {
        UxieError::OutOfBounds { resource_type: String::from_str(resource_type), id, max }
    }

    /// Create a MissingRequired error for a file.
    pub fn missing_file(path: &str) -> (e: Self)
        ensures
            e matches UxieError::MissingRequired { item_type, path: p } && item_type@ == "file"@
                && p@ == path@,
    {
        UxieError::MissingRequired { item_type: String::from_str("file"), path: String::from_str(path) }
    }

    /// Create a MissingRequired error for a directory.
    pub fn missing_directory(path: &str) -> (e: Self)
        ensures
            e matches UxieError::MissingRequired { item_type, path: p } && item_type@
                == "directory"@ && p@ == path@,
    {
        UxieError::MissingRequired {
            item_type: String::from_str("directory"),
            path: String::from_str(path),
        }
    }

    /// The kind of this error when it is reported as an I/O error.
    pub fn kind(&self) -> (k: ErrorKind)
        ensures
            k == self.spec_kind(),
    {
        match self {
            UxieError::Io { kind, .. } => *kind,
            UxieError::InvalidFormat { .. } => ErrorKind::InvalidData,
            UxieError::NotFound { .. } => ErrorKind::NotFound,
            UxieError::OutOfBounds { .. } => ErrorKind::InvalidInput,
            UxieError::ProjectDetectionFailed { .. } => ErrorKind::NotFound,
            UxieError::GameDetectionFailed => ErrorKind::InvalidData,
            UxieError::SymbolResolutionFailed { .. } => ErrorKind::NotFound,
            UxieError::MissingRequired { .. } => ErrorKind::NotFound,
        }
    }

    /// The text this error is displayed with.
    pub fn message(&self) -> (s: String)
        ensures
            s@ == self.spec_message(),
    {
        let mut s = String::new();
        match self {
            UxieError::Io { message, .. } => {
                push_str(&mut s, "I/O error: ");
                push_str(&mut s, message.as_str());
            },
            UxieError::InvalidFormat { message } => {
                push_str(&mut s, "Invalid format: ");
                push_str(&mut s, message.as_str());
            },
            UxieError::NotFound { resource_type, id } => {
                push_str(&mut s, resource_type.as_str());
                push_str(&mut s, " not found: ");
                push_str(&mut s, id.as_str());
            },
            UxieError::OutOfBounds { resource_type, id, max } => {
                push_str(&mut s, resource_type.as_str());
                push_str(&mut s, " ID ");
                push_dec(&mut s, *id as u64);
                push_str(&mut s, " out of range (max: ");
                push_dec(&mut s, *max as u64);
                push_str(&mut s, ")");
            },
            UxieError::ProjectDetectionFailed { path } => {
                push_str(&mut s, "Could not detect project type at ");
                push_str(&mut s, path.as_str());
            },
            UxieError::GameDetectionFailed => {
                push_str(&mut s, "Could not detect game from ROM header");
            },
            UxieError::SymbolResolutionFailed { name } => {
                push_str(&mut s, "Failed to resolve symbol: ");
                push_str(&mut s, name.as_str());
            },
            UxieError::MissingRequired { item_type, path } => {
                push_str(&mut s, "Missing required ");
                push_str(&mut s, item_type.as_str());
                push_str(&mut s, ": ");
                push_str(&mut s, path.as_str());
            },
        }
        assert(s@ =~= self.spec_message());
        s
    }
}

} // verus!
