//! What is decided before a container is unpacked or a folder is packed.
//! The unpacking and the packing themselves are the caller's.

use crate::input_utils::{answer_is_yes, is_yes};
use vstd::prelude::*;

verus! {

/// Why a container is not unpacked or a folder is not packed.
#[derive(Debug, Clone, Copy, PartialEq, Eq, Structural)]
pub enum ZipError {
    /// The package root exists already, and the user did not say yes to
    /// replacing it.
    Cancelled,
    /// The unpacked tree does not exist, and the user did not say yes to
    /// unpacking.
    ExtractedFolderMissing,
    /// What should be the unpacked tree is no directory.
    ExtractedFolderNotDirectory,
    /// What should be packed is no directory.
    FolderNotDirectory,
}

impl ZipError {
    /// The message shown for this failure.
    pub fn message(&self) -> (m: &'static str)
        ensures
            m@ == match *self {
                ZipError::Cancelled => "Operation cancelled"@,
                ZipError::ExtractedFolderMissing => "The extracted folder does not exist"@,
                ZipError::ExtractedFolderNotDirectory => "The extracted folder is not a directory"@,
                ZipError::FolderNotDirectory => "The folder path is not a directory"@,
            },
    {
        match self {
            ZipError::Cancelled => "Operation cancelled",
            ZipError::ExtractedFolderMissing => "The extracted folder does not exist",
            ZipError::ExtractedFolderNotDirectory => "The extracted folder is not a directory",
            ZipError::FolderNotDirectory => "The folder path is not a directory",
        }
    }
}

/// The view of an optional answer.
pub open spec fn answer_view(answer: Option<&str>) -> Option<Seq<char>> {
    match answer {
        Some(text) => Some(text@),
        None => None,
    }
}

/// Whether an answer was given and is a yes, no being the default.
pub open spec fn agreed(answer: Option<Seq<char>>) -> bool {
    answer is Some && is_yes(answer->0, false)
}

/// Whether `answer` was given and is a yes.
fn has_agreed(answer: Option<&str>) -> (yes: bool)
    ensures
        yes == agreed(answer_view(answer)),
{
    match answer {
        Some(text) => answer_is_yes(text, false),
        None => false,
    }
}

/// Decides how a container is unpacked. A package root that does not exist
/// yet is simply filled. One that exists is replaced when the user has
/// said yes to that; `override_answer` is the answer, `None` when the user
/// was not asked. The result tells whether the package root has to be
/// removed first.
pub fn extract_zip(output_exists: bool, override_answer: Option<&str>) -> (r: Result<
    bool,
    ZipError,
>)
    ensures
        r == if !output_exists {
            Ok::<bool, ZipError>(false)
        } else if agreed(answer_view(override_answer)) {
            Ok::<bool, ZipError>(true)
        } else {
            Err::<bool, ZipError>(ZipError::Cancelled)
        },
{
    if !output_exists {
        Ok(false)
    } else if has_agreed(override_answer) {
        Ok(true)
    } else {
        Err(ZipError::Cancelled)
    }
}

/// Decides what is done about the unpacked tree before it is read. One
/// that exists is read as it is. One that is missing is unpacked when the
/// user has said yes to that; `extract_answer` is the answer, `None` when
/// the user was not asked. The result tells whether the container has to
/// be unpacked first.
pub fn ensure_ooxml_exist(extracted_exists: bool, extract_answer: Option<&str>) -> (r: Result<
    bool,
    ZipError,
>)
    ensures
        r == if extracted_exists {
            Ok::<bool, ZipError>(false)
        } else if agreed(answer_view(extract_answer)) {
            Ok::<bool, ZipError>(true)
        } else {
            Err::<bool, ZipError>(ZipError::ExtractedFolderMissing)
        },
{
    if extracted_exists {
        Ok(false)
    } else if has_agreed(extract_answer) {
        Ok(true)
    } else {
        Err(ZipError::ExtractedFolderMissing)
    }
}

/// Decides whether the unpacked tree can be read: what lies at its path
/// must be a directory.
pub fn check_extracted_folder(is_directory: bool) -> (r: Result<(), ZipError>)
    ensures
        r == if is_directory {
            Ok::<(), ZipError>(())
        } else {
            Err::<(), ZipError>(ZipError::ExtractedFolderNotDirectory)
        },
{
    if is_directory {
        Ok(())
    } else {
        Err(ZipError::ExtractedFolderNotDirectory)
    }
}

/// Decides whether a folder can be packed: it must be a directory.
pub fn rezip_folder(folder_is_directory: bool) -> (r: Result<(), ZipError>)
    ensures
        r == if folder_is_directory {
            Ok::<(), ZipError>(())
        } else {
            Err::<(), ZipError>(ZipError::FolderNotDirectory)
        },
{
    if folder_is_directory {
        Ok(())
    } else {
        Err(ZipError::FolderNotDirectory)
    }
}

} // verus!
