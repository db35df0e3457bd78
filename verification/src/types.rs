//! The plain data that the parts of the library hand to one another.

use crate::text::{chars_of, find_from, find_in, string_of};
use vstd::prelude::*;

verus! {

/// Name of the folder, below the package root, that holds the unpacked tree.
pub const EXTRACTED_FOLDER_NAME: &'static str = "extracted";

/// Name of the summary file in the package root.
pub const SUMMARY_FILE_NAME: &'static str = "summary.json";

/// Name of the manifest in the package root.
pub const CUSTOM_XML_FILE_NAME: &'static str = "customXml.json";

/// What a preference holds before anything was chosen.
pub const NOT_AVAILABLE: &'static str = "N/A";

/// The part of `name` before its first dot; all of it when it has no dot.
pub open spec fn before_first_dot(name: Seq<char>) -> Seq<char> {
    match find_from(name, seq!['.'], 0) {
        Some(dot) => name.subrange(0, dot),
        None => name,
    }
}

/// What is known of a file from its path.
#[derive(Debug, Clone)]
pub struct FilePathInfo {
    /// Name of the file up to its first dot.
    pub file_name: String,
    /// Extension of the file, if it has one.
    pub file_extension: Option<String>,
    /// Name of the file with its extension.
    pub file_name_with_extension: String,
    /// Path of the folder that holds the file.
    pub file_path: String,
    /// Full path of the file.
    pub full_file_path: String,
    /// Size of the file in bytes.
    pub file_size: u64,
}

impl FilePathInfo {
    /// Puts together what is known of a file. The caller has taken the
    /// path apart and has looked up the size; the name without extension is
    /// the part of the name before its first dot.
    pub fn new(
        full_file_path: String,
        file_name_with_extension: String,
        file_extension: Option<String>,
        file_path: String,
        file_size: u64,
    ) -> (info: FilePathInfo)
        ensures
            info.file_name@ == before_first_dot(file_name_with_extension@),
            info.file_extension == file_extension,
            info.file_name_with_extension == file_name_with_extension,
            info.file_path == file_path,
            info.full_file_path == full_file_path,
            info.file_size == file_size,
    {
        let chars = chars_of(file_name_with_extension.as_str());
        let mut dot: Vec<char> = Vec::new();
        dot.push('.');
        assert(dot@ == seq!['.']);
        let file_name = match find_in(&chars, &dot, 0) {
            Some(at) => {
                proof {
                    crate::text::lemma_find_from_some(chars@, seq!['.'], 0);
                }
                string_of(&chars, 0, at)
            },
            None => {
                assert(chars@.subrange(0, chars.len() as int) == chars@);
                string_of(&chars, 0, chars.len())
            },
        };
        FilePathInfo {
            file_name,
            file_extension,
            file_name_with_extension,
            file_path,
            full_file_path,
            file_size,
        }
    }
}

/// The folders that a container is unpacked into.
#[derive(Debug, Clone)]
pub struct ZipFolder {
    /// The package root.
    pub root_folder: String,
    /// The folder of the unpacked tree.
    pub extracted_folder: String,
}

/// Where an element file lies and how large it is.
#[derive(Debug, Clone)]
pub struct FileInfo {
    /// Name of the file with its extension.
    pub file_name_with_extension: String,
    /// Full path of the file.
    pub full_file_path: String,
    /// Size of the file in hundredths of a kilobyte.
    pub file_size_in_kb_hundredths: u64,
}

/// What was chosen last: the feature and the paths.
#[derive(Debug, Clone)]
pub struct UserPreference {
    pub last_used_feature: String,
    pub last_used_file_path: String,
    /// Folder of the unpacked tree.
    pub last_used_extracted_folder_path: String,
    /// Path of the container that is written.
    pub last_used_output_file_path: String,
    /// The package root.
    pub last_used_root_folder_path: String,
}

/// The mathematical value of a `UserPreference`.
pub struct Preference {
    pub feature: Seq<char>,
    pub file_path: Seq<char>,
    pub extracted_folder_path: Seq<char>,
    pub output_file_path: Seq<char>,
    pub root_folder_path: Seq<char>,
}

impl View for UserPreference {
    type V = Preference;

    open spec fn view(&self) -> Preference {
        Preference {
            feature: self.last_used_feature@,
            file_path: self.last_used_file_path@,
            extracted_folder_path: self.last_used_extracted_folder_path@,
            output_file_path: self.last_used_output_file_path@,
            root_folder_path: self.last_used_root_folder_path@,
        }
    }
}

/// The preference of someone who has chosen nothing yet.
pub open spec fn blank_preference() -> Preference {
    Preference {
        feature: NOT_AVAILABLE@,
        file_path: NOT_AVAILABLE@,
        extracted_folder_path: NOT_AVAILABLE@,
        output_file_path: NOT_AVAILABLE@,
        root_folder_path: NOT_AVAILABLE@,
    }
}

impl UserPreference {
    /// The preference to start with: the stored one where there is one, else
    /// a blank one, which the caller then stores.
    pub fn new(stored: Option<UserPreference>) -> (preference: UserPreference)
        ensures
            match stored {
                Some(found) => preference == found,
                None => preference@ == blank_preference(),
            },
    {
        match stored {
            Some(found) => found,
            None => UserPreference {
                last_used_feature: NOT_AVAILABLE.to_owned(),
                last_used_file_path: NOT_AVAILABLE.to_owned(),
                last_used_extracted_folder_path: NOT_AVAILABLE.to_owned(),
                last_used_output_file_path: NOT_AVAILABLE.to_owned(),
                last_used_root_folder_path: NOT_AVAILABLE.to_owned(),
            },
        }
    }

    /// Takes `file_path` as the file that was used last. The caller stores
    /// the preference.
    pub fn save_last_used_file_path(&mut self, file_path: String)
        ensures
            final(self)@ == (Preference { file_path: file_path@, ..old(self)@ }),
    {
        self.last_used_file_path = file_path;
    }

    /// Takes `folder_path` as the folder of the unpacked tree that was used
    /// last. The caller stores the preference.
    pub fn save_last_used_folder_path(&mut self, folder_path: String)
        ensures
            final(self)@ == (Preference { extracted_folder_path: folder_path@, ..old(self)@ }),
    {
        self.last_used_extracted_folder_path = folder_path;
    }

    /// Takes `feature` as the feature that was used last. The caller stores
    /// the preference.
    pub fn save_last_used_feature(&mut self, feature: String)
        ensures
            final(self)@ == (Preference { feature: feature@, ..old(self)@ }),
    {
        self.last_used_feature = feature;
    }

    /// Takes `last_used_output_file_path` as the container that was written
    /// last. The caller stores the preference.
    pub fn save_last_used_output_file_path(&mut self, last_used_output_file_path: String)
        ensures
            final(self)@ == (Preference {
                output_file_path: last_used_output_file_path@,
                ..old(self)@
            }),
    {
        self.last_used_output_file_path = last_used_output_file_path;
    }

    /// Takes `root_folder_path` as the package root that was used last. The
    /// caller stores the preference.
    pub fn save_last_used_root_folder_path(&mut self, root_folder_path: String)
        ensures
            final(self)@ == (Preference { root_folder_path: root_folder_path@, ..old(self)@ }),
    {
        self.last_used_root_folder_path = root_folder_path;
    }
}

} // verus!
