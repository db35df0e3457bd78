//! What is made of the answers that the user types: which path is meant,
//! which feature is meant, and whether an answer is a yes.

use crate::text::same_text;
use crate::types::{Preference, UserPreference};
use vstd::prelude::*;

verus! {

/// What an answer to a question for a path stands for: the answer itself,
/// or, for an empty answer, the path that was used last.
pub open spec fn chosen(input: Seq<char>, last: Seq<char>) -> Seq<char> {
    if input.len() == 0 {
        last
    } else {
        input
    }
}

/// Whether an answer changes what was used last: it is not empty and
/// differs from it.
pub open spec fn changes(input: Seq<char>, last: Seq<char>) -> bool {
    input.len() != 0 && input != last
}

/// An answer together with whether the preference has changed and has to be
/// stored.
#[derive(Debug, Clone)]
pub struct Choice {
    /// What the answer stands for.
    pub value: String,
    /// Whether the preference has changed.
    pub changed: bool,
}

/// Takes the answer to the question for the file. An empty answer stands
/// for the file that was used last; any other answer becomes the file that
/// was used last.
pub fn get_file_path_from_input(user_preference: &mut UserPreference, input_path: String) -> (choice:
    Choice)
    ensures
        choice.value@ == chosen(input_path@, old(user_preference)@.file_path),
        choice.changed == changes(input_path@, old(user_preference)@.file_path),
        final(user_preference)@ == (Preference { file_path: choice.value@, ..old(user_preference)@ }),
{
    if input_path.as_str().is_empty() {
        Choice { value: user_preference.last_used_file_path.clone(), changed: false }
    } else {
        let changed = !same_text(
            input_path.as_str(),
            user_preference.last_used_file_path.as_str(),
        );
        user_preference.save_last_used_file_path(input_path.clone());
        Choice { value: input_path, changed }
    }
}

/// Takes the answer to the question for the folder that is packed. An empty
/// answer stands for the folder that was used last; any other answer
/// becomes the folder that was used last.
pub fn get_folder_path_from_input_for_rezip(
    user_preference: &mut UserPreference,
    input_path: String,
) -> (choice: Choice)
    ensures
        choice.value@ == chosen(input_path@, old(user_preference)@.extracted_folder_path),
        choice.changed == changes(input_path@, old(user_preference)@.extracted_folder_path),
        final(user_preference)@ == (Preference {
            extracted_folder_path: choice.value@,
            ..old(user_preference)@
        }),
{
    if input_path.as_str().is_empty() {
        Choice { value: user_preference.last_used_extracted_folder_path.clone(), changed: false }
    } else {
        let changed = !same_text(
            input_path.as_str(),
            user_preference.last_used_extracted_folder_path.as_str(),
        );
        user_preference.save_last_used_folder_path(input_path.clone());
        Choice { value: input_path, changed }
    }
}

/// Takes the answer to the question for the container that is written. An
/// empty answer stands for the container that was written last; any other
/// answer becomes the container that was written last.
pub fn get_output_file_path_from_input_for_rezip(
    user_preference: &mut UserPreference,
    input_path: String,
) -> (choice: Choice)
    ensures
        choice.value@ == chosen(input_path@, old(user_preference)@.output_file_path),
        choice.changed == changes(input_path@, old(user_preference)@.output_file_path),
        final(user_preference)@ == (Preference {
            output_file_path: choice.value@,
            ..old(user_preference)@
        }),
{
    if input_path.as_str().is_empty() {
        Choice { value: user_preference.last_used_output_file_path.clone(), changed: false }
    } else {
        let changed = !same_text(
            input_path.as_str(),
            user_preference.last_used_output_file_path.as_str(),
        );
        user_preference.save_last_used_output_file_path(input_path.clone());
        Choice { value: input_path, changed }
    }
}

/// Takes the answer to the question for the package root. An empty answer
/// stands for the root that was used last; any other answer becomes the
/// root that was used last.
pub fn get_extracted_root_folder_path(
    user_preference: &mut UserPreference,
    input_path: String,
) -> (choice: Choice)
    ensures
        choice.value@ == chosen(input_path@, old(user_preference)@.root_folder_path),
        choice.changed == changes(input_path@, old(user_preference)@.root_folder_path),
        final(user_preference)@ == (Preference {
            root_folder_path: choice.value@,
            ..old(user_preference)@
        }),
{
    if input_path.as_str().is_empty() {
        Choice { value: user_preference.last_used_root_folder_path.clone(), changed: false }
    } else {
        let changed = !same_text(
            input_path.as_str(),
            user_preference.last_used_root_folder_path.as_str(),
        );
        user_preference.save_last_used_root_folder_path(input_path.clone());
        Choice { value: input_path, changed }
    }
}

/// What the program can do.
#[derive(Debug, Clone, Copy, PartialEq, Eq, Structural)]
pub enum Feature {
    Extract,
    Rezip,
    Summarize,
    AnalyzeCustomXml,
    SyncCustomXml,
    WatchFolder,
}

/// The answer names no feature.
#[derive(Debug, Clone, Copy, PartialEq, Eq, Structural)]
pub struct InvalidFeature;

impl InvalidFeature {
    /// The message shown for this failure.
    pub fn message(&self) -> (m: &'static str)
        ensures
            m@ == "Invalid feature"@,
    {
        "Invalid feature"
    }
}

/// The feature that a number of the menu names.
pub open spec fn feature_of(number: Seq<char>) -> Option<Feature> {
    if number == "1"@ {
        Some(Feature::Extract)
    } else if number == "2"@ {
        Some(Feature::Rezip)
    } else if number == "3"@ {
        Some(Feature::Summarize)
    } else if number == "4"@ {
        Some(Feature::AnalyzeCustomXml)
    } else if number == "5"@ {
        Some(Feature::SyncCustomXml)
    } else if number == "6"@ {
        Some(Feature::WatchFolder)
    } else {
        None
    }
}

/// The feature that `number` names.
pub fn parse_feature(number: &str) -> (feature: Option<Feature>)
    ensures
        feature == feature_of(number@),
{
    if same_text(number, "1") {
        Some(Feature::Extract)
    } else if same_text(number, "2") {
        Some(Feature::Rezip)
    } else if same_text(number, "3") {
        Some(Feature::Summarize)
    } else if same_text(number, "4") {
        Some(Feature::AnalyzeCustomXml)
    } else if same_text(number, "5") {
        Some(Feature::SyncCustomXml)
    } else if same_text(number, "6") {
        Some(Feature::WatchFolder)
    } else {
        None
    }
}

/// A feature, or the failure to name one, together with whether the
/// preference has changed and has to be stored.
#[derive(Debug, Clone, Copy)]
pub struct FeatureChoice {
    pub feature: Result<Feature, InvalidFeature>,
    pub changed: bool,
}

/// Takes the answer to the menu. An empty answer stands for the feature
/// that was used last; any other answer becomes the feature that was used
/// last, whether it names a feature or not. What the answer stands for must
/// be one of the numbers of the menu.
pub fn get_fn_to_call(user_preference: &mut UserPreference, input_feature: String) -> (choice:
    FeatureChoice)
    ensures
        choice.changed == changes(input_feature@, old(user_preference)@.feature),
        final(user_preference)@ == (Preference {
            feature: chosen(input_feature@, old(user_preference)@.feature),
            ..old(user_preference)@
        }),
        match feature_of(chosen(input_feature@, old(user_preference)@.feature)) {
            Some(feature) => choice.feature == Ok::<Feature, InvalidFeature>(feature),
            None => choice.feature is Err,
        },
{
    let mut changed = false;
    if !input_feature.as_str().is_empty() {
        changed = !same_text(input_feature.as_str(), user_preference.last_used_feature.as_str());
        user_preference.save_last_used_feature(input_feature);
    }
    let feature = match parse_feature(user_preference.last_used_feature.as_str()) {
        Some(feature) => Ok(feature),
        None => Err(InvalidFeature),
    };
    FeatureChoice { feature, changed }
}

/// Whether an answer to a question with yes and no is a yes. Where yes is
/// the default, every answer but `n` and `N` is a yes; where no is the
/// default, only `y` and `Y` are.
pub open spec fn is_yes(answer: Seq<char>, default_yes: bool) -> bool {
    if default_yes {
        answer != seq!['n'] && answer != seq!['N']
    } else {
        answer == seq!['y'] || answer == seq!['Y']
    }
}

/// Whether `answer` is a yes.
pub fn answer_is_yes(answer: &str, default_yes: bool) -> (yes: bool)
    ensures
        yes == is_yes(answer@, default_yes),
{
    let chars = crate::text::chars_of(answer);
    if chars.len() != 1 {
        assert(chars@.len() != seq!['n'].len());
        return default_yes;
    }
    let c = chars[0];
    assert(chars@ == seq![c]);
    if default_yes {
        assert(seq![c] == seq!['n'] <==> c == 'n') by {
            if c != 'n' {
                assert(seq![c][0] != seq!['n'][0]);
            }
        }
        assert(seq![c] == seq!['N'] <==> c == 'N') by {
            if c != 'N' {
                assert(seq![c][0] != seq!['N'][0]);
            }
        }
        c != 'n' && c != 'N'
    } else {
        assert(seq![c] == seq!['y'] <==> c == 'y') by {
            if c != 'y' {
                assert(seq![c][0] != seq!['y'][0]);
            }
        }
        assert(seq![c] == seq!['Y'] <==> c == 'Y') by {
            if c != 'Y' {
                assert(seq![c][0] != seq!['Y'][0]);
            }
        }
        c == 'y' || c == 'Y'
    }
}

} // verus!
