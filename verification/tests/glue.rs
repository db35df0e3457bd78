use word_utils::input_utils::{
    answer_is_yes, get_extracted_root_folder_path, get_file_path_from_input, get_fn_to_call,
    get_folder_path_from_input_for_rezip, get_output_file_path_from_input_for_rezip,
    parse_feature, Feature, InvalidFeature,
};
use word_utils::print_utils::{compose_error_message, get_error_message};
use word_utils::summarize::summarize;
use word_utils::sync_custom_xml::unpacked_folder;
use word_utils::types::{
    FilePathInfo, UserPreference, CUSTOM_XML_FILE_NAME, EXTRACTED_FOLDER_NAME, SUMMARY_FILE_NAME,
};
use word_utils::zip_utils::{
    check_extracted_folder, ensure_ooxml_exist, extract_zip, rezip_folder, ZipError,
};

#[test]
fn names_of_the_package_are_fixed() {
    assert_eq!(EXTRACTED_FOLDER_NAME, "extracted");
    assert_eq!(SUMMARY_FILE_NAME, "summary.json");
    assert_eq!(CUSTOM_XML_FILE_NAME, "customXml.json");
}

#[test]
fn blank_preference_holds_not_available_everywhere() {
    let p = UserPreference::new(None);
    assert_eq!(p.last_used_feature, "N/A");
    assert_eq!(p.last_used_file_path, "N/A");
    assert_eq!(p.last_used_extracted_folder_path, "N/A");
    assert_eq!(p.last_used_output_file_path, "N/A");
    assert_eq!(p.last_used_root_folder_path, "N/A");
    let mut stored = UserPreference::new(None);
    stored.save_last_used_feature("3".to_string());
    let p = UserPreference::new(Some(stored));
    assert_eq!(p.last_used_feature, "3");
}

#[test]
fn each_preference_is_saved_to_its_own_field() {
    let mut p = UserPreference::new(None);
    p.save_last_used_file_path("a".to_string());
    p.save_last_used_folder_path("b".to_string());
    p.save_last_used_feature("c".to_string());
    p.save_last_used_output_file_path("d".to_string());
    p.save_last_used_root_folder_path("e".to_string());
    assert_eq!(p.last_used_file_path, "a");
    assert_eq!(p.last_used_extracted_folder_path, "b");
    assert_eq!(p.last_used_feature, "c");
    assert_eq!(p.last_used_output_file_path, "d");
    assert_eq!(p.last_used_root_folder_path, "e");
}

#[test]
fn empty_answer_stands_for_what_was_used_last() {
    let mut p = UserPreference::new(None);
    p.save_last_used_file_path("old.docx".to_string());
    let choice = get_file_path_from_input(&mut p, "".to_string());
    assert_eq!(choice.value, "old.docx");
    assert!(!choice.changed);
    assert_eq!(p.last_used_file_path, "old.docx");
    let choice = get_file_path_from_input(&mut p, "old.docx".to_string());
    assert_eq!(choice.value, "old.docx");
    assert!(!choice.changed);
    let choice = get_file_path_from_input(&mut p, "new.docx".to_string());
    assert_eq!(choice.value, "new.docx");
    assert!(choice.changed);
    assert_eq!(p.last_used_file_path, "new.docx");
}

#[test]
fn each_question_has_its_own_preference() {
    let mut p = UserPreference::new(None);
    let c = get_folder_path_from_input_for_rezip(&mut p, "folder".to_string());
    assert!(c.changed);
    let c = get_output_file_path_from_input_for_rezip(&mut p, "out.docx".to_string());
    assert!(c.changed);
    let c = get_extracted_root_folder_path(&mut p, "root".to_string());
    assert!(c.changed);
    assert_eq!(p.last_used_extracted_folder_path, "folder");
    assert_eq!(p.last_used_output_file_path, "out.docx");
    assert_eq!(p.last_used_root_folder_path, "root");
    assert_eq!(p.last_used_file_path, "N/A");
    assert_eq!(get_folder_path_from_input_for_rezip(&mut p, "".to_string()).value, "folder");
    assert_eq!(get_output_file_path_from_input_for_rezip(&mut p, "".to_string()).value, "out.docx");
    assert_eq!(get_extracted_root_folder_path(&mut p, "".to_string()).value, "root");
}

#[test]
fn menu_numbers_name_the_features() {
    assert_eq!(parse_feature("1"), Some(Feature::Extract));
    assert_eq!(parse_feature("2"), Some(Feature::Rezip));
    assert_eq!(parse_feature("3"), Some(Feature::Summarize));
    assert_eq!(parse_feature("4"), Some(Feature::AnalyzeCustomXml));
    assert_eq!(parse_feature("5"), Some(Feature::SyncCustomXml));
    assert_eq!(parse_feature("6"), Some(Feature::WatchFolder));
    assert_eq!(parse_feature("7"), None);
    assert_eq!(parse_feature(""), None);
    assert_eq!(parse_feature(" 1"), None);
    assert_eq!(InvalidFeature.message(), "Invalid feature");
}

#[test]
fn menu_answer_is_kept_as_the_last_feature() {
    let mut p = UserPreference::new(None);
    let c = get_fn_to_call(&mut p, "".to_string());
    assert!(c.feature.is_err());
    assert!(!c.changed);
    assert_eq!(p.last_used_feature, "N/A");
    let c = get_fn_to_call(&mut p, "5".to_string());
    assert_eq!(c.feature, Ok(Feature::SyncCustomXml));
    assert!(c.changed);
    assert_eq!(p.last_used_feature, "5");
    let c = get_fn_to_call(&mut p, "".to_string());
    assert_eq!(c.feature, Ok(Feature::SyncCustomXml));
    assert!(!c.changed);
    let c = get_fn_to_call(&mut p, "x".to_string());
    assert_eq!(c.feature, Err(InvalidFeature));
    assert!(c.changed);
    assert_eq!(p.last_used_feature, "x");
}

#[test]
fn yes_and_no_follow_the_default() {
    assert!(answer_is_yes("", true));
    assert!(answer_is_yes("y", true));
    assert!(answer_is_yes("anything", true));
    assert!(!answer_is_yes("n", true));
    assert!(!answer_is_yes("N", true));
    assert!(answer_is_yes("no", true));
    assert!(answer_is_yes("y", false));
    assert!(answer_is_yes("Y", false));
    assert!(!answer_is_yes("", false));
    assert!(!answer_is_yes("yes", false));
    assert!(!answer_is_yes("n", false));
}

#[test]
fn error_line_has_three_parts() {
    assert_eq!(compose_error_message("x", "ERROR", "it broke"), "x ERROR it broke");
    let line = get_error_message("it broke");
    assert!(line.contains("ERROR"));
    assert!(line.contains("it broke"));
    assert!(line.contains('\u{2717}'));
    let plain: String = {
        let mut out = String::new();
        let mut skip = false;
        for c in line.chars() {
            if c == '\u{1b}' {
                skip = true;
            } else if skip {
                if c == 'm' {
                    skip = false;
                }
            } else {
                out.push(c);
            }
        }
        out
    };
    assert_eq!(plain, "\u{2717} ERROR it broke");
}

fn file(name: &str, extension: Option<&str>, size: u64) -> FilePathInfo {
    FilePathInfo::new(
        format!("root/extracted/{}", name),
        name.to_string(),
        extension.map(|e| e.to_string()),
        "root/extracted".to_string(),
        size,
    )
}

#[test]
fn summary_counts_files_and_lists_images_and_element_files() {
    let container = FilePathInfo::new(
        "docs/report.docx".to_string(),
        "report.docx".to_string(),
        Some("docx".to_string()),
        "docs".to_string(),
        10240,
    );
    let files = vec![
        file("document.xml", Some("xml"), 4096),
        file("image1.png", Some("png"), 1024),
        file("item1.xml", Some("xml"), 1234),
        file("photo.JPG", Some("JPG"), 99),
        file("image2.jpeg", Some("jpeg"), 1536),
        file("README", None, 1),
        file("item22.xml", Some("xml"), 0),
    ];
    let summary = summarize(&container, &files);
    assert_eq!(summary.file_count, 7);
    assert_eq!(summary.basic_info.file_name, "report");
    assert_eq!(summary.basic_info.file_path, "docs");
    assert_eq!(summary.basic_info.file_size_in_kb_hundredths, 1000);
    assert_eq!(summary.media_info.file_count, 2);
    assert_eq!(summary.media_info.total_size_in_kb_hundredths, 250);
    assert_eq!(summary.media_info.files[0].file_name, "image1");
    assert_eq!(summary.media_info.files[1].file_name, "image2");
    assert_eq!(summary.media_info.files[1].file_size_in_kb_hundredths, 150);
    assert_eq!(summary.custom_xml_files.len(), 2);
    assert_eq!(summary.custom_xml_files[0].file_name, "item1");
    assert_eq!(summary.custom_xml_files[0].file_size_in_kb_hundredths, 121);
    assert_eq!(summary.custom_xml_files[1].file_name, "item22");
    assert_eq!(summary.custom_xml_files[1].file_path, "root/extracted");
}

#[test]
fn unpacked_tree_lies_in_the_package_root() {
    assert_eq!(unpacked_folder("docs/report"), "docs/report/extracted");
}

#[test]
fn existing_package_root_is_replaced_only_on_yes() {
    assert_eq!(extract_zip(false, None), Ok(false));
    assert_eq!(extract_zip(false, Some("n")), Ok(false));
    assert_eq!(extract_zip(true, Some("y")), Ok(true));
    assert_eq!(extract_zip(true, Some("Y")), Ok(true));
    assert_eq!(extract_zip(true, Some("")), Err(ZipError::Cancelled));
    assert_eq!(extract_zip(true, Some("yes")), Err(ZipError::Cancelled));
    assert_eq!(extract_zip(true, None), Err(ZipError::Cancelled));
    assert_eq!(ZipError::Cancelled.message(), "Operation cancelled");
}

#[test]
fn missing_unpacked_tree_is_unpacked_only_on_yes() {
    assert_eq!(ensure_ooxml_exist(true, None), Ok(false));
    assert_eq!(ensure_ooxml_exist(false, Some("y")), Ok(true));
    assert_eq!(ensure_ooxml_exist(false, Some("n")), Err(ZipError::ExtractedFolderMissing));
    assert_eq!(ensure_ooxml_exist(false, None), Err(ZipError::ExtractedFolderMissing));
    assert_eq!(
        ZipError::ExtractedFolderMissing.message(),
        "The extracted folder does not exist"
    );
    assert_eq!(
        ZipError::ExtractedFolderNotDirectory.message(),
        "The extracted folder is not a directory"
    );
    assert_eq!(ZipError::FolderNotDirectory.message(), "The folder path is not a directory");
}

#[test]
fn only_directories_are_read_and_packed() {
    assert_eq!(check_extracted_folder(true), Ok(()));
    assert_eq!(check_extracted_folder(false), Err(ZipError::ExtractedFolderNotDirectory));
    assert_eq!(rezip_folder(true), Ok(()));
    assert_eq!(rezip_folder(false), Err(ZipError::FolderNotDirectory));
}

#[test]
fn error_line_shows_the_message_whole() {
    for message in ["it broke", "", "two  spaces and \u{e9}", "50% [done] m"] {
        let line = get_error_message(message);
        assert!(line.ends_with(message) || line.ends_with(&format!("{}\u{1b}[0m", message)));
        assert!(line.contains(&format!("ERROR")));
        assert_eq!(line.matches(' ').count(), 2 + message.matches(' ').count());
    }
}
