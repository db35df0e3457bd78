use word_utils::files::{
    get_file_size_in_kb_from_bytes, get_output_folder, is_file_custom_xml, is_image_extension,
};
use word_utils::types::{FilePathInfo, EXTRACTED_FOLDER_NAME};

#[test]
fn test_is_file_custom_xml() {
    // Valid custom XML files
    assert!(is_file_custom_xml("item1.xml"));
    assert!(is_file_custom_xml("item123.xml"));
    assert!(is_file_custom_xml("item0.xml"));
    assert!(is_file_custom_xml("item999.xml"));

    // Invalid custom XML files
    assert!(!is_file_custom_xml("item.xml")); // missing number
    assert!(!is_file_custom_xml("item1a.xml")); // contains letter
    assert!(!is_file_custom_xml("item1")); // missing .xml extension
    assert!(!is_file_custom_xml("item1.XML")); // wrong case
    assert!(!is_file_custom_xml("item1.txt")); // wrong extension
    assert!(!is_file_custom_xml("custom.xml")); // wrong prefix
    assert!(!is_file_custom_xml("itemProps1.xml")); // wrong prefix (as mentioned in doc)
    assert!(!is_file_custom_xml("")); // empty string
    assert!(!is_file_custom_xml("item.xml.bak")); // extra extension
}

#[test]
fn test_get_file_size_in_kb_from_bytes() {
    fn kb(bytes: u64) -> f64 {
        get_file_size_in_kb_from_bytes(bytes) as f64 / 100.0
    }
    // Test exact conversions
    assert_eq!(kb(0), 0.0);
    assert_eq!(kb(1024), 1.0);
    assert_eq!(kb(2048), 2.0);
    assert_eq!(kb(5120), 5.0);

    // Test with remainders (should round to 2 decimal places)
    assert_eq!(kb(1023), 1.0); // 0.999KB -> 1.0KB
    assert_eq!(kb(1536), 1.5); // 1.5KB -> 1.5KB
    assert_eq!(kb(2047), 2.0); // 1.999KB -> 2.0KB
    assert_eq!(kb(2049), 2.0); // 2.001KB -> 2.0KB

    // Test larger values
    assert_eq!(kb(1024 * 1024), 1024.0); // 1MB
    assert_eq!(kb(1024 * 1024 * 5), 5120.0); // 5MB

    // Test rounding to 2 decimal places
    assert_eq!(kb(1536), 1.5); // 1536 bytes = 1.5 KB
    assert_eq!(kb(2560), 2.5); // 2560 bytes = 2.5 KB
    assert_eq!(kb(1234), 1.21); // 1234 bytes = 1.205... KB -> 1.21 KB (rounded)
}

#[test]
fn test_is_image_extension() {
    // Valid image extensions (case sensitive)
    assert!(is_image_extension("jpg"));
    assert!(is_image_extension("jpeg"));
    assert!(is_image_extension("png"));
    assert!(is_image_extension("gif"));
    assert!(is_image_extension("bmp"));
    assert!(is_image_extension("tiff"));
    assert!(is_image_extension("ico"));

    // Invalid extensions
    assert!(!is_image_extension("JPG")); // wrong case
    assert!(!is_image_extension("PNG")); // wrong case
    assert!(!is_image_extension("webp")); // not supported
    assert!(!is_image_extension("svg")); // not supported
    assert!(!is_image_extension("pdf")); // not an image
    assert!(!is_image_extension("txt")); // not an image
    assert!(!is_image_extension("")); // empty string
    assert!(!is_image_extension("jpegx")); // invalid variant
    assert!(!is_image_extension("png.")); // with dot
    assert!(!is_image_extension(".png")); // with leading dot
}

#[test]
fn test_get_output_folder() {
    let file_path_info = FilePathInfo::new(
        "/tmp/.local/test_document.docx".to_string(),
        "test_document.docx".to_string(),
        Some("docx".to_string()),
        "/tmp/.local".to_string(),
        12,
    );

    let zip_folder = get_output_folder(&file_path_info);

    // Verify the structure
    assert!(zip_folder.root_folder.contains(&file_path_info.file_name));
    assert!(zip_folder.extracted_folder.contains(EXTRACTED_FOLDER_NAME));
    assert!(zip_folder.extracted_folder.contains(&zip_folder.root_folder));
    assert_eq!(zip_folder.root_folder, "/tmp/.local/test_document");
    assert_eq!(zip_folder.extracted_folder, "/tmp/.local/test_document/extracted");
}

#[test]
fn file_size_is_rounded_half_up_to_hundredths() {
    assert_eq!(get_file_size_in_kb_from_bytes(0), 0);
    assert_eq!(get_file_size_in_kb_from_bytes(5), 0);
    assert_eq!(get_file_size_in_kb_from_bytes(6), 1);
    assert_eq!(get_file_size_in_kb_from_bytes(1024), 100);
    assert_eq!(get_file_size_in_kb_from_bytes(1234), 121);
    assert_eq!(get_file_size_in_kb_from_bytes(u64::MAX), 1801439850948198400);
}

#[test]
fn element_file_names_may_have_digits_of_any_script() {
    assert!(is_file_custom_xml("item\u{661}\u{662}.xml"));
    assert!(is_file_custom_xml("item1\u{ff13}.xml"));
    assert!(!is_file_custom_xml("item\u{e9}.xml"));
    assert!(!is_file_custom_xml("item\u{2160}.xml"));
    assert!(!is_file_custom_xml("item1.xml\n"));
    assert!(!is_file_custom_xml("xitem1.xml"));
}

#[test]
fn file_name_ends_at_the_first_dot() {
    let info = FilePathInfo::new(
        "a/b/report.final.docx".to_string(),
        "report.final.docx".to_string(),
        Some("docx".to_string()),
        "a/b".to_string(),
        2048,
    );
    assert_eq!(info.file_name, "report");
    assert_eq!(info.file_name_with_extension, "report.final.docx");
    assert_eq!(info.file_extension, Some("docx".to_string()));
    assert_eq!(info.file_path, "a/b");
    assert_eq!(info.full_file_path, "a/b/report.final.docx");
    assert_eq!(info.file_size, 2048);
    let bare = FilePathInfo::new("x/README".to_string(), "README".to_string(), None, "x".to_string(), 0);
    assert_eq!(bare.file_name, "README");
    let hidden = FilePathInfo::new("x/.env".to_string(), ".env".to_string(), None, "x".to_string(), 0);
    assert_eq!(hidden.file_name, "");
}
