use std::collections::BTreeMap;
use word_utils::analyze_custom_xml::{CustomXmlFile, CustomXmlInfo};
use word_utils::sync_custom_xml::{
    candidate_folder, compare_with_file, manifest_path, should_update_file, sync_custom_xml,
    FileState, ManifestSource, SyncAction, SyncError, SyncEvent, SyncPolicy, SyncReport, SyncRun,
};
use word_utils::types::FileInfo;

fn info(tag: &str, attributes: Option<Vec<(&str, &str)>>, body: &str) -> CustomXmlInfo {
    CustomXmlInfo {
        tag: tag.to_string(),
        attributes: attributes
            .map(|list| list.iter().map(|(k, v)| (k.to_string(), v.to_string())).collect()),
        json_content: body.to_string(),
    }
}

fn entry(name: &str, record: CustomXmlInfo) -> CustomXmlFile {
    CustomXmlFile {
        file_info: FileInfo {
            file_name_with_extension: name.to_string(),
            full_file_path: format!("old/place/{}", name),
            file_size_in_kb_hundredths: 100,
        },
        custom_xml_info: record,
    }
}

#[test]
fn test_should_update_file_when_file_does_not_exist() {
    let expected_info = info("testTag", None, "{\"key\":\"value\"}");

    // The file at "/tmp/nonexistent_file_12345.xml" is missing: it has no content.
    let result = should_update_file(None, &expected_info);

    assert!(result, "Should return true when file doesn't exist: it has to be written");
}

#[test]
fn test_should_update_file_when_content_matches() {
    let expected_info = info("testTag", Some(vec![("attr1", "value1")]), "{\"key\":\"value\"}");

    let xml_content = r#"<testTag attr1="value1">{"key":"value"}</testTag>"#;

    let result = should_update_file(Some(xml_content), &expected_info);

    assert!(!result, "Should return false when content matches");
}

#[test]
fn test_should_update_file_when_content_differs() {
    let expected_info =
        info("testTag", Some(vec![("attr1", "value1")]), "{\"key\":\"different_value\"}");

    let xml_content = r#"<testTag attr1="value1">{"key":"value"}</testTag>"#;

    let result = should_update_file(Some(xml_content), &expected_info);

    assert!(result, "Should return true when content differs");
}

#[test]
fn test_should_update_file_when_tag_differs() {
    let expected_info = info("testTag", None, "{\"key\":\"value\"}");

    let xml_content = r#"<differentTag>{"key":"value"}</differentTag>"#;

    let result = should_update_file(Some(xml_content), &expected_info);

    assert!(result, "Should return true when tag differs");
}

#[test]
fn test_should_update_file_when_attributes_differ() {
    let expected_info = info("testTag", Some(vec![("attr1", "value1")]), "{\"key\":\"value\"}");

    let xml_content = r#"<testTag attr1="different_value">{"key":"value"}</testTag>"#;

    let result = should_update_file(Some(xml_content), &expected_info);

    assert!(result, "Should return true when attributes differ");
}

#[test]
fn test_should_update_file_when_file_is_invalid_xml() {
    let expected_info = info("testTag", None, "{\"key\":\"value\"}");

    let xml_content = "This is not valid XML content";

    let result = should_update_file(Some(xml_content), &expected_info);

    assert!(result, "Should return true when file contains invalid XML: it has to be written");
}

#[test]
fn test_should_update_file_when_attributes_missing_in_file() {
    let expected_info = info("testTag", Some(vec![("attr1", "value1")]), "{\"key\":\"value\"}");

    let xml_content = r#"<testTag>{"key":"value"}</testTag>"#;

    let result = should_update_file(Some(xml_content), &expected_info);

    assert!(result, "Should return true when attributes are missing in file");
}

#[test]
fn test_should_update_file_when_attributes_missing_in_expected() {
    let expected_info = info("testTag", None, "{\"key\":\"value\"}");

    let xml_content = r#"<testTag attr1="value1">{"key":"value"}</testTag>"#;

    let result = should_update_file(Some(xml_content), &expected_info);

    assert!(
        result,
        "Should return true when attributes are present in file but not expected"
    );
}

#[test]
fn file_is_left_alone_only_when_it_holds_the_expected_record() {
    let expected = info("t", Some(vec![("a", "1")]), "{\"k\":[1,2]}");
    assert!(!should_update_file(Some("<t a=\"1\">{\"k\":[1,2]}</t>"), &expected));
    assert!(!should_update_file(Some("x <t  a=\"1\" >\n{ \"k\" : [1, 2] }\n</t> y"), &expected));
    assert!(should_update_file(None, &expected));
    assert!(should_update_file(Some(""), &expected));
    assert!(should_update_file(Some("<t a=\"1\">{\"k\":[1,2]}"), &expected));
    assert!(should_update_file(Some("<t a=\"1\">{\"k\":[1,2</t>"), &expected));
    assert!(should_update_file(Some("<t a=\"2\">{\"k\":[1,2]}</t>"), &expected));
    assert!(should_update_file(Some("<t>{\"k\":[1,2]}</t>"), &expected));
    assert!(should_update_file(Some("<u a=\"1\">{\"k\":[1,2]}</u>"), &expected));
    assert!(should_update_file(Some("<t a=\"1\">{\"k\":[2,1]}</t>"), &expected));
}

#[test]
fn file_state_tells_the_four_cases_apart() {
    let expected = info("t", None, "1");
    assert_eq!(compare_with_file(None, &expected), FileState::Missing);
    assert_eq!(compare_with_file(Some("nothing"), &expected), FileState::Unparsable);
    assert_eq!(compare_with_file(Some("<t>{</t>"), &expected), FileState::Unparsable);
    assert_eq!(compare_with_file(Some("<t>2</t>"), &expected), FileState::Changed);
    assert_eq!(compare_with_file(Some(" <t> 1 </t> "), &expected), FileState::Unchanged);
}

#[test]
fn paths_of_a_package_are_joined_with_slashes() {
    assert_eq!(manifest_path("root"), "root/customXml.json");
    assert_eq!(candidate_folder("root", false), "root/extracted/customXml");
    assert_eq!(candidate_folder("root", true), "root/extracted/customXML");
}

fn start(
    manifest: ManifestSource,
    first: bool,
    second: bool,
    policy: SyncPolicy,
) -> Result<SyncRun, SyncError> {
    sync_custom_xml("root", manifest, first, second, policy)
}

#[test]
fn pass_does_not_start_without_a_manifest() {
    let r = start(ManifestSource::Missing, true, true, SyncPolicy::strict());
    assert_eq!(r.err(), Some(SyncError::MissingManifest));
    assert_eq!(
        SyncError::MissingManifest.message(),
        "customXml.json file not found in the root folder"
    );
    let r = start(ManifestSource::Unreadable, true, true, SyncPolicy::lenient());
    assert_eq!(r.err(), Some(SyncError::UnreadableManifest));
    assert_eq!(SyncError::UnreadableManifest.message(), "Failed to read customXml.json");
}

#[test]
fn empty_manifest_follows_the_policy() {
    let r = start(ManifestSource::Loaded(vec![]), true, false, SyncPolicy::strict());
    assert_eq!(r.err(), Some(SyncError::EmptyManifest));
    assert_eq!(
        SyncError::EmptyManifest.message(),
        "No custom XML files found in customXml.json"
    );
    let run = start(ManifestSource::Loaded(vec![]), true, false, SyncPolicy::lenient()).unwrap();
    match run.action() {
        SyncAction::Finish(report) => {
            assert_eq!(report, SyncReport { synced: 0, skipped: 0, failed: 0, total: 0 })
        }
        other => panic!("unexpected action {:?}", other),
    }
}

#[test]
fn folder_is_the_first_candidate_that_exists() {
    let one = || ManifestSource::Loaded(vec![entry("item1.xml", info("t", None, "1"))]);
    let run = start(one(), true, true, SyncPolicy::strict()).unwrap();
    assert_eq!(run.folder(), "root/extracted/customXml");
    assert!(!run.must_create_folder());
    let run = start(one(), false, true, SyncPolicy::strict()).unwrap();
    assert_eq!(run.folder(), "root/extracted/customXML");
    assert!(!run.must_create_folder());
    let r = start(one(), false, false, SyncPolicy::strict());
    assert_eq!(r.err(), Some(SyncError::MissingTargetFolder));
    assert_eq!(
        SyncError::MissingTargetFolder.message(),
        "customXml folder not found in the extracted folder"
    );
    let run = start(one(), false, false, SyncPolicy::lenient()).unwrap();
    assert_eq!(run.folder(), "root/extracted/customXml");
    assert!(run.must_create_folder());
}

/// Serves a pass from files held in memory; returns the report and the
/// paths that were written. Writes to a path in `broken` fail.
fn serve(
    run: &mut SyncRun,
    files: &mut BTreeMap<String, String>,
    broken: &[&str],
) -> (SyncReport, Vec<String>) {
    let mut written = Vec::new();
    let mut action = run.action();
    loop {
        action = match action {
            SyncAction::Read { path } => run.step(SyncEvent::Content(files.get(&path).cloned())),
            SyncAction::Write { path, content } => {
                if broken.contains(&path.as_str()) {
                    run.step(SyncEvent::WriteResult(false))
                } else {
                    files.insert(path.clone(), content);
                    written.push(path);
                    run.step(SyncEvent::WriteResult(true))
                }
            }
            SyncAction::Finish(report) => return (report, written),
        };
    }
}

fn manifest() -> Vec<CustomXmlFile> {
    vec![
        entry("item1.xml", info("a", Some(vec![("k", "v")]), "{\"x\":1}")),
        entry("item2.xml", info("b", None, "[1,2]")),
        entry("item3.xml", info("c", None, "\"s\"")),
        entry("item4.xml", info("d", None, "null")),
    ]
}

#[test]
fn pass_writes_what_differs_and_skips_what_is_in_step() {
    let mut files = BTreeMap::new();
    files.insert("root/extracted/customXml/item1.xml".to_string(), "<a k=\"v\">{ \"x\": 1 }</a>".to_string());
    files.insert("root/extracted/customXml/item2.xml".to_string(), "<b>[1,3]</b>".to_string());
    files.insert("root/extracted/customXml/item3.xml".to_string(), "garbage".to_string());
    let mut run =
        start(ManifestSource::Loaded(manifest()), true, false, SyncPolicy::strict()).unwrap();
    let (report, written) = serve(&mut run, &mut files, &[]);
    assert_eq!(report, SyncReport { synced: 3, skipped: 1, failed: 0, total: 4 });
    assert_eq!(
        written,
        vec![
            "root/extracted/customXml/item2.xml",
            "root/extracted/customXml/item3.xml",
            "root/extracted/customXml/item4.xml"
        ]
    );
    assert_eq!(files["root/extracted/customXml/item1.xml"], "<a k=\"v\">{ \"x\": 1 }</a>");
    assert_eq!(files["root/extracted/customXml/item2.xml"], "<b>[1,2]</b>");
    assert_eq!(files["root/extracted/customXml/item3.xml"], "<c>\"s\"</c>");
    assert_eq!(files["root/extracted/customXml/item4.xml"], "<d>null</d>");
    assert_eq!(run.report(), report);
}

#[test]
fn second_pass_writes_nothing() {
    let mut files = BTreeMap::new();
    files.insert("root/extracted/customXml/item2.xml".to_string(), "<b>[1,3]</b>".to_string());
    let mut first =
        start(ManifestSource::Loaded(manifest()), true, false, SyncPolicy::strict()).unwrap();
    let (report, _) = serve(&mut first, &mut files, &[]);
    assert_eq!(report.synced, 4);
    let after_first = files.clone();
    let mut second =
        start(ManifestSource::Loaded(manifest()), true, false, SyncPolicy::strict()).unwrap();
    let (report, written) = serve(&mut second, &mut files, &[]);
    assert_eq!(report, SyncReport { synced: 0, skipped: 4, failed: 0, total: 4 });
    assert!(written.is_empty());
    assert_eq!(files, after_first);
}

#[test]
fn failed_write_is_counted_and_the_pass_goes_on() {
    let mut files = BTreeMap::new();
    let mut run =
        start(ManifestSource::Loaded(manifest()), true, false, SyncPolicy::strict()).unwrap();
    let (report, written) =
        serve(&mut run, &mut files, &["root/extracted/customXml/item2.xml"]);
    assert_eq!(report, SyncReport { synced: 3, skipped: 0, failed: 1, total: 4 });
    assert_eq!(written.len(), 3);
    assert!(!files.contains_key("root/extracted/customXml/item2.xml"));
}

#[test]
fn counts_add_up_to_the_entries_that_are_done() {
    let mut files = BTreeMap::new();
    files.insert("root/extracted/customXml/item1.xml".to_string(), "<a k=\"v\">{\"x\":1}</a>".to_string());
    let mut run =
        start(ManifestSource::Loaded(manifest()), true, false, SyncPolicy::strict()).unwrap();
    let mut action = run.action();
    let mut done = 0;
    loop {
        let report = run.report();
        assert_eq!(report.synced + report.skipped + report.failed, done);
        assert!(done <= report.total);
        action = match action {
            SyncAction::Read { path } => {
                let content = files.get(&path).cloned();
                if content.is_some() {
                    done += 1;
                }
                run.step(SyncEvent::Content(content))
            }
            SyncAction::Write { path, .. } => {
                done += 1;
                run.step(SyncEvent::WriteResult(!path.ends_with("item3.xml")))
            }
            SyncAction::Finish(report) => {
                assert_eq!(report, SyncReport { synced: 2, skipped: 1, failed: 1, total: 4 });
                break;
            }
        };
    }
}

#[test]
fn body_of_the_manifest_is_written_in_compact_form() {
    let mut files = BTreeMap::new();
    let entries = vec![entry("item1.xml", info("a", None, "{ \"x\" : [ 1, 2 ] }"))];
    let mut run = start(ManifestSource::Loaded(entries), true, false, SyncPolicy::strict()).unwrap();
    let (report, _) = serve(&mut run, &mut files, &[]);
    assert_eq!(report.synced, 1);
    assert_eq!(files["root/extracted/customXml/item1.xml"], "<a>{\"x\":[1,2]}</a>");
}

#[test]
fn event_that_was_not_asked_for_changes_nothing() {
    let mut run =
        start(ManifestSource::Loaded(manifest()), true, false, SyncPolicy::strict()).unwrap();
    match run.step(SyncEvent::WriteResult(true)) {
        SyncAction::Read { path } => assert_eq!(path, "root/extracted/customXml/item1.xml"),
        other => panic!("unexpected action {:?}", other),
    }
    match run.step(SyncEvent::Content(None)) {
        SyncAction::Write { path, content } => {
            assert_eq!(path, "root/extracted/customXml/item1.xml");
            assert_eq!(content, "<a k=\"v\">{\"x\":1}</a>");
        }
        other => panic!("unexpected action {:?}", other),
    }
    match run.step(SyncEvent::Content(None)) {
        SyncAction::Write { path, .. } => assert_eq!(path, "root/extracted/customXml/item1.xml"),
        other => panic!("unexpected action {:?}", other),
    }
    assert_eq!(run.report(), SyncReport { synced: 0, skipped: 0, failed: 0, total: 4 });
}
