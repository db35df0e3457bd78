use word_utils::analyze_custom_xml::{
    parse_custom_xml_content_for_tag, CustomXmlFile, CustomXmlInfo,
};
use word_utils::sync_custom_xml::{
    reconstruct_record, reconstruct_with_body, reconstruct_xml_from_json,
};
use word_utils::types::FileInfo;

fn entry(tag: &str, attributes: Option<Vec<(&str, &str)>>, body: &str) -> CustomXmlFile {
    CustomXmlFile {
        file_info: FileInfo {
            file_name_with_extension: "item1.xml".to_string(),
            full_file_path: "test/item1.xml".to_string(),
            file_size_in_kb_hundredths: 100,
        },
        custom_xml_info: CustomXmlInfo {
            tag: tag.to_string(),
            attributes: attributes
                .map(|list| list.iter().map(|(k, v)| (k.to_string(), v.to_string())).collect()),
            json_content: body.to_string(),
        },
    }
}

fn check_basic() {
    let custom_xml_file = entry(
        "rootTag",
        Some(vec![("attr1", "value1"), ("attr2", "value2")]),
        "{\"key\":\"value\"}",
    );

    let result = reconstruct_xml_from_json(&custom_xml_file);

    assert!(result.starts_with("<rootTag"));
    assert!(result.contains("attr1=\"value1\""));
    assert!(result.contains("attr2=\"value2\""));
    assert!(result.contains("{\"key\":\"value\"}"));
    assert!(result.ends_with("</rootTag>"));
}

fn check_no_attributes() {
    let custom_xml_file = entry("simpleTag", None, "{\"data\":123}");

    let result = reconstruct_xml_from_json(&custom_xml_file);

    assert_eq!(result, "<simpleTag>{\"data\":123}</simpleTag>");
}

fn check_empty_json_content() {
    let custom_xml_file = entry("emptyTag", Some(vec![("id", "123")]), "{}");

    let result = reconstruct_xml_from_json(&custom_xml_file);

    assert!(result.starts_with("<emptyTag"));
    assert!(result.contains("id=\"123\""));
    assert!(result.contains("{}"));
    assert!(result.ends_with("</emptyTag>"));
}

fn check_complex_json() {
    let custom_xml_file = entry(
        "dataTag",
        Some(vec![("version", "1.0")]),
        "{\"nested\":{\"key\":\"value\",\"number\":42},\"array\":[1,2,3]}",
    );

    let result = reconstruct_xml_from_json(&custom_xml_file);

    assert!(result.starts_with("<dataTag"));
    assert!(result.contains("version=\"1.0\""));
    assert!(result.contains("nested"));
    assert!(result.contains("array"));
    assert!(result.ends_with("</dataTag>"));
}

fn check_single_attribute() {
    let custom_xml_file = entry("singleAttr", Some(vec![("name", "test")]), "\"simple string\"");

    let result = reconstruct_xml_from_json(&custom_xml_file);

    assert!(result.starts_with("<singleAttr"));
    assert!(result.contains("name=\"test\""));
    assert!(result.contains("\"simple string\""));
    assert!(result.ends_with("</singleAttr>"));
}

#[test]
fn sync_custom_xml_test_reconstruct_xml_from_json_basic() {
    check_basic();
}

#[test]
fn sync_custom_xml_test_reconstruct_xml_from_json_no_attributes() {
    check_no_attributes();
}

#[test]
fn sync_custom_xml_test_reconstruct_xml_from_json_empty_json_content() {
    check_empty_json_content();
}

#[test]
fn sync_custom_xml_test_reconstruct_xml_from_json_complex_json() {
    check_complex_json();
}

#[test]
fn sync_custom_xml_test_reconstruct_xml_from_json_single_attribute() {
    check_single_attribute();
}

#[test]
fn main_test_reconstruct_xml_from_json_basic() {
    check_basic();
}

#[test]
fn main_test_reconstruct_xml_from_json_no_attributes() {
    check_no_attributes();
}

#[test]
fn main_test_reconstruct_xml_from_json_empty_json_content() {
    check_empty_json_content();
}

#[test]
fn main_test_reconstruct_xml_from_json_complex_json() {
    check_complex_json();
}

#[test]
fn main_test_reconstruct_xml_from_json_single_attribute() {
    check_single_attribute();
}

#[test]
fn reconstruct_writes_attributes_in_the_order_of_the_list() {
    let custom_xml_file = entry("t", Some(vec![("b", "1"), ("a", "2"), ("c", "")]), "null");
    assert_eq!(
        reconstruct_xml_from_json(&custom_xml_file),
        "<t b=\"1\" a=\"2\" c=\"\">null</t>"
    );
}

#[test]
fn reconstruct_writes_an_empty_list_like_no_list() {
    let with_empty = entry("t", Some(vec![]), "1");
    let without = entry("t", None, "1");
    assert_eq!(reconstruct_xml_from_json(&with_empty), "<t>1</t>");
    assert_eq!(reconstruct_xml_from_json(&without), "<t>1</t>");
}

#[test]
fn extract_gives_back_the_record_of_a_canonical_text() {
    let record = entry(
        "someTag",
        Some(vec![("attribute1", "value1"), ("attribute2", "value 2")]),
        "{\"jsonKey1\":\"value1\",\"list\":[1,2.5,true,null]}",
    )
    .custom_xml_info;
    let text = reconstruct_record(&record);
    assert_eq!(parse_custom_xml_content_for_tag(&text), Ok(record.clone()));
    let again = parse_custom_xml_content_for_tag(&text).unwrap();
    assert_eq!(reconstruct_record(&again), text);
}

#[test]
fn canonical_text_of_an_extracted_record_is_stable() {
    let source = "  <doc  id=\"7\"  junk lang=\"en\" >\n { \"a\" : 1 }\n</doc> trailing";
    let record = parse_custom_xml_content_for_tag(source).unwrap();
    let text = reconstruct_record(&record);
    assert_eq!(text, "<doc id=\"7\" lang=\"en\">{\"a\":1}</doc>");
    let again = parse_custom_xml_content_for_tag(&text).unwrap();
    assert_eq!(again, record);
    assert_eq!(reconstruct_record(&again), text);
}

#[test]
fn a_body_that_holds_the_closing_tag_does_not_come_back() {
    let record = parse_custom_xml_content_for_tag("<a>\"\\u003c/a>\"</a>").unwrap();
    assert_eq!(record.json_content, "\"</a>\"");
    let text = reconstruct_record(&record);
    assert!(parse_custom_xml_content_for_tag(&text).is_err());
}

#[test]
fn reconstruct_writes_the_body_in_compact_form() {
    let spaced = entry("t", None, "{\n  \"a\" : [ 1 , 2 ],\n  \"b\" : \"x y\"\n}");
    assert_eq!(reconstruct_xml_from_json(&spaced), "<t>{\"a\":[1,2],\"b\":\"x y\"}</t>");
}

#[test]
fn reconstruct_writes_a_body_that_is_no_json_as_it_stands() {
    let broken = entry("t", Some(vec![("a", "1")]), "{ broken");
    assert_eq!(reconstruct_xml_from_json(&broken), "<t a=\"1\">{ broken</t>");
}

#[test]
fn reconstruct_takes_the_compact_body_it_is_handed() {
    let record = entry("t", None, "[ 1 ]").custom_xml_info;
    assert_eq!(reconstruct_with_body(&record, Some("[1]".to_string())), "<t>[1]</t>");
    assert_eq!(reconstruct_with_body(&record, None), "<t>[ 1 ]</t>");
}
