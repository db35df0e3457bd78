//! Reading one custom XML element into a record: the element grammar, the
//! attribute scan and the JSON body.

use crate::attributes::{collect, pairs_view, put_attribute, unique_keys, Pairs};
use crate::char_class::{scan_word_run, word_run_end};
use crate::files::{custom_xml_name, get_file_size_in_kb_from_bytes, is_file_custom_xml, kb_hundredths};
use crate::text::{chars_of, find_from, find_in, same_text, string_of};
use crate::types::FileInfo;
use vstd::prelude::*;

verus! {

/// The compact text of the one JSON value that `text` holds, as the JSON
/// library reads it and writes it back; `None` when `text` is not exactly
/// one JSON value.
pub uninterp spec fn json_compact(text: Seq<char>) -> Option<Seq<char>>;

/// Calls `serde_json::from_str` to read `text` as a `serde_json::Value` and
/// `serde_json::to_string` to write the value back without white space.
/// Trusted: the outcome depends on `text` alone, so it is the value that
/// `json_compact` names; a text that does not parse gives `None`.
#[verifier::external_body]
pub(crate) fn compact_json(text: &str) -> (r: Option<String>)
    ensures
        match r {
            Some(out) => json_compact(text@) == Some(out@),
            None => json_compact(text@) is None,
        },
{
    match serde_json::from_str::<serde_json::Value>(text) {
        Ok(value) => serde_json::to_string(&value).ok(),
        Err(_) => None,
    }
}

/// Why a text holds no record.
#[derive(Debug, Clone, Copy, PartialEq, Eq, Structural)]
pub enum MalformedElement {
    /// The text holds no element with an opening tag and a closing tag of
    /// the same name.
    ElementNotFound,
    /// The body of the element is not one JSON value.
    UnsupportedContent,
}

impl MalformedElement {
    /// The message shown for this failure.
    pub fn message(&self) -> (m: &'static str)
        ensures
            m@ == match *self {
                MalformedElement::ElementNotFound => "Failed to find the custom XML content"@,
                MalformedElement::UnsupportedContent => "Unsupported custom XML content"@,
            },
    {
        match self {
            MalformedElement::ElementNotFound => "Failed to find the custom XML content",
            MalformedElement::UnsupportedContent => "Unsupported custom XML content",
        }
    }
}

/// One bridged element: its tag, its attributes in the order in which they
/// were written, and its body as compact JSON text.
#[derive(Debug, Clone)]
pub struct CustomXmlInfo {
    pub tag: String,
    pub attributes: Option<Vec<(String, String)>>,
    pub json_content: String,
}

/// The mathematical value of a `CustomXmlInfo`.
pub struct Record {
    pub tag: Seq<char>,
    pub attributes: Option<Pairs>,
    pub body: Seq<char>,
}

impl View for CustomXmlInfo {
    type V = Record;

    open spec fn view(&self) -> Record {
        Record {
            tag: self.tag@,
            attributes: match self.attributes {
                Some(list) => Some(pairs_view(list@)),
                None => None,
            },
            body: self.json_content@,
        }
    }
}

/// `body` is the compact form of some JSON value.
pub open spec fn compact_body(body: Seq<char>) -> bool {
    exists|text: Seq<char>| json_compact(text) == Some(body)
}

/// The record is well formed: its tag is not empty, the names of its
/// attributes differ from one another, and its body is the compact form of
/// a JSON value. `CustomXmlInfo::new` and extraction give such records. The
/// fields are open, so a record made by hand may be otherwise; what is
/// written for it then is said where it is written.
pub open spec fn well_formed(record: Record) -> bool {
    &&& record.tag.len() > 0
    &&& record.attributes is Some ==> unique_keys(record.attributes->0)
    &&& compact_body(record.body)
}

/// One entry of the manifest: where the element file lies, and its record.
#[derive(Debug, Clone)]
pub struct CustomXmlFile {
    pub file_info: FileInfo,
    pub custom_xml_info: CustomXmlInfo,
}

/// The mathematical value of a `CustomXmlFile`.
pub struct Entry {
    pub name: Seq<char>,
    pub path: Seq<char>,
    pub size: nat,
    pub record: Record,
}

impl View for CustomXmlFile {
    type V = Entry;

    open spec fn view(&self) -> Entry {
        Entry {
            name: self.file_info.file_name_with_extension@,
            path: self.file_info.full_file_path@,
            size: self.file_info.file_size_in_kb_hundredths as nat,
            record: self.custom_xml_info@,
        }
    }
}

/// Where an element lies in a text `s`: `s[start]` is the `<` of the opening
/// tag, the name is `s[start + 1..name_end]`, `s[open_end]` is the `>` of the
/// opening tag, and the closing tag starts at `close_start`.
pub struct Span {
    pub start: int,
    pub name_end: int,
    pub open_end: int,
    pub close_start: int,
}

/// A `Span` in machine integers.
#[derive(Debug, Clone, Copy)]
pub struct ElementSpan {
    pub start: usize,
    pub name_end: usize,
    pub open_end: usize,
    pub close_start: usize,
}

impl View for ElementSpan {
    type V = Span;

    open spec fn view(&self) -> Span {
        Span {
            start: self.start as int,
            name_end: self.name_end as int,
            open_end: self.open_end as int,
            close_start: self.close_start as int,
        }
    }
}

/// The closing tag of an element named `name`.
pub open spec fn closing_tag(name: Seq<char>) -> Seq<char> {
    seq!['<', '/'] + name + seq!['>']
}

/// The element whose opening tag starts at `i`, if one does: `s[i]` is `<`,
/// the name is the longest run of word characters after it and is not empty,
/// the opening tag ends at the first `>` after the name, and the body ends
/// at the first closing tag of the same name after that.
pub open spec fn element_at(s: Seq<char>, i: int) -> Option<Span> {
    if 0 <= i < s.len() && s[i] == '<' {
        let name_end = word_run_end(s, i + 1);
        if name_end > i + 1 {
            match find_from(s, seq!['>'], name_end) {
                Some(open_end) => match find_from(
                    s,
                    closing_tag(s.subrange(i + 1, name_end)),
                    open_end + 1,
                ) {
                    Some(close_start) => Some(
                        Span { start: i, name_end, open_end, close_start },
                    ),
                    None => None,
                },
                None => None,
            }
        } else {
            None
        }
    } else {
        None
    }
}

/// The first element of `s` whose opening tag starts at or after `from`.
pub open spec fn first_element(s: Seq<char>, from: int) -> Option<Span>
    decreases s.len() - from,
{
    if from < 0 || from >= s.len() {
        None
    } else {
        match element_at(s, from) {
            Some(span) => Some(span),
            None => first_element(s, from + 1),
        }
    }
}

/// The attribute written at `i`, if one is: a non-empty run of word
/// characters, `=`, and a value between double quotes that holds no double
/// quote. The result is the name, the value and the index after the closing
/// quote.
pub open spec fn attribute_at(s: Seq<char>, i: int) -> Option<(Seq<char>, Seq<char>, int)> {
    let key_end = word_run_end(s, i);
    if 0 <= i < key_end && key_end + 1 < s.len() && s[key_end] == '=' && s[key_end + 1] == '"' {
        match find_from(s, seq!['"'], key_end + 2) {
            Some(quote) => Some((s.subrange(i, key_end), s.subrange(key_end + 2, quote), quote + 1)),
            None => None,
        }
    } else {
        None
    }
}

/// The attributes written in `s` at or after `from`, in order. What lies
/// between them is skipped.
pub open spec fn attribute_tokens(s: Seq<char>, from: int) -> Pairs
    decreases s.len() - from,
{
    if from < 0 || from >= s.len() {
        Seq::empty()
    } else {
        match attribute_at(s, from) {
            Some((key, value, next)) => if from < next <= s.len() {
                seq![(key, value)] + attribute_tokens(s, next)
            } else {
                Seq::empty()
            },
            None => attribute_tokens(s, from + 1),
        }
    }
}

/// The attributes of an opening tag whose text between the name and `>` is
/// `s`: none when that text is empty, else the pairs written in it, a later
/// value for a name replacing an earlier one.
pub open spec fn attributes_of(s: Seq<char>) -> Option<Pairs> {
    if s.len() == 0 {
        None
    } else {
        Some(collect(attribute_tokens(s, 0)))
    }
}

/// The record that the element at `span` of `s` holds when the compact form
/// of its body is `body`.
pub open spec fn record_at(s: Seq<char>, span: Span, body: Seq<char>) -> Record {
    Record {
        tag: s.subrange(span.start + 1, span.name_end),
        attributes: attributes_of(s.subrange(span.name_end, span.open_end)),
        body,
    }
}

/// The record that `text` holds: that of its first element, whose body must
/// be one JSON value.
pub open spec fn extract(text: Seq<char>) -> Result<Record, MalformedElement> {
    match first_element(text, 0) {
        None => Err(MalformedElement::ElementNotFound),
        Some(span) => match json_compact(text.subrange(span.open_end + 1, span.close_start)) {
            None => Err(MalformedElement::UnsupportedContent),
            Some(body) => Ok(record_at(text, span, body)),
        },
    }
}

/// The positions in an element are in order and inside the text.
pub proof fn lemma_element_at(s: Seq<char>, i: int)
    requires
        element_at(s, i) is Some,
    ensures
        ({
            let span = element_at(s, i)->0;
            &&& span.start == i
            &&& 0 <= i < i + 1 < span.name_end <= span.open_end < span.close_start <= s.len()
            &&& span.name_end == word_run_end(s, i + 1)
            &&& s[i] == '<'
            &&& s[span.open_end] == '>'
            &&& span.close_start + closing_tag(s.subrange(i + 1, span.name_end)).len() <= s.len()
        }),
{
    let name_end = word_run_end(s, i + 1);
    crate::char_class::lemma_word_run(s, i + 1);
    crate::text::lemma_find_from_some(s, seq!['>'], name_end);
    let open_end = find_from(s, seq!['>'], name_end)->0;
    assert(s.subrange(open_end, open_end + 1)[0] == '>');
    crate::text::lemma_find_from_some(s, closing_tag(s.subrange(i + 1, name_end)), open_end + 1);
}

/// The positions of the first element are in order and inside the text.
pub proof fn lemma_first_element(s: Seq<char>, from: int)
    requires
        first_element(s, from) is Some,
    ensures
        ({
            let span = first_element(s, from)->0;
            &&& from <= span.start
            &&& element_at(s, span.start) == Some(span)
            &&& forall|j: int| from <= j < span.start ==> element_at(s, j) is None
        }),
    decreases s.len() - from,
{
    if element_at(s, from) is None {
        lemma_first_element(s, from + 1);
    } else {
        lemma_element_at(s, from);
    }
}

/// The element whose opening tag starts at `i`, if one does.
pub fn element_at_index(s: &Vec<char>, i: usize) -> (r: Option<ElementSpan>)
    requires
        i < s.len(),
    ensures
        match r {
            Some(span) => element_at(s@, i as int) == Some(span@),
            None => element_at(s@, i as int) is None,
        },
{
    if s[i] != '<' {
        return None;
    }
    let name_end: usize = scan_word_run(s, i + 1);
    if name_end == i + 1 {
        return None;
    }
    let mut gt: Vec<char> = Vec::new();
    gt.push('>');
    assert(gt@ == seq!['>']);
    match find_in(s, &gt, name_end) {
        None => None,
        Some(open_end) => {
            proof {
                crate::text::lemma_find_from_some(s@, seq!['>'], name_end as int);
            }
            let mut closing: Vec<char> = Vec::new();
            closing.push('<');
            closing.push('/');
            let mut k: usize = i + 1;
            while k < name_end
                invariant
                    i + 1 <= k <= name_end <= s.len(),
                    closing@ == seq!['<', '/'] + s@.subrange(i + 1, k as int),
                decreases name_end - k,
            {
                closing.push(s[k]);
                k += 1;
            }
            closing.push('>');
            assert(closing@ == closing_tag(s@.subrange(i + 1, name_end as int)));
            match find_in(s, &closing, open_end + 1) {
                None => None,
                Some(close_start) => Some(
                    ElementSpan { start: i, name_end, open_end, close_start },
                ),
            }
        },
    }
}

/// The first element of `s`.
pub fn find_element(s: &Vec<char>) -> (r: Option<ElementSpan>)
    ensures
        match r {
            Some(span) => first_element(s@, 0) == Some(span@),
            None => first_element(s@, 0) is None,
        },
{
    let mut i: usize = 0;
    while i < s.len()
        invariant
            i <= s.len(),
            first_element(s@, 0) == first_element(s@, i as int),
        decreases s.len() - i,
    {
        match element_at_index(s, i) {
            Some(span) => {
                return Some(span);
            },
            None => {},
        }
        i += 1;
    }
    None
}

/// The attribute written at `i`, if one is, and the index after it.
pub fn attribute_at_index(s: &Vec<char>, i: usize) -> (r: Option<(String, String, usize)>)
    requires
        i < s.len(),
    ensures
        match r {
            Some((key, value, next)) => attribute_at(s@, i as int) == Some(
                (key@, value@, next as int),
            ) && i < next <= s.len(),
            None => attribute_at(s@, i as int) is None,
        },
{
    let key_end: usize = scan_word_run(s, i);
    if key_end == i || key_end >= s.len() - 1 {
        return None;
    }
    if s[key_end] != '=' || s[key_end + 1] != '"' {
        return None;
    }
    let mut quote_mark: Vec<char> = Vec::new();
    quote_mark.push('"');
    assert(quote_mark@ == seq!['"']);
    match find_in(s, &quote_mark, key_end + 2) {
        None => None,
        Some(quote) => {
            proof {
                crate::text::lemma_find_from_some(s@, seq!['"'], key_end + 2);
            }
            let key = string_of(s, i, key_end);
            let value = string_of(s, key_end + 2, quote);
            Some((key, value, quote + 1))
        },
    }
}

/// The attributes written in `s`, a later value for a name replacing an
/// earlier one.
pub fn scan_attributes(s: &Vec<char>) -> (list: Vec<(String, String)>)
    ensures
        pairs_view(list@) == collect(attribute_tokens(s@, 0)),
{
    let mut list: Vec<(String, String)> = Vec::new();
    let ghost mut seen: Pairs = Seq::empty();
    let mut i: usize = 0;
    assert(pairs_view(list@) == collect(seen));
    while i < s.len()
        invariant
            i <= s.len(),
            attribute_tokens(s@, 0) == seen + attribute_tokens(s@, i as int),
            pairs_view(list@) == collect(seen),
        decreases s.len() - i,
    {
        match attribute_at_index(s, i) {
            Some((key, value, next)) => {
                proof {
                    let grown = seen.push((key@, value@));
                    assert(grown.drop_last() == seen);
                    assert(seen + (seq![(key@, value@)] + attribute_tokens(s@, next as int))
                        == grown + attribute_tokens(s@, next as int));
                    seen = grown;
                }
                put_attribute(&mut list, key, value);
                i = next;
            },
            None => {
                i += 1;
            },
        }
    }
    assert(seen + Seq::<(Seq<char>, Seq<char>)>::empty() == seen);
    list
}

/// Reads the attributes of an opening tag from the text between its name
/// and its `>`. Every text is accepted: an empty one has no attributes, and
/// what is not written as `name="value"` is skipped.
pub fn parse_attributes(attributes: &str) -> (r: Result<
    Option<Vec<(String, String)>>,
    MalformedElement,
>)
    ensures
        r is Ok,
        match r->Ok_0 {
            Some(list) => attributes_of(attributes@) == Some(pairs_view(list@)),
            None => attributes_of(attributes@) is None,
        },
{
    let chars = chars_of(attributes);
    if chars.len() == 0 {
        return Ok(None);
    }
    Ok(Some(scan_attributes(&chars)))
}

/// The outcome of an extraction once the element has been found and its body
/// has been handed to the JSON library: the record, or the failure when the
/// body was not one JSON value.
pub fn record_from_parts(
    tag: String,
    attributes: Option<Vec<(String, String)>>,
    body: Option<String>,
) -> (r: Result<CustomXmlInfo, MalformedElement>)
    ensures
        match body {
            Some(text) => r is Ok && r->Ok_0.tag == tag && r->Ok_0.attributes == attributes
                && r->Ok_0.json_content == text,
            None => r == Err::<CustomXmlInfo, MalformedElement>(
                MalformedElement::UnsupportedContent,
            ),
        },
{
    match body {
        Some(json_content) => Ok(CustomXmlInfo { tag, attributes, json_content }),
        None => Err(MalformedElement::UnsupportedContent),
    }
}

/// Reads the record that a text holds.
///
/// The first element of the text is taken: an opening tag `<name ...>`, a
/// body, and the first closing tag `</name>` of the same name after it. The
/// body must be one JSON value and is kept in compact form. Text before and
/// after the element is ignored.
pub fn parse_custom_xml_content_for_tag(html_content: &str) -> (r: Result<
    CustomXmlInfo,
    MalformedElement,
>)
    ensures
        match r {
            Ok(info) => extract(html_content@) == Ok::<Record, MalformedElement>(info@),
            Err(e) => extract(html_content@) == Err::<Record, MalformedElement>(e),
        },
        r is Ok ==> well_formed(r->Ok_0@),
{
    let chars = chars_of(html_content);
    match find_element(&chars) {
        None => Err(MalformedElement::ElementNotFound),
        Some(span) => {
            proof {
                lemma_first_element(chars@, 0);
                lemma_element_at(chars@, span.start as int);
            }
            let tag = string_of(&chars, span.start + 1, span.name_end);
            let mut attribute_text: Vec<char> = Vec::new();
            let mut k: usize = span.name_end;
            while k < span.open_end
                invariant
                    span.name_end <= k <= span.open_end < chars.len(),
                    attribute_text@ == chars@.subrange(span.name_end as int, k as int),
                decreases span.open_end - k,
            {
                attribute_text.push(chars[k]);
                k += 1;
            }
            let attributes = if attribute_text.len() == 0 {
                None
            } else {
                Some(scan_attributes(&attribute_text))
            };
            let body_text = string_of(&chars, span.open_end + 1, span.close_start);
            let body = compact_json(body_text.as_str());
            proof {
                if attribute_text.len() > 0 {
                    crate::attributes::lemma_collect_unique(
                        attribute_tokens(attribute_text@, 0),
                    );
                }
                if body is Some {
                    assert(json_compact(body_text@) == Some(body->0@));
                }
            }
            record_from_parts(tag, attributes, body)
        },
    }
}

/// Why three parts do not make a record.
#[derive(Debug, Clone, Copy, PartialEq, Eq, Structural)]
pub enum InvalidRecord {
    /// The tag is empty.
    EmptyTag,
    /// Two attributes have the same name.
    DuplicateAttribute,
    /// The body is not one JSON value.
    InvalidBody,
}

/// Why a tag and an attribute list cannot head a record, if they cannot.
pub open spec fn head_fault(tag: Seq<char>, attributes: Option<Pairs>) -> Option<InvalidRecord> {
    if tag.len() == 0 {
        Some(InvalidRecord::EmptyTag)
    } else if attributes is Some && !unique_keys(attributes->0) {
        Some(InvalidRecord::DuplicateAttribute)
    } else {
        None
    }
}

/// What `CustomXmlInfo::new` makes of a tag, an attribute list and a body
/// text: the first fault, or the record with the body in compact form.
pub open spec fn validated(tag: Seq<char>, attributes: Option<Pairs>, body: Seq<char>) -> Result<
    Record,
    InvalidRecord,
> {
    match head_fault(tag, attributes) {
        Some(fault) => Err(fault),
        None => match json_compact(body) {
            Some(compact) => Ok(Record { tag, attributes, body: compact }),
            None => Err(InvalidRecord::InvalidBody),
        },
    }
}

/// Whether no two attributes of `list` have the same name.
pub fn has_unique_names(list: &Vec<(String, String)>) -> (r: bool)
    ensures
        r == unique_keys(pairs_view(list@)),
{
    let ghost pairs = pairs_view(list@);
    let mut j: usize = 0;
    while j < list.len()
        invariant
            j <= list.len(),
            pairs == pairs_view(list@),
            forall|a: int, b: int| 0 <= a < b < j ==> (#[trigger] pairs[a]).0 != (#[trigger] pairs[b]).0,
        decreases list.len() - j,
    {
        let mut i: usize = 0;
        while i < j
            invariant
                i <= j < list.len(),
                pairs == pairs_view(list@),
                forall|a: int| 0 <= a < i ==> (#[trigger] pairs[a]).0 != pairs[j as int].0,
            decreases j - i,
        {
            if same_text(list[i].0.as_str(), list[j].0.as_str()) {
                assert(pairs[i as int].0 == pairs[j as int].0);
                return false;
            }
            i += 1;
        }
        j += 1;
    }
    true
}

/// Why `tag` and `attributes` cannot head a record, if they cannot.
pub fn check_head(tag: &str, attributes: &Option<Vec<(String, String)>>) -> (fault: Option<
    InvalidRecord,
>)
    ensures
        fault == head_fault(
            tag@,
            match *attributes {
                Some(list) => Some(pairs_view(list@)),
                None => None,
            },
        ),
{
    if tag.is_empty() {
        return Some(InvalidRecord::EmptyTag);
    }
    match attributes {
        Some(list) => if has_unique_names(list) {
            None
        } else {
            Some(InvalidRecord::DuplicateAttribute)
        },
        None => None,
    }
}

/// The record of a head that has no fault and a body that the JSON library
/// has been asked about: the record with the compact body, or the failure
/// when the body was not one JSON value.
pub fn record_of_valid_head(
    tag: String,
    attributes: Option<Vec<(String, String)>>,
    compact: Option<String>,
) -> (r: Result<CustomXmlInfo, InvalidRecord>)
    ensures
        match compact {
            Some(body) => r is Ok && r->Ok_0.tag == tag && r->Ok_0.attributes == attributes
                && r->Ok_0.json_content == body,
            None => r == Err::<CustomXmlInfo, InvalidRecord>(InvalidRecord::InvalidBody),
        },
{
    match compact {
        Some(json_content) => Ok(CustomXmlInfo { tag, attributes, json_content }),
        None => Err(InvalidRecord::InvalidBody),
    }
}

impl CustomXmlInfo {
    /// Makes a record from a tag, an attribute list and the text of a JSON
    /// value. The tag must not be empty, the names of the attributes must
    /// differ from one another, and the text must be one JSON value, of
    /// which the record keeps the compact form.
    pub fn new(tag: String, attributes: Option<Vec<(String, String)>>, json_content: &str) -> (r:
        Result<CustomXmlInfo, InvalidRecord>)
        ensures
            match r {
                Ok(info) => validated(
                    tag@,
                    match attributes {
                        Some(list) => Some(pairs_view(list@)),
                        None => None,
                    },
                    json_content@,
                ) == Ok::<Record, InvalidRecord>(info@),
                Err(fault) => validated(
                    tag@,
                    match attributes {
                        Some(list) => Some(pairs_view(list@)),
                        None => None,
                    },
                    json_content@,
                ) == Err::<Record, InvalidRecord>(fault),
            },
            r is Ok ==> well_formed(r->Ok_0@),
    {
        match check_head(tag.as_str(), &attributes) {
            Some(fault) => Err(fault),
            None => {
                let compact = compact_json(json_content);
                proof {
                    if compact is Some {
                        assert(json_compact(json_content@) == Some(compact->0@));
                    }
                }
                record_of_valid_head(tag, attributes, compact)
            },
        }
    }
}

/// A file of the unpacked tree as the scan found it.
#[derive(Debug, Clone)]
pub struct ScannedFile {
    /// Name of the file with its extension.
    pub file_name_with_extension: String,
    /// Full path of the file.
    pub full_file_path: String,
    /// Size of the file in bytes.
    pub file_size: u64,
    /// The text of the file; `None` for a file that could not be read.
    pub content: Option<String>,
}

/// The mathematical value of a `ScannedFile`.
pub struct Scanned {
    pub name: Seq<char>,
    pub path: Seq<char>,
    pub size: nat,
    pub content: Option<Seq<char>>,
}

impl View for ScannedFile {
    type V = Scanned;

    open spec fn view(&self) -> Scanned {
        Scanned {
            name: self.file_name_with_extension@,
            path: self.full_file_path@,
            size: self.file_size as nat,
            content: match self.content {
                Some(text) => Some(text@),
                None => None,
            },
        }
    }
}

/// The views of scanned files.
pub open spec fn scanned_view(files: Seq<ScannedFile>) -> Seq<Scanned> {
    Seq::new(files.len(), |i: int| files[i]@)
}

/// The views of the entries of a manifest.
pub open spec fn manifest_entries(entries: Seq<CustomXmlFile>) -> Seq<Entry> {
    Seq::new(entries.len(), |i: int| entries[i]@)
}

/// What a scanned file gives: its record, when it is named like an element
/// file, could be read, and holds a record.
pub open spec fn record_of_scanned(file: Scanned) -> Option<Record> {
    if custom_xml_name(file.name) && file.content is Some && extract(file.content->0) is Ok {
        Some(extract(file.content->0)->Ok_0)
    } else {
        None
    }
}

/// The entries that the scanned files give, in the order of the scan: one
/// for each file that is named like an element file, could be read, and
/// holds a record. Every other file is left out.
pub open spec fn analyzed_entries(files: Seq<Scanned>) -> Seq<Entry>
    decreases files.len(),
{
    if files.len() == 0 {
        Seq::empty()
    } else {
        let before = analyzed_entries(files.drop_last());
        let file = files.last();
        match record_of_scanned(file) {
            Some(record) => before.push(
                Entry { name: file.name, path: file.path, size: kb_hundredths(file.size), record },
            ),
            None => before,
        }
    }
}

/// Why a scanned file that is named like an element file gave no entry.
#[derive(Debug, Clone, Copy, PartialEq, Eq, Structural)]
pub enum Skipped {
    /// The file could not be read.
    Unreadable,
    /// The file holds no record.
    Malformed(MalformedElement),
}

/// What became of a scanned file: nothing, when it is not named like an
/// element file; else its place among the entries, or why it has none.
#[derive(Debug, Clone, Copy, PartialEq, Eq, Structural)]
pub enum Outcome {
    NotAnElementFile,
    Parsed,
    Skipped(Skipped),
}

/// What becomes of a scanned file.
pub open spec fn outcome_of(file: Scanned) -> Outcome {
    if !custom_xml_name(file.name) {
        Outcome::NotAnElementFile
    } else {
        match file.content {
            None => Outcome::Skipped(Skipped::Unreadable),
            Some(text) => match extract(text) {
                Ok(_) => Outcome::Parsed,
                Err(e) => Outcome::Skipped(Skipped::Malformed(e)),
            },
        }
    }
}

/// The number of scanned files that are named like an element file.
pub open spec fn candidate_count(files: Seq<Scanned>) -> nat
    decreases files.len(),
{
    if files.len() == 0 {
        0
    } else if custom_xml_name(files.last().name) {
        candidate_count(files.drop_last()) + 1
    } else {
        candidate_count(files.drop_last())
    }
}

/// What a scan of the unpacked tree gave.
#[derive(Debug)]
pub struct Analysis {
    /// The entries of the manifest, in the order of the scan.
    pub files: Vec<CustomXmlFile>,
    /// What became of each scanned file, in the order of the scan, for the
    /// log.
    pub outcomes: Vec<Outcome>,
    /// The number of files that hold a record.
    pub parsed_file_count: usize,
    /// The number of files that are named like an element file.
    pub total_file_count: usize,
}

/// Makes the manifest from the files of the unpacked tree.
///
/// Every file that is named like an element file is read as a record. A
/// file that could not be read or holds no record is left out and does not
/// stop the others; `outcomes` says for each file what became of it, and the
/// two counts tell how many gave an entry and how many were named like an
/// element file.
pub fn analyze_custom_xml(scanned: &Vec<ScannedFile>) -> (analysis: Analysis)
    ensures
        manifest_entries(analysis.files@) == analyzed_entries(scanned_view(scanned@)),
        analysis.parsed_file_count == analysis.files.len(),
        analysis.total_file_count == candidate_count(scanned_view(scanned@)),
        analysis.parsed_file_count <= analysis.total_file_count,
        analysis.outcomes.len() == scanned.len(),
        forall|i: int|
            0 <= i < scanned.len() ==> #[trigger] analysis.outcomes[i] == outcome_of(scanned[i]@),
{
    let ghost all = scanned_view(scanned@);
    let mut files: Vec<CustomXmlFile> = Vec::new();
    let mut outcomes: Vec<Outcome> = Vec::new();
    let mut total_file_count: usize = 0;
    let mut i: usize = 0;
    assert(all.take(0) == Seq::<Scanned>::empty());
    assert(manifest_entries(files@) == Seq::<Entry>::empty());
    while i < scanned.len()
        invariant
            i <= scanned.len(),
            all == scanned_view(scanned@),
            manifest_entries(files@) == analyzed_entries(all.take(i as int)),
            total_file_count == candidate_count(all.take(i as int)),
            files.len() <= total_file_count <= i,
            outcomes.len() == i,
            forall|j: int| 0 <= j < i ==> #[trigger] outcomes[j] == outcome_of(scanned[j]@),
        decreases scanned.len() - i,
    {
        let file = &scanned[i];
        proof {
            assert(all.take(i + 1).drop_last() == all.take(i as int));
            assert(all.take(i + 1).last() == file@);
        }
        let outcome = if !is_file_custom_xml(file.file_name_with_extension.as_str()) {
            Outcome::NotAnElementFile
        } else {
            total_file_count = total_file_count + 1;
            match &file.content {
                None => Outcome::Skipped(Skipped::Unreadable),
                Some(text) => match parse_custom_xml_content_for_tag(text.as_str()) {
                    Ok(custom_xml_info) => {
                        let ghost before = manifest_entries(files@);
                        let entry = CustomXmlFile {
                            file_info: FileInfo {
                                file_name_with_extension: file.file_name_with_extension.clone(),
                                full_file_path: file.full_file_path.clone(),
                                file_size_in_kb_hundredths: get_file_size_in_kb_from_bytes(
                                    file.file_size,
                                ),
                            },
                            custom_xml_info,
                        };
                        files.push(entry);
                        assert(manifest_entries(files@) == before.push(entry@));
                        Outcome::Parsed
                    },
                    Err(e) => Outcome::Skipped(Skipped::Malformed(e)),
                },
            }
        };
        outcomes.push(outcome);
        i += 1;
    }
    assert(all.take(scanned.len() as int) == all);
    let parsed_file_count = files.len();
    Analysis { files, outcomes, parsed_file_count, total_file_count }
}

/// The attributes among `entries` whose value is a string, in the order of
/// `entries`. An entry whose value is of another kind, marked by `None`, is
/// left out.
pub open spec fn string_entries(entries: Seq<(Seq<char>, Option<Seq<char>>)>) -> Pairs
    decreases entries.len(),
{
    if entries.len() == 0 {
        Seq::empty()
    } else {
        let before = string_entries(entries.drop_last());
        match entries.last().1 {
            Some(value) => before.push((entries.last().0, value)),
            None => before,
        }
    }
}

/// The view of attribute entries as a manifest holds them.
pub open spec fn entries_view(entries: Seq<(String, Option<String>)>) -> Seq<
    (Seq<char>, Option<Seq<char>>),
> {
    Seq::new(
        entries.len(),
        |i: int|
            (
                entries[i].0@,
                match entries[i].1 {
                    Some(value) => Some(value@),
                    None => None,
                },
            ),
    )
}

/// The attribute list of a record from the attributes that a manifest
/// holds. `stored` is `None` for a manifest entry without attributes or
/// with attributes that are no object; else it holds the members of the
/// object in their order, each value a string or, marked by `None`, of
/// another kind. Only string values are attributes: the others are left
/// out.
pub fn attributes_from_manifest(stored: &Option<Vec<(String, Option<String>)>>) -> (attributes:
    Option<Vec<(String, String)>>)
    ensures
        match *stored {
            None => attributes is None,
            Some(entries) => attributes is Some && pairs_view(attributes->0@) == string_entries(
                entries_view(entries@),
            ),
        },
{
    match stored {
        None => None,
        Some(entries) => {
            let ghost all = entries_view(entries@);
            let mut list: Vec<(String, String)> = Vec::new();
            let mut i: usize = 0;
            assert(all.take(0) == Seq::<(Seq<char>, Option<Seq<char>>)>::empty());
            assert(pairs_view(list@) == Seq::<(Seq<char>, Seq<char>)>::empty());
            while i < entries.len()
                invariant
                    i <= entries.len(),
                    all == entries_view(entries@),
                    pairs_view(list@) == string_entries(all.take(i as int)),
                decreases entries.len() - i,
            {
                proof {
                    assert(all.take(i + 1).drop_last() == all.take(i as int));
                    assert(all.take(i + 1).last() == all[i as int]);
                }
                match &entries[i].1 {
                    Some(value) => {
                        let ghost before = pairs_view(list@);
                        list.push((entries[i].0.clone(), value.clone()));
                        assert(pairs_view(list@) == before.push((entries[i as int].0@, value@)));
                    },
                    None => {},
                }
                i += 1;
            }
            assert(all.take(entries.len() as int) == all);
            Some(list)
        },
    }
}

} // verus!
