//! What holds of extraction and reconstruction together: which records come
//! back unchanged from their own canonical text.

use crate::analyze_custom_xml::{
    attribute_at, attribute_tokens, attributes_of, closing_tag, compact_json, element_at,
    extract, first_element, has_unique_names, json_compact, lemma_element_at,
    lemma_first_element, record_at, CustomXmlInfo, MalformedElement, Record, Span,
};
use crate::attributes::{
    collect, lemma_collect_of_unique, lemma_collect_unique, lemma_position_of, pairs_view,
    position_of, put, unique_keys, Pairs,
};
use crate::char_class::{
    all_word_chars, is_word_char, lemma_word_run, lemma_word_run_is, word_char, word_run_end,
};
use crate::sync_custom_xml::{
    attribute_text, canonical_text, reconstruct, render_attribute, render_attributes,
};
use crate::text::{
    chars_of, contains_chars, contains_seq, find_from, lemma_find_from_is,
    lemma_find_from_some, occurs_at, same_text,
};
use vstd::prelude::*;

verus! {

/// `c` does not occur in `s`.
pub open spec fn no_char(s: Seq<char>, c: char) -> bool {
    forall|i: int| 0 <= i < s.len() ==> #[trigger] s[i] != c
}

/// A pair that can be written as an attribute and read back: the name is a
/// non-empty run of word characters, and the value holds neither a double
/// quote nor `>`.
pub open spec fn plain_pair(pair: (Seq<char>, Seq<char>)) -> bool {
    &&& pair.0.len() > 0
    &&& all_word_chars(pair.0)
    &&& no_char(pair.1, '"')
    &&& no_char(pair.1, '>')
}

/// Every pair of the list is a `plain_pair`.
pub open spec fn plain_pairs(pairs: Pairs) -> bool {
    forall|i: int| 0 <= i < pairs.len() ==> plain_pair(#[trigger] pairs[i])
}

/// The tag and the attributes of the record can be written and read back:
/// the tag is a non-empty run of word characters, and an attribute list
/// holds plain pairs with names that differ from one another.
pub open spec fn plain_head(record: Record) -> bool {
    &&& record.tag.len() > 0
    &&& all_word_chars(record.tag)
    &&& match record.attributes {
        Some(pairs) => unique_keys(pairs) && plain_pairs(pairs),
        None => true,
    }
}

/// The body of the record can be written and read back: it is compact JSON
/// that the JSON library leaves as it is, and the closing tag of the record
/// does not occur in it.
pub open spec fn plain_body(record: Record) -> bool {
    &&& json_compact(record.body) == Some(record.body)
    &&& !contains_seq(record.body, closing_tag(record.tag))
}

/// The records that extraction returns unchanged from their canonical text:
/// head and body are plain, and an attribute list, if there is one, is not
/// empty.
pub open spec fn round_trips(record: Record) -> bool {
    &&& plain_head(record)
    &&& plain_body(record)
    &&& match record.attributes {
        Some(pairs) => pairs.len() > 0,
        None => true,
    }
}

/// The record with an empty attribute list replaced by no list. Both are
/// written as the same text.
pub open spec fn settled(record: Record) -> Record {
    Record {
        tag: record.tag,
        attributes: match record.attributes {
            Some(pairs) => if pairs.len() == 0 {
                None
            } else {
                Some(pairs)
            },
            None => None,
        },
        body: record.body,
    }
}

proof fn lemma_single_occurs(s: Seq<char>, c: char, j: int)
    requires
        0 <= j < s.len(),
    ensures
        occurs_at(s, seq![c], j) == (s[j] == c),
{
    if s[j] == c {
        assert(s.subrange(j, j + 1) =~= seq![c]);
    } else {
        if occurs_at(s, seq![c], j) {
            assert(s.subrange(j, j + 1)[0] == seq![c][0]);
        }
    }
}

/// The first `c` at or after `from` is at `at` when none stands between.
proof fn lemma_find_char_is(s: Seq<char>, c: char, from: int, at: int)
    requires
        0 <= from <= at < s.len(),
        s[at] == c,
        forall|j: int| from <= j < at ==> #[trigger] s[j] != c,
    ensures
        find_from(s, seq![c], from) == Some(at),
{
    lemma_single_occurs(s, c, at);
    assert forall|j: int| from <= j < at implies !occurs_at(s, seq![c], j) by {
        lemma_single_occurs(s, c, j);
    }
    lemma_find_from_is(s, seq![c], from, at);
}

/// Where `find_from` finds a single character, the character stands, and it
/// stands nowhere between.
proof fn lemma_find_char_some(s: Seq<char>, c: char, from: int)
    requires
        0 <= from,
        find_from(s, seq![c], from) is Some,
    ensures
        ({
            let at = find_from(s, seq![c], from)->0;
            &&& from <= at < s.len()
            &&& s[at] == c
            &&& forall|j: int| from <= j < at ==> #[trigger] s[j] != c
        }),
{
    lemma_find_from_some(s, seq![c], from);
    let at = find_from(s, seq![c], from)->0;
    lemma_single_occurs(s, c, at);
    assert forall|j: int| from <= j < at implies #[trigger] s[j] != c by {
        lemma_single_occurs(s, c, j);
    }
}

/// The text of plain pairs holds no `>`, and starts with a space when there
/// is a pair at all.
proof fn lemma_render_shape(pairs: Pairs)
    requires
        plain_pairs(pairs),
    ensures
        no_char(render_attributes(pairs), '>'),
        pairs.len() > 0 ==> render_attributes(pairs).len() > 0 && render_attributes(pairs)[0]
            == ' ',
        pairs.len() == 0 ==> render_attributes(pairs).len() == 0,
    decreases pairs.len(),
{
    if pairs.len() > 0 {
        let pair = pairs.first();
        let rest = pairs.drop_first();
        assert(plain_pair(pairs[0]));
        assert(plain_pairs(rest)) by {
            assert forall|i: int| 0 <= i < rest.len() implies plain_pair(#[trigger] rest[i]) by {
                assert(rest[i] == pairs[i + 1]);
            }
        }
        lemma_render_shape(rest);
        let one = render_attribute(pair);
        let text = render_attributes(pairs);
        assert(text == one + render_attributes(rest));
        assert forall|i: int| 0 <= i < one.len() implies #[trigger] one[i] != '>' by {
            let k = pair.0.len() as int;
            if 1 <= i < 1 + k {
                assert(one[i] == pair.0[i - 1]);
                assert(is_word_char(pair.0[i - 1]));
            } else if 3 + k <= i < one.len() - 1 {
                assert(one[i] == pair.1[i - 3 - k]);
            }
        }
        assert forall|i: int| 0 <= i < text.len() implies #[trigger] text[i] != '>' by {
            if i < one.len() {
                assert(text[i] == one[i]);
            } else {
                assert(text[i] == render_attributes(rest)[i - one.len()]);
            }
        }
        assert(text[0] == one[0]);
    }
}

/// Reading the text of plain pairs gives the pairs back, wherever in a text
/// it ends.
proof fn lemma_tokens_of_render(s: Seq<char>, at: int, pairs: Pairs)
    requires
        0 <= at <= s.len(),
        s.subrange(at, s.len() as int) == render_attributes(pairs),
        plain_pairs(pairs),
    ensures
        attribute_tokens(s, at) == pairs,
    decreases pairs.len(),
{
    let tail = s.subrange(at, s.len() as int);
    if pairs.len() == 0 {
        assert(tail.len() == 0);
        assert(attribute_tokens(s, at) =~= pairs);
    } else {
        let pair = pairs.first();
        let rest = pairs.drop_first();
        let key = pair.0;
        let value = pair.1;
        let one = render_attribute(pair);
        let k = key.len() as int;
        let v = value.len() as int;
        assert(plain_pair(pairs[0]));
        assert(plain_pairs(rest)) by {
            assert forall|i: int| 0 <= i < rest.len() implies plain_pair(#[trigger] rest[i]) by {
                assert(rest[i] == pairs[i + 1]);
            }
        }
        assert(tail == one + render_attributes(rest));
        assert(one.len() == k + v + 4);
        assert forall|j: int| 0 <= j < one.len() implies s[at + j] == #[trigger] one[j] by {
            assert(tail[j] == one[j]);
            assert(tail[j] == s[at + j]);
        }
        assert(one[0] == ' ');
        assert(s[at] == ' ');
        assert(word_run_end(s, at) == at);
        assert(attribute_at(s, at) is None);
        let key_end = at + 1 + k;
        assert forall|j: int| at + 1 <= j < key_end implies is_word_char(#[trigger] s[j]) by {
            assert(s[j] == one[j - at]);
            assert(one[j - at] == key[j - at - 1]);
        }
        assert(one[1 + k] == '=');
        assert(s[key_end] == '=');
        lemma_word_run_is(s, at + 1, key_end);
        assert(one[2 + k] == '"');
        assert(s[key_end + 1] == '"');
        let quote = key_end + 2 + v;
        assert(one[3 + k + v] == '"');
        assert(s[quote] == '"');
        assert forall|j: int| key_end + 2 <= j < quote implies #[trigger] s[j] != '"' by {
            assert(s[j] == one[j - at]);
            assert(one[j - at] == value[j - key_end - 2]);
        }
        lemma_find_char_is(s, '"', key_end + 2, quote);
        assert(s.subrange(at + 1, key_end) =~= key) by {
            assert forall|j: int| 0 <= j < k implies s.subrange(at + 1, key_end)[j] == key[j] by {
                assert(s[at + 1 + j] == one[1 + j]);
            }
        }
        assert(s.subrange(key_end + 2, quote) =~= value) by {
            assert forall|j: int| 0 <= j < v implies s.subrange(key_end + 2, quote)[j]
                == value[j] by {
                assert(s[at + 3 + k + j] == one[3 + k + j]);
            }
        }
        assert(attribute_at(s, at + 1) == Some((key, value, quote + 1)));
        assert(s.subrange(quote + 1, s.len() as int) =~= render_attributes(rest)) by {
            assert forall|j: int| 0 <= j < render_attributes(rest).len() implies s.subrange(
                quote + 1,
                s.len() as int,
            )[j] == render_attributes(rest)[j] by {
                assert(tail[one.len() + j] == render_attributes(rest)[j]);
            }
        }
        lemma_tokens_of_render(s, quote + 1, rest);
        assert(attribute_tokens(s, at + 1) == seq![pair] + rest);
        assert(seq![pair] + rest =~= pairs);
    }
}

/// No closing tag of `tag` starts inside `body` when the body, an element's
/// closing tag after it, holds none itself.
proof fn lemma_no_early_closing_tag(s: Seq<char>, tag: Seq<char>, body_start: int, body: Seq<char>)
    requires
        0 <= body_start,
        all_word_chars(tag),
        !contains_seq(body, closing_tag(tag)),
        s.len() == body_start + body.len() + closing_tag(tag).len(),
        s.subrange(body_start, body_start + body.len()) == body,
        s.subrange(body_start + body.len(), s.len() as int) == closing_tag(tag),
    ensures
        find_from(s, closing_tag(tag), body_start) == Some(body_start + body.len()),
{
    let closing = closing_tag(tag);
    let close_start = body_start + body.len();
    assert(closing.len() == tag.len() + 3);
    assert(occurs_at(s, closing, close_start));
    assert forall|j: int| body_start <= j < close_start implies !occurs_at(s, closing, j) by {
        if occurs_at(s, closing, j) {
            let found = s.subrange(j, j + closing.len());
            if j + closing.len() <= close_start {
                assert(body.subrange(j - body_start, j - body_start + closing.len()) =~= found);
                assert(occurs_at(body, closing, j - body_start));
            } else {
                let k = close_start - j;
                assert(found[k] == s[close_start]);
                assert(s[close_start] == s.subrange(close_start, s.len() as int)[0]);
                assert(closing[0] == '<');
                assert(closing[k] == '<');
                if k == 1 {
                    assert(closing[1] == '/');
                } else if k < closing.len() - 1 {
                    assert(closing[k] == tag[k - 2]);
                    assert(is_word_char(tag[k - 2]));
                } else {
                    assert(closing[k] == '>');
                }
            }
        }
    }
    lemma_find_from_is(s, closing, body_start, close_start);
}

/// Extraction returns a record with plain head and body from its canonical
/// text: the same record, but for an empty attribute list, which comes back
/// as no list.
pub proof fn lemma_extract_reconstructed(record: Record)
    requires
        plain_head(record),
        plain_body(record),
    ensures
        extract(reconstruct(record)) == Ok::<Record, MalformedElement>(settled(record)),
{
    let tag = record.tag;
    let body = record.body;
    let attrs = attribute_text(record.attributes);
    let closing = closing_tag(tag);
    let s = reconstruct(record);
    let name_end: int = tag.len() as int + 1;
    let open_end: int = name_end + attrs.len();
    let close_start: int = open_end + 1 + body.len();
    assert(s.len() == close_start + closing.len());
    assert(s[0] == '<');
    assert(s.subrange(1, name_end) =~= tag);
    assert(s.subrange(name_end, open_end) =~= attrs);
    assert(s[open_end] == '>');
    assert(s.subrange(open_end + 1, close_start) =~= body);
    assert(s.subrange(close_start, s.len() as int) =~= closing);
    match record.attributes {
        Some(pairs) => {
            lemma_render_shape(pairs);
        },
        None => {},
    }
    assert(no_char(attrs, '>'));
    assert(attrs.len() > 0 ==> attrs[0] == ' ');
    assert forall|j: int| 1 <= j < name_end implies is_word_char(#[trigger] s[j]) by {
        assert(s[j] == tag[j - 1]);
    }
    assert(!is_word_char(s[name_end])) by {
        if attrs.len() > 0 {
            assert(s[name_end] == attrs[0]);
        }
    }
    lemma_word_run_is(s, 1, name_end);
    assert forall|j: int| name_end <= j < open_end implies #[trigger] s[j] != '>' by {
        assert(s[j] == attrs[j - name_end]);
    }
    lemma_find_char_is(s, '>', name_end, open_end);
    lemma_no_early_closing_tag(s, tag, open_end + 1, body);
    let span = Span { start: 0, name_end, open_end, close_start };
    assert(element_at(s, 0) == Some(span));
    assert(first_element(s, 0) == Some(span));
    match record.attributes {
        Some(pairs) => {
            if pairs.len() > 0 {
                assert(attrs.subrange(0, attrs.len() as int) =~= attrs);
                lemma_tokens_of_render(attrs, 0, pairs);
                lemma_collect_of_unique(pairs);
            }
        },
        None => {},
    }
    assert(attributes_of(attrs) == settled(record).attributes);
    assert(record_at(s, span, body) == settled(record));
}

/// The attributes written in a text without `>` are plain pairs.
proof fn lemma_tokens_are_plain(s: Seq<char>, from: int)
    requires
        0 <= from,
        no_char(s, '>'),
    ensures
        plain_pairs(attribute_tokens(s, from)),
    decreases s.len() - from,
{
    if from < s.len() {
        match attribute_at(s, from) {
            Some((key, value, next)) => {
                if from < next <= s.len() {
                    let key_end = word_run_end(s, from);
                    lemma_word_run(s, from);
                    lemma_find_char_some(s, '"', key_end + 2);
                    let quote = find_from(s, seq!['"'], key_end + 2)->0;
                    assert(key == s.subrange(from, key_end));
                    assert(value == s.subrange(key_end + 2, quote));
                    assert forall|j: int| 0 <= j < key.len() implies is_word_char(
                        #[trigger] key[j],
                    ) by {
                        assert(key[j] == s[from + j]);
                    }
                    assert forall|j: int| 0 <= j < value.len() implies #[trigger] value[j]
                        != '"' by {
                        assert(value[j] == s[key_end + 2 + j]);
                    }
                    assert forall|j: int| 0 <= j < value.len() implies #[trigger] value[j]
                        != '>' by {
                        assert(value[j] == s[key_end + 2 + j]);
                    }
                    assert(plain_pair((key, value)));
                    lemma_tokens_are_plain(s, next);
                    let rest = attribute_tokens(s, next);
                    let all = attribute_tokens(s, from);
                    assert(all == seq![(key, value)] + rest);
                    assert forall|i: int| 0 <= i < all.len() implies plain_pair(
                        #[trigger] all[i],
                    ) by {
                        if i > 0 {
                            assert(all[i] == rest[i - 1]);
                        }
                    }
                }
            },
            None => {
                lemma_tokens_are_plain(s, from + 1);
            },
        }
    }
}

/// Collecting plain pairs gives plain pairs.
proof fn lemma_collect_is_plain(tokens: Pairs)
    requires
        plain_pairs(tokens),
    ensures
        plain_pairs(collect(tokens)),
    decreases tokens.len(),
{
    if tokens.len() > 0 {
        let front = tokens.drop_last();
        assert(plain_pairs(front)) by {
            assert forall|i: int| 0 <= i < front.len() implies plain_pair(#[trigger] front[i]) by {
                assert(front[i] == tokens[i]);
            }
        }
        lemma_collect_is_plain(front);
        let last = tokens.last();
        assert(plain_pair(tokens[tokens.len() - 1]));
        let before = collect(front);
        let after = put(before, last.0, last.1);
        lemma_position_of(before, last.0);
        assert forall|i: int| 0 <= i < after.len() implies plain_pair(#[trigger] after[i]) by {
            match position_of(before, last.0) {
                Some(p) => {
                    if i != p {
                        assert(after[i] == before[i]);
                    }
                },
                None => {
                    if i < before.len() {
                        assert(after[i] == before[i]);
                    }
                },
            }
        }
    }
}

/// Every record that extraction returns has a plain head: its tag is a
/// non-empty run of word characters, and its attributes are plain pairs with
/// names that differ from one another.
pub proof fn lemma_extracted_head_is_plain(text: Seq<char>)
    requires
        extract(text) is Ok,
    ensures
        plain_head(extract(text)->Ok_0),
{
    let span = first_element(text, 0)->0;
    lemma_first_element(text, 0);
    lemma_element_at(text, span.start);
    lemma_word_run(text, span.start + 1);
    let record = extract(text)->Ok_0;
    assert(record.tag == text.subrange(span.start + 1, span.name_end));
    assert forall|j: int| 0 <= j < record.tag.len() implies is_word_char(
        #[trigger] record.tag[j],
    ) by {
        assert(record.tag[j] == text[span.start + 1 + j]);
    }
    let between = text.subrange(span.name_end, span.open_end);
    lemma_find_char_some(text, '>', span.name_end);
    assert forall|j: int| 0 <= j < between.len() implies #[trigger] between[j] != '>' by {
        assert(between[j] == text[span.name_end + j]);
    }
    if between.len() > 0 {
        lemma_tokens_are_plain(between, 0);
        lemma_collect_is_plain(attribute_tokens(between, 0));
        lemma_collect_unique(attribute_tokens(between, 0));
    }
}

/// Writing an extracted record and reading it again is stable.
///
/// Let `record` be what extraction returns for `text`, with a body that is
/// plain. Then extraction of the text that is written for `record` succeeds,
/// and the record it returns is written as that same text: the canonical
/// text is a fixed point of extraction followed by reconstruction. The
/// record that comes back is `record` itself, but for an empty attribute
/// list, which comes back as no list.
pub proof fn reconstructed_text_is_stable(text: Seq<char>)
    requires
        extract(text) is Ok,
        plain_body(extract(text)->Ok_0),
    ensures
        ({
            let record = extract(text)->Ok_0;
            &&& extract(canonical_text(record)) == Ok::<Record, MalformedElement>(settled(record))
            &&& canonical_text(settled(record)) == canonical_text(record)
        }),
{
    let record = extract(text)->Ok_0;
    lemma_extracted_head_is_plain(text);
    lemma_extract_reconstructed(record);
    assert(attribute_text(settled(record).attributes) =~= attribute_text(record.attributes));
    assert(canonical_text(record) == reconstruct(record));
    assert(canonical_text(settled(record)) == reconstruct(settled(record)));
}

/// A record that `round_trips` comes back unchanged: the text that is
/// written for it is its canonical element text, and extraction of that
/// text returns the record itself.
pub proof fn extract_inverts_reconstruct(record: Record)
    requires
        round_trips(record),
    ensures
        canonical_text(record) == reconstruct(record),
        extract(canonical_text(record)) == Ok::<Record, MalformedElement>(record),
{
    lemma_extract_reconstructed(record);
    assert(settled(record) == record);
}

/// Whether every character of `text` is a word character.
pub fn is_word(text: &str) -> (b: bool)
    ensures
        b == all_word_chars(text@),
{
    let chars = chars_of(text);
    let mut i: usize = 0;
    while i < chars.len()
        invariant
            i <= chars.len(),
            chars@ == text@,
            forall|j: int| 0 <= j < i ==> is_word_char(#[trigger] chars@[j]),
        decreases chars.len() - i,
    {
        if !word_char(chars[i]) {
            assert(!is_word_char(chars@[i as int]));
            return false;
        }
        i += 1;
    }
    true
}

/// Whether `c` does not occur in `text`.
pub fn lacks_char(text: &str, c: char) -> (b: bool)
    ensures
        b == no_char(text@, c),
{
    let chars = chars_of(text);
    let mut i: usize = 0;
    while i < chars.len()
        invariant
            i <= chars.len(),
            chars@ == text@,
            forall|j: int| 0 <= j < i ==> #[trigger] chars@[j] != c,
        decreases chars.len() - i,
    {
        if chars[i] == c {
            return false;
        }
        i += 1;
    }
    true
}

/// Whether every pair of `list` can be written as an attribute and read
/// back.
pub fn has_plain_pairs(list: &Vec<(String, String)>) -> (b: bool)
    ensures
        b == plain_pairs(pairs_view(list@)),
{
    let ghost pairs = pairs_view(list@);
    let mut i: usize = 0;
    while i < list.len()
        invariant
            i <= list.len(),
            pairs == pairs_view(list@),
            forall|j: int| 0 <= j < i ==> plain_pair(#[trigger] pairs[j]),
        decreases list.len() - i,
    {
        let name = list[i].0.as_str();
        let value = list[i].1.as_str();
        if name.is_empty() || !is_word(name) || !lacks_char(value, '"') || !lacks_char(value, '>') {
            assert(!plain_pair(pairs[i as int]));
            return false;
        }
        assert(plain_pair(pairs[i as int]));
        i += 1;
    }
    true
}

/// Whether the tag and the attributes of `info` can be written and read
/// back.
pub fn has_plain_head(info: &CustomXmlInfo) -> (b: bool)
    ensures
        b == plain_head(info@),
{
    if info.tag.as_str().is_empty() || !is_word(info.tag.as_str()) {
        return false;
    }
    match &info.attributes {
        Some(list) => has_unique_names(list) && has_plain_pairs(list),
        None => true,
    }
}

/// Whether the body of `info` can be written and read back, once the JSON
/// library has been asked for its compact form: the compact form is the
/// body itself, and the body does not hold the closing tag of the record.
pub fn has_plain_body(info: &CustomXmlInfo, compact: Option<String>) -> (b: bool)
    ensures
        b == (compact is Some && compact->0@ == info@.body && !contains_seq(
            info@.body,
            closing_tag(info@.tag),
        )),
{
    match compact {
        None => false,
        Some(text) => {
            if !same_text(text.as_str(), info.json_content.as_str()) {
                return false;
            }
            let body = chars_of(info.json_content.as_str());
            let tag = chars_of(info.tag.as_str());
            let mut closing: Vec<char> = Vec::new();
            closing.push('<');
            closing.push('/');
            let mut k: usize = 0;
            while k < tag.len()
                invariant
                    k <= tag.len(),
                    closing@ == seq!['<', '/'] + tag@.take(k as int),
                decreases tag.len() - k,
            {
                closing.push(tag[k]);
                assert(tag@.take(k + 1) == tag@.take(k as int).push(tag@[k as int]));
                k += 1;
            }
            assert(tag@.take(tag.len() as int) == tag@);
            closing.push('>');
            assert(closing@ == closing_tag(info@.tag));
            !contains_chars(&body, &closing)
        },
    }
}

/// Whether extraction returns `info` unchanged from its canonical text.
/// For a record that passes, `extract_inverts_reconstruct` holds, and a
/// manifest of such records, each for a file of its own, is one that a
/// second pass leaves alone.
pub fn record_round_trips(info: &CustomXmlInfo) -> (b: bool)
    ensures
        b == round_trips(info@),
{
    if !has_plain_head(info) {
        return false;
    }
    let listed = match &info.attributes {
        Some(list) => list.len() > 0,
        None => true,
    };
    if !listed {
        return false;
    }
    let compact = compact_json(info.json_content.as_str());
    has_plain_body(info, compact)
}

} // verus!
