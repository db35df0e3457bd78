//! Writing a record back as element text, and bringing the element files of
//! an unpacked package in step with the manifest.

use crate::analyze_custom_xml::{
    closing_tag, compact_json, extract, json_compact, manifest_entries,
    parse_custom_xml_content_for_tag, CustomXmlFile, CustomXmlInfo, Entry, Record,
};
use crate::attributes::{pairs_view, Pairs};
use crate::record_eq::same_record;
use crate::text::{join_path, joined, push_text};
use crate::types::{CUSTOM_XML_FILE_NAME, EXTRACTED_FOLDER_NAME};
use vstd::prelude::*;

verus! {

/// The text of one attribute: a space, the name, `=`, and the value between
/// double quotes.
pub open spec fn render_attribute(pair: (Seq<char>, Seq<char>)) -> Seq<char> {
    seq![' '] + pair.0 + seq!['=', '"'] + pair.1 + seq!['"']
}

/// The text of the attributes of a list, in the order of the list.
pub open spec fn render_attributes(pairs: Pairs) -> Seq<char>
    decreases pairs.len(),
{
    if pairs.len() == 0 {
        Seq::empty()
    } else {
        render_attribute(pairs.first()) + render_attributes(pairs.drop_first())
    }
}

/// The attribute text of a record: nothing when it has no attribute list.
pub open spec fn attribute_text(attributes: Option<Pairs>) -> Seq<char> {
    match attributes {
        Some(pairs) => render_attributes(pairs),
        None => Seq::empty(),
    }
}

/// The canonical element text of a record: the opening tag with the
/// attributes in their order, the body, and the closing tag.
pub open spec fn reconstruct(record: Record) -> Seq<char> {
    seq!['<'] + record.tag + attribute_text(record.attributes) + seq!['>'] + record.body
        + closing_tag(record.tag)
}

/// The text of a list with one more pair is the text of the list followed by
/// the text of the pair.
pub proof fn lemma_render_push(pairs: Pairs, pair: (Seq<char>, Seq<char>))
    ensures
        render_attributes(pairs.push(pair)) == render_attributes(pairs) + render_attribute(pair),
    decreases pairs.len(),
{
    let grown = pairs.push(pair);
    if pairs.len() == 0 {
        assert(grown.drop_first() == pairs);
        assert(grown.first() == pair);
        assert(render_attribute(pair) + Seq::<char>::empty() =~= Seq::<char>::empty()
            + render_attribute(pair));
    } else {
        assert(grown.drop_first() == pairs.drop_first().push(pair));
        assert(grown.first() == pairs.first());
        lemma_render_push(pairs.drop_first(), pair);
        assert(render_attribute(pairs.first()) + (render_attributes(pairs.drop_first())
            + render_attribute(pair)) == (render_attribute(pairs.first()) + render_attributes(
            pairs.drop_first(),
        )) + render_attribute(pair));
    }
}

/// Appends the text of the attributes of `list` to `out`.
fn push_attributes(out: &mut String, list: &Vec<(String, String)>)
    ensures
        final(out)@ == old(out)@ + render_attributes(pairs_view(list@)),
{
    let ghost pairs = pairs_view(list@);
    let mut i: usize = 0;
    assert(pairs.take(0) == Seq::<(Seq<char>, Seq<char>)>::empty());
    assert(out@ == old(out)@ + render_attributes(pairs.take(0)));
    while i < list.len()
        invariant
            i <= list.len(),
            pairs == pairs_view(list@),
            out@ == old(out)@ + render_attributes(pairs.take(i as int)),
        decreases list.len() - i,
    {
        let ghost before = out@;
        out.push(' ');
        push_text(out, list[i].0.as_str());
        out.push('=');
        out.push('"');
        push_text(out, list[i].1.as_str());
        out.push('"');
        proof {
            assert(out@ == before + render_attribute(pairs[i as int]));
            assert(pairs.take(i + 1) == pairs.take(i as int).push(pairs[i as int]));
            lemma_render_push(pairs.take(i as int), pairs[i as int]);
        }
        i += 1;
    }
    assert(pairs.take(list.len() as int) == pairs);
}

/// The body as it is written: its compact form where it is one JSON value,
/// and the body as it stands where it is none.
pub open spec fn written_body(body: Seq<char>) -> Seq<char> {
    match json_compact(body) {
        Some(compact) => compact,
        None => body,
    }
}

/// The text that is written for a record: its canonical element text with
/// the body in compact form.
pub open spec fn canonical_text(record: Record) -> Seq<char> {
    reconstruct(Record { body: written_body(record.body), ..record })
}

/// Writes a record as element text once the JSON library has been asked for
/// the compact form of its body: `<tag name="value" ...>body</tag>`, the
/// attributes in the order of the list, no attribute text at all for a
/// record without a list, and as body the compact form, or the body of the
/// record where `compact` is `None`.
pub fn reconstruct_with_body(info: &CustomXmlInfo, compact: Option<String>) -> (xml: String)
    ensures
        xml@ == reconstruct(
            Record {
                body: match compact {
                    Some(body) => body@,
                    None => info@.body,
                },
                ..info@
            },
        ),
{
    let mut xml = String::new();
    xml.push('<');
    push_text(&mut xml, info.tag.as_str());
    match &info.attributes {
        Some(list) => {
            push_attributes(&mut xml, list);
        },
        None => {},
    }
    xml.push('>');
    match &compact {
        Some(body) => {
            push_text(&mut xml, body.as_str());
        },
        None => {
            push_text(&mut xml, info.json_content.as_str());
        },
    }
    let ghost before = xml@;
    xml.push('<');
    xml.push('/');
    push_text(&mut xml, info.tag.as_str());
    xml.push('>');
    assert(xml@ == before + closing_tag(info.tag@));
    xml
}

/// Writes a record as canonical element text. The body is written in
/// compact form, without line breaks and without white space between its
/// parts; a body that is no JSON value is written as it stands. The text
/// depends on the record alone.
pub fn reconstruct_record(info: &CustomXmlInfo) -> (xml: String)
    ensures
        xml@ == canonical_text(info@),
{
    let compact = compact_json(info.json_content.as_str());
    reconstruct_with_body(info, compact)
}

/// Writes the record of a manifest entry as canonical element text.
pub fn reconstruct_xml_from_json(custom_xml_file: &CustomXmlFile) -> (xml: String)
    ensures
        xml@ == canonical_text(custom_xml_file@.record),
{
    reconstruct_record(&custom_xml_file.custom_xml_info)
}

/// How an element file stands to the record that the manifest expects.
#[derive(Debug, Clone, Copy, PartialEq, Eq, Structural)]
pub enum FileState {
    /// There is no file, or it cannot be read.
    Missing,
    /// The file holds no record.
    Unparsable,
    /// The file holds a record that differs from the expected one.
    Changed,
    /// The file holds the expected record.
    Unchanged,
}

/// The state of a file with the content `current` (`None` for a file that is
/// missing) against the record `expected`.
pub open spec fn file_state(current: Option<Seq<char>>, expected: Record) -> FileState {
    match current {
        None => FileState::Missing,
        Some(text) => match extract(text) {
            Err(_) => FileState::Unparsable,
            Ok(found) => if found == expected {
                FileState::Unchanged
            } else {
                FileState::Changed
            },
        },
    }
}

/// Whether a pass writes the file: always, unless the file holds the
/// expected record already.
pub open spec fn needs_write(current: Option<Seq<char>>, expected: Record) -> bool {
    file_state(current, expected) != FileState::Unchanged
}

/// The view of an optional text.
pub open spec fn text_view(text: Option<&str>) -> Option<Seq<char>> {
    match text {
        Some(s) => Some(s@),
        None => None,
    }
}

/// Compares the content of an element file with the record that the manifest
/// expects. `current_content` is `None` when the file is missing or cannot be
/// read.
pub fn compare_with_file(current_content: Option<&str>, expected_info: &CustomXmlInfo) -> (state:
    FileState)
    ensures
        state == file_state(text_view(current_content), expected_info@),
{
    match current_content {
        None => FileState::Missing,
        Some(text) => match parse_custom_xml_content_for_tag(text) {
            Err(_) => FileState::Unparsable,
            Ok(found) => if same_record(&found, expected_info) {
                FileState::Unchanged
            } else {
                FileState::Changed
            },
        },
    }
}

/// Whether the file has to be written to hold the expected record.
///
/// A file that is missing, cannot be read or holds no record counts as
/// different and has to be written, like a file that holds another record.
/// The answer is `false` only for a file that is there and holds the
/// expected record: the same tag, the same attributes in the same order and
/// the same body.
pub fn should_update_file(current_content: Option<&str>, expected_info: &CustomXmlInfo) -> (r:
    bool)
    ensures
        r == needs_write(text_view(current_content), expected_info@),
{
    match compare_with_file(current_content, expected_info) {
        FileState::Unchanged => false,
        _ => true,
    }
}

/// Why a pass did not start.
#[derive(Debug, Clone, Copy, PartialEq, Eq, Structural)]
pub enum SyncError {
    /// There is no manifest in the package root.
    MissingManifest,
    /// The manifest could not be read as a list of entries.
    UnreadableManifest,
    /// The manifest has no entries, and the policy does not accept that.
    EmptyManifest,
    /// None of the folders for element files exists, and the policy does not
    /// create one.
    MissingTargetFolder,
}

impl SyncError {
    /// The message shown for this failure.
    pub fn message(&self) -> (m: &'static str)
        ensures
            m@ == match *self {
                SyncError::MissingManifest => "customXml.json file not found in the root folder"@,
                SyncError::UnreadableManifest => "Failed to read customXml.json"@,
                SyncError::EmptyManifest => "No custom XML files found in customXml.json"@,
                SyncError::MissingTargetFolder => "customXml folder not found in the extracted folder"@,
            },
    {
        match self {
            SyncError::MissingManifest => "customXml.json file not found in the root folder",
            SyncError::UnreadableManifest => "Failed to read customXml.json",
            SyncError::EmptyManifest => "No custom XML files found in customXml.json",
            SyncError::MissingTargetFolder => "customXml folder not found in the extracted folder",
        }
    }
}

/// What was found where the manifest should be.
#[derive(Debug)]
pub enum ManifestSource {
    /// There is no such file.
    Missing,
    /// The file is there but is not a list of entries.
    Unreadable,
    /// The entries of the manifest, in their order.
    Loaded(Vec<CustomXmlFile>),
}

/// What a pass does where two behaviours are acceptable.
#[derive(Debug, Clone, Copy, PartialEq, Eq, Structural)]
pub struct SyncPolicy {
    /// A manifest without entries is a pass with nothing to do, not a
    /// failure.
    pub allow_empty_manifest: bool,
    /// When no folder for element files exists, the first candidate is
    /// created, and the pass goes on.
    pub create_missing_folder: bool,
}

impl SyncPolicy {
    /// The strict policy: an empty manifest and a missing folder both fail
    /// the pass.
    pub fn strict() -> (policy: SyncPolicy)
        ensures
            policy == (SyncPolicy { allow_empty_manifest: false, create_missing_folder: false }),
    {
        SyncPolicy { allow_empty_manifest: false, create_missing_folder: false }
    }

    /// The lenient policy: an empty manifest is accepted, and a missing
    /// folder is created.
    pub fn lenient() -> (policy: SyncPolicy)
        ensures
            policy == (SyncPolicy { allow_empty_manifest: true, create_missing_folder: true }),
    {
        SyncPolicy { allow_empty_manifest: true, create_missing_folder: true }
    }
}

/// Name of the folder for element files, as most producers write it.
pub const CUSTOM_XML_FOLDER_NAME: &'static str = "customXml";

/// Name of the folder for element files, as some producers write it.
pub const CUSTOM_XML_FOLDER_NAME_UPPER: &'static str = "customXML";

/// The path of the manifest of the package at `root`.
pub open spec fn manifest_path_of(root: Seq<char>) -> Seq<char> {
    joined(root, CUSTOM_XML_FILE_NAME@)
}

/// The path of the unpacked tree of the package at `root`.
pub open spec fn unpacked_folder_of(root: Seq<char>) -> Seq<char> {
    joined(root, EXTRACTED_FOLDER_NAME@)
}

/// The path of a candidate folder for element files of the package at
/// `root`: the first candidate, or the one with the other capitalisation.
pub open spec fn candidate_folder_of(root: Seq<char>, second: bool) -> Seq<char> {
    joined(
        unpacked_folder_of(root),
        if second {
            CUSTOM_XML_FOLDER_NAME_UPPER@
        } else {
            CUSTOM_XML_FOLDER_NAME@
        },
    )
}

/// The path of the manifest of the package at `root_folder`.
pub fn manifest_path(root_folder: &str) -> (path: String)
    ensures
        path@ == manifest_path_of(root_folder@),
{
    join_path(root_folder, CUSTOM_XML_FILE_NAME)
}

/// The path of the unpacked tree of the package at `root_folder`.
pub fn unpacked_folder(root_folder: &str) -> (path: String)
    ensures
        path@ == unpacked_folder_of(root_folder@),
{
    join_path(root_folder, EXTRACTED_FOLDER_NAME)
}

/// The path of a candidate folder for element files.
pub fn candidate_folder(root_folder: &str, second: bool) -> (path: String)
    ensures
        path@ == candidate_folder_of(root_folder@, second),
{
    let unpacked = unpacked_folder(root_folder);
    if second {
        join_path(unpacked.as_str(), CUSTOM_XML_FOLDER_NAME_UPPER)
    } else {
        join_path(unpacked.as_str(), CUSTOM_XML_FOLDER_NAME)
    }
}

/// The counts of a pass.
#[derive(Debug, Clone, Copy, PartialEq, Eq, Structural)]
pub struct SyncReport {
    /// Files written.
    pub synced: usize,
    /// Files left as they were, because they held the expected record.
    pub skipped: usize,
    /// Files that should have been written and could not be.
    pub failed: usize,
    /// Entries of the manifest.
    pub total: usize,
}

/// What the caller of a pass does next.
#[derive(Debug)]
pub enum SyncAction {
    /// Read the file at `path` and hand its content back.
    Read { path: String },
    /// Write `content` to the file at `path` and hand back whether that
    /// worked.
    Write { path: String, content: String },
    /// The pass is over.
    Finish(SyncReport),
}

/// What the caller of a pass hands back.
#[derive(Debug)]
pub enum SyncEvent {
    /// The content of the file that was to be read; `None` when it is
    /// missing or cannot be read.
    Content(Option<String>),
    /// Whether the file that was to be written was written.
    WriteResult(bool),
}

/// The mathematical value of a `SyncAction`.
pub enum Action {
    Read { path: Seq<char> },
    Write { path: Seq<char>, content: Seq<char> },
    Finish { synced: nat, skipped: nat, failed: nat, total: nat },
}

/// The mathematical value of a `SyncEvent`.
pub enum Event {
    Content(Option<Seq<char>>),
    WriteResult(bool),
}

impl View for SyncAction {
    type V = Action;

    open spec fn view(&self) -> Action {
        match *self {
            SyncAction::Read { path } => Action::Read { path: path@ },
            SyncAction::Write { path, content } => Action::Write {
                path: path@,
                content: content@,
            },
            SyncAction::Finish(report) => Action::Finish {
                synced: report.synced as nat,
                skipped: report.skipped as nat,
                failed: report.failed as nat,
                total: report.total as nat,
            },
        }
    }
}

impl View for SyncEvent {
    type V = Event;

    open spec fn view(&self) -> Event {
        match *self {
            SyncEvent::Content(Some(text)) => Event::Content(Some(text@)),
            SyncEvent::Content(None) => Event::Content(None),
            SyncEvent::WriteResult(ok) => Event::WriteResult(ok),
        }
    }
}

/// The mathematical value of a pass in progress.
pub struct Run {
    /// The entries of the manifest.
    pub entries: Seq<Entry>,
    /// The folder of the element files.
    pub folder: Seq<char>,
    /// Whether the folder has to be created before the first file is read.
    pub create_folder: bool,
    /// The number of entries that are done.
    pub position: nat,
    /// Whether the entry at `position` waits for the result of its write.
    pub awaiting_write: bool,
    pub synced: nat,
    pub skipped: nat,
    pub failed: nat,
}

/// The counts of the pass fit its position: every entry that is done was
/// synced, skipped or failed, no more entries are done than there are, and
/// an entry that waits for its write is there.
pub open spec fn counted(run: Run) -> bool {
    &&& run.synced + run.skipped + run.failed == run.position
    &&& run.position <= run.entries.len()
    &&& run.awaiting_write ==> run.position < run.entries.len()
}

/// The pass over `entries` in `folder` before anything was done.
pub open spec fn fresh_run(entries: Seq<Entry>, folder: Seq<char>, create_folder: bool) -> Run {
    Run {
        entries,
        folder,
        create_folder,
        position: 0,
        awaiting_write: false,
        synced: 0,
        skipped: 0,
        failed: 0,
    }
}

/// What the caller has to do in the state `run`: write the file of the
/// current entry when the pass waits for that, else read the file of the
/// current entry, and finish when no entry is left.
pub open spec fn action_of(run: Run) -> Action {
    if run.position >= run.entries.len() {
        Action::Finish {
            synced: run.synced,
            skipped: run.skipped,
            failed: run.failed,
            total: run.entries.len(),
        }
    } else {
        let entry = run.entries[run.position as int];
        if run.awaiting_write {
            Action::Write {
                path: joined(run.folder, entry.name),
                content: canonical_text(entry.record),
            }
        } else {
            Action::Read { path: joined(run.folder, entry.name) }
        }
    }
}

/// The state after `event` in the state `run`.
///
/// A content that the pass asked for either leaves the entry waiting for its
/// write, when the file has to be written, or counts the entry as skipped. A
/// write result counts the entry as synced or as failed. Both move on to the
/// next entry. An event that the pass did not ask for changes nothing.
pub open spec fn step_of(run: Run, event: Event) -> Run {
    if run.position >= run.entries.len() {
        run
    } else {
        match event {
            Event::Content(current) => if run.awaiting_write {
                run
            } else if needs_write(current, run.entries[run.position as int].record) {
                Run { awaiting_write: true, ..run }
            } else {
                Run { position: run.position + 1, skipped: run.skipped + 1, ..run }
            },
            Event::WriteResult(ok) => if !run.awaiting_write {
                run
            } else if ok {
                Run {
                    position: run.position + 1,
                    awaiting_write: false,
                    synced: run.synced + 1,
                    ..run
                }
            } else {
                Run {
                    position: run.position + 1,
                    awaiting_write: false,
                    failed: run.failed + 1,
                    ..run
                }
            },
        }
    }
}

/// How a pass starts: the failure that stops it before any file is touched,
/// or its first state.
///
/// The manifest must be there, must be readable, and must have entries
/// unless the policy allows an empty one. The folder of the element files is
/// the first candidate that exists; when none exists the policy decides
/// between a failure and creating the first candidate.
pub open spec fn start_of(
    root: Seq<char>,
    manifest: Option<Option<Seq<Entry>>>,
    first_exists: bool,
    second_exists: bool,
    policy: SyncPolicy,
) -> Result<Run, SyncError> {
    match manifest {
        None => Err(SyncError::MissingManifest),
        Some(None) => Err(SyncError::UnreadableManifest),
        Some(Some(entries)) => if entries.len() == 0 && !policy.allow_empty_manifest {
            Err(SyncError::EmptyManifest)
        } else if first_exists {
            Ok(fresh_run(entries, candidate_folder_of(root, false), false))
        } else if second_exists {
            Ok(fresh_run(entries, candidate_folder_of(root, true), false))
        } else if policy.create_missing_folder {
            Ok(fresh_run(entries, candidate_folder_of(root, false), true))
        } else {
            Err(SyncError::MissingTargetFolder)
        },
    }
}

/// The view of what was found where the manifest should be.
pub open spec fn manifest_view(manifest: ManifestSource) -> Option<Option<Seq<Entry>>> {
    match manifest {
        ManifestSource::Missing => None,
        ManifestSource::Unreadable => Some(None),
        ManifestSource::Loaded(entries) => Some(Some(manifest_entries(entries@))),
    }
}

/// How far a pass has come.
#[derive(Debug, Clone, Copy)]
struct Progress {
    position: usize,
    synced: usize,
    skipped: usize,
    failed: usize,
}

/// A pass in progress: the entries, the folder of their files, and how far
/// the pass has come.
#[derive(Debug)]
pub struct SyncRun {
    entries: Vec<CustomXmlFile>,
    folder: String,
    create_folder: bool,
    awaiting_write: bool,
    progress: Progress,
}

impl View for SyncRun {
    type V = Run;

    closed spec fn view(&self) -> Run {
        Run {
            entries: manifest_entries(self.entries@),
            folder: self.folder@,
            create_folder: self.create_folder,
            position: self.progress.position as nat,
            awaiting_write: self.awaiting_write,
            synced: self.progress.synced as nat,
            skipped: self.progress.skipped as nat,
            failed: self.progress.failed as nat,
        }
    }
}

impl SyncRun {
    #[verifier::type_invariant]
    spec fn inv(self) -> bool {
        &&& self.progress.synced + self.progress.skipped + self.progress.failed
            == self.progress.position
        &&& self.progress.position <= self.entries.len()
        &&& self.awaiting_write ==> self.progress.position < self.entries.len()
    }

    /// The folder of the element files.
    pub fn folder(&self) -> (folder: &str)
        ensures
            folder@ == self@.folder,
    {
        self.folder.as_str()
    }

    /// Whether the folder of the element files has to be created before the
    /// first file is read.
    pub fn must_create_folder(&self) -> (create: bool)
        ensures
            create == self@.create_folder,
    {
        self.create_folder
    }

    /// The counts of the pass so far. Together they are the number of
    /// entries that are done, which is never more than the manifest has.
    pub fn report(&self) -> (report: SyncReport)
        ensures
            counted(self@),
            report.synced == self@.synced,
            report.skipped == self@.skipped,
            report.failed == self@.failed,
            report.total == self@.entries.len(),
            report.synced + report.skipped + report.failed == self@.position,
            report.synced + report.skipped + report.failed <= report.total,
    {
        proof {
            use_type_invariant(self);
        }
        SyncReport {
            synced: self.progress.synced,
            skipped: self.progress.skipped,
            failed: self.progress.failed,
            total: self.entries.len(),
        }
    }

    /// What the caller has to do now.
    pub fn action(&self) -> (action: SyncAction)
        ensures
            action@ == action_of(self@),
    {
        proof {
            use_type_invariant(self);
        }
        if self.progress.position >= self.entries.len() {
            SyncAction::Finish(self.report())
        } else {
            let entry = &self.entries[self.progress.position];
            let path = join_path(
                self.folder.as_str(),
                entry.file_info.file_name_with_extension.as_str(),
            );
            if self.awaiting_write {
                SyncAction::Write { path, content: reconstruct_xml_from_json(entry) }
            } else {
                SyncAction::Read { path }
            }
        }
    }

    /// Takes what the caller hands back, moves the pass on, and says what
    /// the caller has to do next.
    pub fn step(&mut self, event: SyncEvent) -> (action: SyncAction)
        ensures
            final(self)@ == step_of(old(self)@, event@),
            action@ == action_of(final(self)@),
            counted(old(self)@),
            counted(final(self)@),
    {
        proof {
            use_type_invariant(&*self);
        }
        let progress = self.progress;
        if progress.position < self.entries.len() {
            match event {
                SyncEvent::Content(current) => {
                    if !self.awaiting_write {
                        let state = match &current {
                            Some(text) => compare_with_file(
                                Some(text.as_str()),
                                &self.entries[progress.position].custom_xml_info,
                            ),
                            None => compare_with_file(
                                None,
                                &self.entries[progress.position].custom_xml_info,
                            ),
                        };
                        match state {
                            FileState::Unchanged => {
                                self.progress = Progress {
                                    position: progress.position + 1,
                                    skipped: progress.skipped + 1,
                                    ..progress
                                };
                            },
                            _ => {
                                self.awaiting_write = true;
                            },
                        }
                    }
                },
                SyncEvent::WriteResult(ok) => {
                    if self.awaiting_write {
                        self.awaiting_write = false;
                        if ok {
                            self.progress = Progress {
                                position: progress.position + 1,
                                synced: progress.synced + 1,
                                ..progress
                            };
                        } else {
                            self.progress = Progress {
                                position: progress.position + 1,
                                failed: progress.failed + 1,
                                ..progress
                            };
                        }
                    }
                },
            }
        }
        proof {
            use_type_invariant(&*self);
        }
        self.action()
    }
}

/// Starts a pass that brings the element files of the package at
/// `root_folder` in step with the manifest.
///
/// The caller has looked for the manifest and for the two candidate folders
/// and hands in what it found. The result is the failure that stops the pass
/// before any file is touched, or the pass in its first state; `action` and
/// `step` then lead through it, one file at a time.
pub fn sync_custom_xml(
    root_folder: &str,
    manifest: ManifestSource,
    first_exists: bool,
    second_exists: bool,
    policy: SyncPolicy,
) -> (r: Result<SyncRun, SyncError>)
    ensures
        match r {
            Ok(run) => start_of(
                root_folder@,
                manifest_view(manifest),
                first_exists,
                second_exists,
                policy,
            ) == Ok::<Run, SyncError>(run@),
            Err(e) => start_of(
                root_folder@,
                manifest_view(manifest),
                first_exists,
                second_exists,
                policy,
            ) == Err::<Run, SyncError>(e),
        },
{
    match manifest {
        ManifestSource::Missing => Err(SyncError::MissingManifest),
        ManifestSource::Unreadable => Err(SyncError::UnreadableManifest),
        ManifestSource::Loaded(entries) => {
            if entries.len() == 0 && !policy.allow_empty_manifest {
                Err(SyncError::EmptyManifest)
            } else if first_exists || second_exists || policy.create_missing_folder {
                let second = !first_exists && second_exists;
                let folder = candidate_folder(root_folder, second);
                Ok(
                    SyncRun {
                        entries,
                        folder,
                        create_folder: !first_exists && !second_exists,
                        awaiting_write: false,
                        progress: Progress { position: 0, synced: 0, skipped: 0, failed: 0 },
                    },
                )
            } else {
                Err(SyncError::MissingTargetFolder)
            }
        },
    }
}

} // verus!
