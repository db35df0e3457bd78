//! What a watcher of a package does on each change that the file system
//! reports: which changes it acts on, which it drops, and what it asks its
//! caller to do.

use crate::attributes::{
    lemma_position_found, lemma_position_not_yet, lemma_put_unique, lemma_value_after_put,
    position_of, put, unique_keys, value_of,
};
use crate::text::{models, push_text, same_lists, same_text};
use vstd::prelude::*;

verus! {

/// The time, in milliseconds, within which a second modification of a path
/// is dropped.
pub const DEBOUNCE_WINDOW_MS: u64 = 200;

/// The extension of the container that a package is packed into.
pub const CONTAINER_EXTENSION: &'static str = "docx";

/// A path as the sequence of its components.
pub type PathKey = Seq<Seq<char>>;

/// The view of a path held as a vector of components.
pub open spec fn components_view(path: Seq<String>) -> PathKey {
    Seq::new(path.len(), |i: int| path[i]@)
}

/// What kind of change the file system reported.
#[derive(Debug, Clone, Copy, PartialEq, Eq, Structural)]
pub enum ChangeKind {
    Modify,
    Create,
    Remove,
    Other,
}

/// What a changed path leads to.
#[derive(Debug, Clone, Copy, PartialEq, Eq, Structural)]
pub enum Route {
    /// The manifest changed: the element files are brought in step with it.
    Resync,
    /// A file of the unpacked tree changed: the tree is packed again.
    Rezip,
    /// The path is neither the manifest nor below the unpacked tree.
    Unsupported,
}

/// Where a changed path leads: a path equal to the manifest is for a resync,
/// a path that starts with the path of the unpacked tree is for a rezip, and
/// every other path is unsupported. All three paths are taken in their
/// canonical form, component by component.
pub open spec fn route_of(changed: PathKey, manifest: PathKey, unpacked: PathKey) -> Route {
    if changed == manifest {
        Route::Resync
    } else if unpacked.is_prefix_of(changed) {
        Route::Rezip
    } else {
        Route::Unsupported
    }
}

/// Whether two components are the same text.
fn same_component(a: &String, b: &String) -> (r: bool)
    ensures
        r == (a@ == b@),
{
    same_text(a.as_str(), b.as_str())
}

/// Whether two paths have the same components.
pub fn same_components(a: &Vec<String>, b: &Vec<String>) -> (r: bool)
    ensures
        r == (components_view(a@) == components_view(b@)),
{
    let ghost model: spec_fn(String) -> Seq<char> = |part: String| part@;
    assert(components_view(a@) == models(a@, model));
    assert(components_view(b@) == models(b@, model));
    same_lists::<String, Seq<char>, _>(a, b, same_component, Ghost(model))
}

/// Whether `path` starts with the components of `prefix`.
pub fn starts_with_components(path: &Vec<String>, prefix: &Vec<String>) -> (r: bool)
    ensures
        r == components_view(prefix@).is_prefix_of(components_view(path@)),
{
    if prefix.len() > path.len() {
        return false;
    }
    let ghost whole = components_view(path@);
    let ghost head = components_view(prefix@);
    let mut i: usize = 0;
    while i < prefix.len()
        invariant
            i <= prefix.len() <= path.len(),
            whole == components_view(path@),
            head == components_view(prefix@),
            head.take(i as int) == whole.take(i as int),
        decreases prefix.len() - i,
    {
        if !same_text(path[i].as_str(), prefix[i].as_str()) {
            assert(whole.subrange(0, head.len() as int)[i as int] != head[i as int]);
            return false;
        }
        proof {
            assert(head[i as int] == whole[i as int]);
            assert(head.take(i + 1) == head.take(i as int).push(head[i as int]));
            assert(whole.take(i + 1) == whole.take(i as int).push(whole[i as int]));
        }
        i += 1;
    }
    assert(head.take(prefix.len() as int) == head);
    assert(whole.take(prefix.len() as int) == whole.subrange(0, head.len() as int));
    true
}

/// Where a changed path leads. All three paths are handed in in their
/// canonical form, as vectors of components.
pub fn classify_path(changed: &Vec<String>, manifest: &Vec<String>, unpacked: &Vec<String>) -> (route:
    Route)
    ensures
        route == route_of(
            components_view(changed@),
            components_view(manifest@),
            components_view(unpacked@),
        ),
{
    if same_components(changed, manifest) {
        Route::Resync
    } else if starts_with_components(changed, unpacked) {
        Route::Rezip
    } else {
        Route::Unsupported
    }
}

/// The name of the container of a package: the name of the root folder, a
/// dot, and the container extension. The container lies beside the root
/// folder.
pub open spec fn container_name_of(root_folder_name: Seq<char>) -> Seq<char> {
    root_folder_name + seq!['.'] + CONTAINER_EXTENSION@
}

/// The name of the container of the package whose root folder is named
/// `root_folder_name`.
pub fn container_file_name(root_folder_name: &str) -> (name: String)
    ensures
        name@ == container_name_of(root_folder_name@),
{
    let mut name = String::new();
    push_text(&mut name, root_folder_name);
    name.push('.');
    push_text(&mut name, CONTAINER_EXTENSION);
    name
}

/// The path of the container of the package at `root`, both as sequences
/// of components: the components of the root but for the last one, and the
/// name of the container in its place. A root without components has no
/// container.
pub open spec fn container_path_of(root: PathKey) -> Option<PathKey> {
    if root.len() == 0 {
        None
    } else {
        Some(root.drop_last().push(container_name_of(root.last())))
    }
}

/// The path of the container of the package at `root`: beside the root
/// folder, under the name of the root folder with the container extension.
pub fn container_path(root: &Vec<String>) -> (path: Option<Vec<String>>)
    ensures
        match path {
            Some(parts) => container_path_of(components_view(root@)) == Some(
                components_view(parts@),
            ),
            None => container_path_of(components_view(root@)) is None,
        },
{
    if root.len() == 0 {
        return None;
    }
    let last: usize = root.len() - 1;
    let mut parts: Vec<String> = Vec::new();
    let mut i: usize = 0;
    while i < last
        invariant
            i <= last,
            last == root.len() - 1,
            components_view(parts@) == components_view(root@).take(i as int),
        decreases last - i,
    {
        let ghost before = components_view(parts@);
        parts.push(root[i].clone());
        assert(components_view(parts@) == before.push(root@[i as int]@));
        assert(components_view(root@).take(i + 1) == components_view(root@).take(i as int).push(
            root@[i as int]@,
        ));
        i += 1;
    }
    let ghost before = components_view(parts@);
    let name = container_file_name(root[last].as_str());
    parts.push(name);
    proof {
        assert(components_view(parts@) == before.push(container_name_of(root@[last as int]@)));
        assert(components_view(root@).take(last as int) == components_view(root@).drop_last());
    }
    Some(parts)
}

/// Where the watcher stands.
#[derive(Debug, Clone, Copy, PartialEq, Eq, Structural)]
pub enum WatchPhase {
    /// Waiting for a change.
    Idle,
    /// Waiting for the answer to the question whether to act.
    AwaitingConfirmation,
    /// Waiting for the action to end.
    Executing,
}

/// What the watcher asks its caller to do.
#[derive(Debug, Clone, Copy, PartialEq, Eq, Structural)]
pub enum WatchAction {
    /// Nothing: the event was not one that the watcher waits for.
    Wait,
    /// Nothing: the modification came too soon after the last one of the
    /// same path.
    Dropped,
    /// Log a change of a kind that is never acted on.
    LogOnly(ChangeKind),
    /// Log a modification of a path that is neither the manifest nor below
    /// the unpacked tree.
    LogUnsupported,
    /// Ask whether to act, and hand the answer back.
    Confirm(Route),
    /// Act, and hand back how it went.
    Execute(Route),
    /// Report that the action was declined.
    ReportCancelled(Route),
    /// Report that the action worked.
    ReportCompleted(Route),
    /// Report that the action failed. The watcher goes on all the same.
    ReportFailed(Route),
}

/// Whether an action starts a resync or a rezip.
pub open spec fn dispatches(action: WatchAction) -> bool {
    action is Execute
}

/// What the caller of the watcher hands in.
#[derive(Debug)]
pub enum WatchEvent {
    /// The file system reported a change of `path`. `normalized`, `manifest`
    /// and `unpacked` are the canonical forms of the changed path, of the
    /// path of the manifest and of the path of the unpacked tree; `now` is
    /// the time in milliseconds.
    Changed {
        kind: ChangeKind,
        path: Vec<String>,
        normalized: Vec<String>,
        manifest: Vec<String>,
        unpacked: Vec<String>,
        now: u64,
    },
    /// The answer to the question whether to act.
    Answered { yes: bool, now: u64 },
    /// The action ended.
    Completed { ok: bool, now: u64 },
}

/// The mathematical value of a `WatchEvent`.
pub enum Signal {
    Changed { kind: ChangeKind, path: PathKey, route: Route, now: nat },
    Answered { yes: bool, now: nat },
    Completed { ok: bool, now: nat },
}

impl View for WatchEvent {
    type V = Signal;

    open spec fn view(&self) -> Signal {
        match *self {
            WatchEvent::Changed { kind, path, normalized, manifest, unpacked, now } => {
                Signal::Changed {
                    kind,
                    path: components_view(path@),
                    route: route_of(
                        components_view(normalized@),
                        components_view(manifest@),
                        components_view(unpacked@),
                    ),
                    now: now as nat,
                }
            },
            WatchEvent::Answered { yes, now } => Signal::Answered { yes, now: now as nat },
            WatchEvent::Completed { ok, now } => Signal::Completed { ok, now: now as nat },
        }
    }
}

/// The mathematical value of a watcher.
pub struct WatchState {
    pub phase: WatchPhase,
    /// The path that is being handled, when the watcher is not idle.
    pub pending: PathKey,
    /// Where the path that is being handled leads.
    pub route: Route,
    /// For each path that was handled, the time at which its handling ended.
    pub stamps: Map<PathKey, nat>,
    /// Whether the watcher asks before it acts.
    pub confirm_actions: bool,
    /// Whether the package had a manifest when the watcher started.
    pub has_manifest: bool,
}

/// Whether a modification of `path` at the time `now` comes too soon: the
/// path was handled before, and less than the debounce window has passed
/// since then.
pub open spec fn debounced(stamps: Map<PathKey, nat>, path: PathKey, now: nat) -> bool {
    stamps.contains_key(path) && now < stamps[path] + DEBOUNCE_WINDOW_MS
}

/// The watcher back in the idle phase, the handling of the pending path
/// having ended at the time `now`.
pub open spec fn settled_at(state: WatchState, now: nat) -> WatchState {
    WatchState {
        phase: WatchPhase::Idle,
        pending: Seq::empty(),
        stamps: state.stamps.insert(state.pending, now),
        ..state
    }
}

/// The state after `signal` in the state `state`, and what the caller is
/// asked to do.
///
/// An idle watcher logs changes that are no modifications, drops a
/// modification that is debounced, logs a modification of an unsupported
/// path and stamps the path, and for a path that leads to a resync or a
/// rezip asks for confirmation or, where it does not ask, for the action.
/// A watcher that waits for an answer asks for the action on yes and ends
/// the handling on no. A watcher that waits for the action ends the handling
/// whether the action worked or not. Whenever a handling ends, the path is
/// stamped with the time. A signal that the watcher does not wait for
/// changes nothing.
pub open spec fn step_of(state: WatchState, signal: Signal) -> (WatchState, WatchAction) {
    match (state.phase, signal) {
        (WatchPhase::Idle, Signal::Changed { kind, path, route, now }) => {
            if kind != ChangeKind::Modify {
                (state, WatchAction::LogOnly(kind))
            } else if debounced(state.stamps, path, now) {
                (state, WatchAction::Dropped)
            } else if route == Route::Unsupported {
                (
                    WatchState { stamps: state.stamps.insert(path, now), ..state },
                    WatchAction::LogUnsupported,
                )
            } else if state.confirm_actions {
                (
                    WatchState {
                        phase: WatchPhase::AwaitingConfirmation,
                        pending: path,
                        route,
                        ..state
                    },
                    WatchAction::Confirm(route),
                )
            } else {
                (
                    WatchState { phase: WatchPhase::Executing, pending: path, route, ..state },
                    WatchAction::Execute(route),
                )
            }
        },
        (WatchPhase::AwaitingConfirmation, Signal::Answered { yes, now }) => {
            if yes {
                (
                    WatchState { phase: WatchPhase::Executing, ..state },
                    WatchAction::Execute(state.route),
                )
            } else {
                (settled_at(state, now), WatchAction::ReportCancelled(state.route))
            }
        },
        (WatchPhase::Executing, Signal::Completed { ok, now }) => {
            if ok {
                (settled_at(state, now), WatchAction::ReportCompleted(state.route))
            } else {
                (settled_at(state, now), WatchAction::ReportFailed(state.route))
            }
        },
        _ => (state, WatchAction::Wait),
    }
}

/// The view of the stored stamps as a list of pairs.
pub open spec fn stamps_view(list: Seq<(Vec<String>, u64)>) -> Seq<(PathKey, nat)> {
    Seq::new(list.len(), |i: int| (components_view(list[i].0@), list[i].1 as nat))
}

/// The map that a list of pairs with unique keys stands for.
pub open spec fn map_of(list: Seq<(PathKey, nat)>) -> Map<PathKey, nat> {
    Map::new(|key: PathKey| value_of(list, key) is Some, |key: PathKey| value_of(list, key)->0)
}

/// Putting a pair into the list is inserting it into the map.
pub proof fn lemma_map_of_put(list: Seq<(PathKey, nat)>, key: PathKey, value: nat)
    requires
        unique_keys(list),
    ensures
        map_of(put(list, key, value)) == map_of(list).insert(key, value),
{
    let left = map_of(put(list, key, value));
    let right = map_of(list).insert(key, value);
    assert forall|other: PathKey| #[trigger]
        left.contains_key(other) == right.contains_key(other) by {
        lemma_value_after_put(list, key, value, other);
        assert(map_of(list).contains_key(other) == (value_of(list, other) is Some));
    }
    assert forall|other: PathKey| #[trigger] left.contains_key(other) implies left[other]
        == right[other] by {
        lemma_value_after_put(list, key, value, other);
        assert(map_of(list).contains_key(other) == (value_of(list, other) is Some));
        if other != key {
            assert(map_of(list)[other] == value_of(list, other)->0);
        }
    }
    assert(left =~= right);
}

/// The place of `path` among the stamps.
fn stamp_position(list: &Vec<(Vec<String>, u64)>, path: &Vec<String>) -> (r: Option<usize>)
    ensures
        match r {
            Some(at) => at < list.len() && position_of(
                stamps_view(list@),
                components_view(path@),
            ) == Some(at as int),
            None => position_of(stamps_view(list@), components_view(path@)) is None,
        },
{
    let ghost stamps = stamps_view(list@);
    let ghost key = components_view(path@);
    let mut i: usize = 0;
    while i < list.len()
        invariant
            i <= list.len(),
            stamps == stamps_view(list@),
            key == components_view(path@),
            position_of(stamps.take(i as int), key) is None,
        decreases list.len() - i,
    {
        if same_components(&list[i].0, path) {
            proof {
                lemma_position_found(stamps, key, i as int);
            }
            return Some(i);
        }
        proof {
            lemma_position_not_yet(stamps, key, i as int);
        }
        i += 1;
    }
    proof {
        assert(stamps.take(list.len() as int) == stamps);
    }
    None
}

/// The time at which the handling of `path` last ended.
fn stamp_of(list: &Vec<(Vec<String>, u64)>, path: &Vec<String>) -> (r: Option<u64>)
    ensures
        match r {
            Some(time) => value_of(stamps_view(list@), components_view(path@)) == Some(
                time as nat,
            ),
            None => value_of(stamps_view(list@), components_view(path@)) is None,
        },
{
    match stamp_position(list, path) {
        Some(at) => Some(list[at].1),
        None => None,
    }
}

/// Stamps `path` with the time `now`.
fn record_stamp(list: &mut Vec<(Vec<String>, u64)>, path: Vec<String>, now: u64)
    ensures
        stamps_view(final(list)@) == put(
            stamps_view(old(list)@),
            components_view(path@),
            now as nat,
        ),
{
    let ghost stamps = stamps_view(list@);
    let ghost key = components_view(path@);
    match stamp_position(list, &path) {
        Some(at) => {
            list.set(at, (path, now));
            assert(stamps_view(list@) == stamps.update(at as int, (key, now as nat)));
        },
        None => {
            list.push((path, now));
            assert(stamps_view(list@) == stamps.push((key, now as nat)));
        },
    }
}

/// Why the watcher did not start.
#[derive(Debug, Clone, Copy, PartialEq, Eq, Structural)]
pub enum WatchError {
    /// The root folder is no directory.
    RootNotDirectory,
    /// The root folder holds no unpacked tree.
    MissingExtractedFolder,
    /// The file system watcher could not be created.
    WatcherNotCreated,
    /// The file system watcher could not subscribe to the root folder.
    WatcherNotSubscribed,
}

impl WatchError {
    /// The message shown for this failure.
    pub fn message(&self) -> (m: &'static str)
        ensures
            m@ == match *self {
                WatchError::RootNotDirectory => "Root folder is not a directory"@,
                WatchError::MissingExtractedFolder => "Missing extracted folder"@,
                WatchError::WatcherNotCreated => "Failed to create file watcher"@,
                WatchError::WatcherNotSubscribed => "Failed to start watching the root folder"@,
            },
    {
        match self {
            WatchError::RootNotDirectory => "Root folder is not a directory",
            WatchError::MissingExtractedFolder => "Missing extracted folder",
            WatchError::WatcherNotCreated => "Failed to create file watcher",
            WatchError::WatcherNotSubscribed => "Failed to start watching the root folder",
        }
    }
}

/// A watcher of one package.
#[derive(Debug)]
pub struct Watcher {
    phase: WatchPhase,
    pending: Vec<String>,
    route: Route,
    stamps: Vec<(Vec<String>, u64)>,
    confirm_actions: bool,
    has_manifest: bool,
}

impl View for Watcher {
    type V = WatchState;

    closed spec fn view(&self) -> WatchState {
        WatchState {
            phase: self.phase,
            pending: components_view(self.pending@),
            route: self.route,
            stamps: map_of(stamps_view(self.stamps@)),
            confirm_actions: self.confirm_actions,
            has_manifest: self.has_manifest,
        }
    }
}

/// The state of a watcher that has just started.
pub open spec fn fresh_watch(confirm_actions: bool, has_manifest: bool) -> WatchState {
    WatchState {
        phase: WatchPhase::Idle,
        pending: Seq::empty(),
        route: Route::Unsupported,
        stamps: Map::empty(),
        confirm_actions,
        has_manifest,
    }
}

impl Watcher {
    #[verifier::type_invariant]
    spec fn inv(self) -> bool {
        unique_keys(stamps_view(self.stamps@))
    }

    /// Where the watcher stands.
    pub fn phase(&self) -> (phase: WatchPhase)
        ensures
            phase == self@.phase,
    {
        self.phase
    }

    /// Whether the package had a manifest when the watcher started. Where it
    /// had none, only the unpacked tree is announced as watched.
    pub fn has_manifest(&self) -> (has: bool)
        ensures
            has == self@.has_manifest,
    {
        self.has_manifest
    }

    /// Stamps `path` with the time `now`.
    fn stamp(&mut self, path: Vec<String>, now: u64)
        ensures
            final(self)@ == (WatchState {
                stamps: old(self)@.stamps.insert(components_view(path@), now as nat),
                ..old(self)@
            }),
    {
        proof {
            use_type_invariant(&*self);
            lemma_put_unique(stamps_view(self.stamps@), components_view(path@), now as nat);
            lemma_map_of_put(stamps_view(self.stamps@), components_view(path@), now as nat);
        }
        let mut stamps: Vec<(Vec<String>, u64)> = Vec::new();
        assert(stamps_view(stamps@) == Seq::<(PathKey, nat)>::empty());
        core::mem::swap(&mut self.stamps, &mut stamps);
        record_stamp(&mut stamps, path, now);
        core::mem::swap(&mut self.stamps, &mut stamps);
    }

    /// Ends the handling of the pending path at the time `now`.
    fn settle(&mut self, now: u64)
        ensures
            final(self)@ == settled_at(old(self)@, now as nat),
    {
        proof {
            use_type_invariant(&*self);
        }
        let mut path: Vec<String> = Vec::new();
        assert(components_view(path@) == Seq::<Seq<char>>::empty());
        core::mem::swap(&mut self.pending, &mut path);
        self.phase = WatchPhase::Idle;
        self.stamp(path, now);
    }

    /// Takes what the caller hands in, moves the watcher on, and says what
    /// the caller has to do.
    pub fn step(&mut self, event: WatchEvent) -> (action: WatchAction)
        ensures
            final(self)@ == step_of(old(self)@, event@).0,
            action == step_of(old(self)@, event@).1,
    {
        proof {
            use_type_invariant(&*self);
        }
        match event {
            WatchEvent::Changed { kind, path, normalized, manifest, unpacked, now } => {
                match self.phase {
                    WatchPhase::Idle => {},
                    _ => {
                        return WatchAction::Wait;
                    },
                }
                match kind {
                    ChangeKind::Modify => {},
                    _ => {
                        return WatchAction::LogOnly(kind);
                    },
                }
                let too_soon = match stamp_of(&self.stamps, &path) {
                    Some(last) => now < last || now - last < DEBOUNCE_WINDOW_MS,
                    None => false,
                };
                if too_soon {
                    return WatchAction::Dropped;
                }
                let route = classify_path(&normalized, &manifest, &unpacked);
                match route {
                    Route::Unsupported => {
                        self.stamp(path, now);
                        WatchAction::LogUnsupported
                    },
                    _ => {
                        self.pending = path;
                        self.route = route;
                        if self.confirm_actions {
                            self.phase = WatchPhase::AwaitingConfirmation;
                            WatchAction::Confirm(route)
                        } else {
                            self.phase = WatchPhase::Executing;
                            WatchAction::Execute(route)
                        }
                    },
                }
            },
            WatchEvent::Answered { yes, now } => {
                match self.phase {
                    WatchPhase::AwaitingConfirmation => {},
                    _ => {
                        return WatchAction::Wait;
                    },
                }
                let route = self.route;
                if yes {
                    self.phase = WatchPhase::Executing;
                    WatchAction::Execute(route)
                } else {
                    self.settle(now);
                    WatchAction::ReportCancelled(route)
                }
            },
            WatchEvent::Completed { ok, now } => {
                match self.phase {
                    WatchPhase::Executing => {},
                    _ => {
                        return WatchAction::Wait;
                    },
                }
                let route = self.route;
                self.settle(now);
                if ok {
                    WatchAction::ReportCompleted(route)
                } else {
                    WatchAction::ReportFailed(route)
                }
            },
        }
    }
}

/// How watching starts: the root folder must be a directory and must hold
/// the unpacked tree. A package without a manifest is watched all the same.
pub open spec fn watch_start_of(
    root_is_directory: bool,
    extracted_is_directory: bool,
    has_manifest: bool,
    confirm_actions: bool,
) -> Result<WatchState, WatchError> {
    if !root_is_directory {
        Err(WatchError::RootNotDirectory)
    } else if !extracted_is_directory {
        Err(WatchError::MissingExtractedFolder)
    } else {
        Ok(fresh_watch(confirm_actions, has_manifest))
    }
}

/// Starts a watcher of a package. The caller has looked at the root folder
/// and hands in what it found, and whether the watcher is to ask before it
/// acts.
pub fn watch_folder(
    root_is_directory: bool,
    extracted_is_directory: bool,
    has_manifest: bool,
    confirm_actions: bool,
) -> (r: Result<Watcher, WatchError>)
    ensures
        match r {
            Ok(watcher) => watch_start_of(
                root_is_directory,
                extracted_is_directory,
                has_manifest,
                confirm_actions,
            ) == Ok::<WatchState, WatchError>(watcher@),
            Err(e) => watch_start_of(
                root_is_directory,
                extracted_is_directory,
                has_manifest,
                confirm_actions,
            ) == Err::<WatchState, WatchError>(e),
        },
{
    if !root_is_directory {
        Err(WatchError::RootNotDirectory)
    } else if !extracted_is_directory {
        Err(WatchError::MissingExtractedFolder)
    } else {
        let watcher = Watcher {
            phase: WatchPhase::Idle,
            pending: Vec::new(),
            route: Route::Unsupported,
            stamps: Vec::new(),
            confirm_actions,
            has_manifest,
        };
        proof {
            assert(components_view(watcher.pending@) == Seq::<Seq<char>>::empty());
            assert(stamps_view(watcher.stamps@) == Seq::<(PathKey, nat)>::empty());
            assert(map_of(Seq::<(PathKey, nat)>::empty()) =~= Map::<PathKey, nat>::empty());
        }
        Ok(watcher)
    }
}

} // verus!
