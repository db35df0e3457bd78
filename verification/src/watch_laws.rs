//! What holds of every watcher: a path outside the package leads to no
//! action, and a second modification within the debounce window is dropped.

use crate::file_watcher::{
    debounced, dispatches, step_of, ChangeKind, PathKey, Route, Signal, WatchAction, WatchPhase,
    WatchState, DEBOUNCE_WINDOW_MS,
};
use vstd::prelude::*;

verus! {

/// The signal of a modification of `path`.
pub open spec fn modified(path: PathKey, route: Route, now: nat) -> Signal {
    Signal::Changed { kind: ChangeKind::Modify, path, route, now }
}

/// One if the action starts a resync or a rezip, else zero.
pub open spec fn dispatch_count(action: WatchAction) -> nat {
    if dispatches(action) {
        1
    } else {
        0
    }
}

/// The state after a modification of `path` at the time `start` has been
/// handled to its end, and the number of resyncs and rezips that were
/// started on the way. Where the watcher asks, the answer is `yes`, given at
/// the time `answered`; where it acts, the action ends at the time `ended`
/// and has worked or not as `ok` says.
pub open spec fn handled(
    state: WatchState,
    path: PathKey,
    route: Route,
    start: nat,
    yes: bool,
    answered: nat,
    ok: bool,
    ended: nat,
) -> (WatchState, nat) {
    let first = step_of(state, modified(path, route, start));
    let second = if first.1 is Confirm {
        step_of(first.0, Signal::Answered { yes, now: answered })
    } else {
        (first.0, WatchAction::Wait)
    };
    let third = if first.1 is Execute || second.1 is Execute {
        step_of(second.0, Signal::Completed { ok, now: ended })
    } else {
        (second.0, WatchAction::Wait)
    };
    (third.0, dispatch_count(first.1) + dispatch_count(second.1) + dispatch_count(third.1))
}

/// A change of a path that is neither the manifest nor below the unpacked
/// tree starts nothing.
///
/// Whatever the state of the watcher, the kind of the change and the time:
/// the action is no resync, no rezip and no question, and the watcher stays
/// in the phase it was in. An idle watcher that does not drop the
/// modification answers it with a log entry.
pub proof fn outside_path_dispatches_nothing(
    state: WatchState,
    kind: ChangeKind,
    path: PathKey,
    now: nat,
)
    ensures
        ({
            let after = step_of(
                state,
                Signal::Changed { kind, path, route: Route::Unsupported, now },
            );
            &&& !dispatches(after.1)
            &&& !(after.1 is Confirm)
            &&& after.0.phase == state.phase
            &&& (state.phase == WatchPhase::Idle && kind == ChangeKind::Modify && !debounced(
                state.stamps,
                path,
                now,
            ) ==> after.1 == WatchAction::LogUnsupported)
        }),
{
}

/// A modification within the debounce window is dropped.
///
/// An idle watcher that has stamped `path` drops every modification of the
/// path that comes less than the debounce window after the stamp: the state
/// stays as it is and nothing is started.
pub proof fn modification_within_window_is_dropped(
    state: WatchState,
    path: PathKey,
    route: Route,
    now: nat,
)
    requires
        state.phase == WatchPhase::Idle,
        state.stamps.contains_key(path),
        now < state.stamps[path] + DEBOUNCE_WINDOW_MS,
    ensures
        step_of(state, modified(path, route, now)) == (state, WatchAction::Dropped),
{
}

/// Two modifications of one path within the debounce window lead to one
/// action.
///
/// Take an idle watcher and a modification of a path that leads to a resync
/// or a rezip and is not dropped. Let the watcher handle it to the end, the
/// answer being yes where it asks. Then exactly one resync or rezip was
/// started, and a second modification of the same path that comes less than
/// the debounce window after the end of the first handling is dropped: it
/// starts nothing and leaves the watcher as it is.
pub proof fn two_modifications_one_dispatch(
    state: WatchState,
    path: PathKey,
    route: Route,
    start: nat,
    answered: nat,
    ok: bool,
    ended: nat,
    again: nat,
    route_again: Route,
)
    requires
        state.phase == WatchPhase::Idle,
        route != Route::Unsupported,
        !debounced(state.stamps, path, start),
        again < ended + DEBOUNCE_WINDOW_MS,
    ensures
        ({
            let first = handled(state, path, route, start, true, answered, ok, ended);
            let second = step_of(first.0, modified(path, route_again, again));
            &&& first.1 == 1
            &&& second.1 == WatchAction::Dropped
            &&& second.0 == first.0
        }),
{
    let first = handled(state, path, route, start, true, answered, ok, ended);
    assert(first.0.phase == WatchPhase::Idle);
    assert(first.0.stamps.contains_key(path));
    assert(first.0.stamps[path] == ended);
}

/// A modification that is declined starts nothing, and the path is stamped
/// all the same.
pub proof fn declined_modification_dispatches_nothing(
    state: WatchState,
    path: PathKey,
    route: Route,
    start: nat,
    answered: nat,
    ok: bool,
    ended: nat,
)
    requires
        state.phase == WatchPhase::Idle,
        state.confirm_actions,
        route != Route::Unsupported,
        !debounced(state.stamps, path, start),
    ensures
        ({
            let end = handled(state, path, route, start, false, answered, ok, ended);
            &&& end.1 == 0
            &&& end.0.phase == WatchPhase::Idle
            &&& end.0.stamps == state.stamps.insert(path, answered)
        }),
{
}

} // verus!
