//! Decisions of the configuration-file watcher: which batches of file
//! events mean the configuration changed, and when such a change is the
//! overlay's own save, to be let pass once without a reload.

use vstd::prelude::*;

verus! {

/// The kind of a debounced file event.
pub enum ChangeKind {
    /// A change, debounced.
    Any,
    /// A change still going on when the debounce timed out.
    AnyContinuous,
}

/// A debounced event on a path in the configuration directory.
pub struct FileEvent {
    pub kind: ChangeKind,
    pub path: String,
}

/// What the watcher does with a batch of events.
pub enum WatchAction {
    /// The configuration file did not change.
    Ignore,
    /// The change is the overlay's own save: no reload.
    SkipOwnSave,
    /// Load the configuration again and send it to the overlay.
    Reload,
}

/// Whether the paths `a` and `b` are equal as `Path`s are: component by
/// component.
pub uninterp spec fn same_path(a: Seq<char>, b: Seq<char>) -> bool;

/// Compares two paths with `Path`'s `==`, which compares their components.
/// The contract names the result; `Path` is `Eq`, so a path equals itself.
#[verifier::external_body]
fn paths_equal(a: &str, b: &str) -> (r: bool)
    ensures
        r == same_path(a@, b@),
        a@ == b@ ==> r,
{
    std::path::Path::new(a) == std::path::Path::new(b)
}

/// Whether some event of the batch is a plain change of the file at `path`.
pub open spec fn touches(events: Seq<FileEvent>, path: Seq<char>) -> bool {
    exists|i: int|
        0 <= i < events.len() && (#[trigger] events[i]).kind is Any && same_path(events[i].path@, path)
}

/// What the watcher does, and whether the overlay's own save is still
/// pending afterwards, for a batch that changed the configuration file or
/// not.
pub open spec fn watch_outcome(changed: bool, own_save_pending: bool) -> (WatchAction, bool) {
    if !changed {
        (WatchAction::Ignore, own_save_pending)
    } else if own_save_pending {
        (WatchAction::SkipOwnSave, false)
    } else {
        (WatchAction::Reload, false)
    }
}

/// What the watcher does with a batch of events, given whether the
/// overlay's own save is pending; and whether one still is afterwards. A
/// batch that changes the configuration file consumes a pending save
/// (and is skipped) or causes a reload; any other batch changes nothing.
pub fn on_file_events(events: &Vec<FileEvent>, config_path: &str, own_save_pending: bool) -> (r: (
    WatchAction,
    bool,
))
    ensures
        r == watch_outcome(touches(events@, config_path@), own_save_pending),
        forall|i: int|
            0 <= i < events@.len() && (#[trigger] events@[i]).kind is Any && same_path(
                events@[i].path@,
                config_path@,
            ) ==> !(r.0 is Ignore) && !r.1 && (r.0 is SkipOwnSave <==> own_save_pending),
        (forall|i: int|
            0 <= i < events@.len() ==> !((#[trigger] events@[i]).kind is Any && same_path(
                events@[i].path@,
                config_path@,
            ))) ==> r.0 is Ignore && r.1 == own_save_pending,
{
    let mut changed = false;
    let mut i: usize = 0;
    while i < events.len() && !changed
        invariant
            i <= events@.len(),
            changed ==> touches(events@, config_path@),
            !changed ==> forall|j: int|
                0 <= j < i ==> !((#[trigger] events@[j]).kind is Any && same_path(
                    events@[j].path@,
                    config_path@,
                )),
        decreases events@.len() - i,
    {
        let e = &events[i];
        let is_any = match e.kind {
            ChangeKind::Any => true,
            ChangeKind::AnyContinuous => false,
        };
        if is_any && paths_equal(e.path.as_str(), config_path) {
            changed = true;
        }
        i = i + 1;
    }
    if !changed {
        (WatchAction::Ignore, own_save_pending)
    } else if own_save_pending {
        (WatchAction::SkipOwnSave, false)
    } else {
        (WatchAction::Reload, false)
    }
}

/// A batch changes the configuration file exactly when some event of it,
/// wherever it stands in the batch, is a plain change of a path equal to
/// the file's.
pub proof fn lemma_touches(events: Seq<FileEvent>, path: Seq<char>, i: int)
    ensures
        0 <= i < events.len() && events[i].kind is Any && same_path(events[i].path@, path)
            ==> touches(events, path),
        (forall|j: int|
            0 <= j < events.len() ==> !((#[trigger] events[j]).kind is Any && same_path(
                events[j].path@,
                path,
            ))) ==> !touches(events, path),
{
}

/// The overlay's own save is let pass exactly once: of two batches that
/// change the configuration file after a save, the first is skipped and the
/// second reloads.
pub proof fn lemma_own_save_skipped_once(first: Seq<FileEvent>, second: Seq<FileEvent>, path: Seq<
    char,
>)
    requires
        touches(first, path),
        touches(second, path),
    ensures
        watch_outcome(touches(first, path), true) == (WatchAction::SkipOwnSave, false),
        watch_outcome(touches(second, path), watch_outcome(touches(first, path), true).1) == (
            WatchAction::Reload,
            false,
        ),
{
}

/// A batch that does not change the configuration file leaves a pending
/// save pending.
pub proof fn lemma_unrelated_batch_keeps_pending(events: Seq<FileEvent>, path: Seq<char>, pending: bool)
    requires
        !touches(events, path),
    ensures
        watch_outcome(touches(events, path), pending) == (WatchAction::Ignore, pending),
{
}

} // verus!
