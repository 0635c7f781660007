//! What is decided when the sources of a model change.

use vstd::prelude::*;
use crate::host::error::Error;
use crate::host::paths::{extension, stands_behind_dot};

verus! {

/// How the data of a file changed.
#[derive(Clone, Copy, Debug, PartialEq, Eq, Structural)]
pub enum DataChange {
    Any,
    Size,
    Content,
    Other,
}

/// How a file was modified.
#[derive(Clone, Copy, Debug, PartialEq, Eq, Structural)]
pub enum ModifyKind {
    Any,
    Data(DataChange),
    Metadata,
    Name,
    Other,
}

/// What happened to a watched file.
#[derive(Clone, Copy, Debug, PartialEq, Eq, Structural)]
pub enum EventKind {
    Any,
    Access,
    Create,
    Modify(ModifyKind),
    Remove,
    Other,
}

impl EventKind {
    /// Whether the event speaks of changed contents. Platforms report such a
    /// change in different ways: as a modification of any kind, as a change
    /// of data of any kind, or as a change of content.
    pub open spec fn spec_is_content_change(&self) -> bool {
        match self {
            EventKind::Modify(ModifyKind::Any) => true,
            EventKind::Modify(ModifyKind::Data(DataChange::Any)) => true,
            EventKind::Modify(ModifyKind::Data(DataChange::Content)) => true,
            _ => false,
        }
    }

    /// Whether the event speaks of changed contents.
    pub fn is_content_change(&self) -> (r: bool)
        ensures
            r == self.spec_is_content_change(),
    {
        match self {
            EventKind::Modify(ModifyKind::Any) => true,
            EventKind::Modify(ModifyKind::Data(DataChange::Any)) => true,
            EventKind::Modify(ModifyKind::Data(DataChange::Content)) => true,
            _ => false,
        }
    }
}

/// Whether files with this extension are written by editors for their own
/// use.
pub open spec fn spec_is_scratch_extension(extension: Seq<char>) -> bool {
    extension == "swp"@ || extension == "tmp"@ || extension == "swx"@
}

/// Whether files with this extension are written by editors for their own
/// use, and say nothing of the model.
pub fn is_scratch_extension(extension: &String) -> (r: bool)
    ensures
        r == spec_is_scratch_extension(extension@),
{
    *extension == String::from_str("swp") || *extension == String::from_str("tmp") || *extension
        == String::from_str("swx")
}

/// Whether an event asks for the model to be built again: it speaks of
/// changed contents, and the file that changed is no scratch file of an
/// editor. `extension` is the extension of the first file that the event
/// names.
pub fn triggers_rebuild(kind: &EventKind, extension: &Option<String>) -> (r: bool)
    ensures
        r == (kind.spec_is_content_change() && !(extension matches Some(e)
            && spec_is_scratch_extension(e@))),
{
    if !kind.is_content_change() {
        return false;
    }
    match extension {
        Some(e) => !is_scratch_extension(e),
        None => true,
    }
}

/// Whether the path may name a scratch file of an editor: one of the scratch
/// extensions stands in it right behind a dot.
pub open spec fn may_name_scratch_file(path: Seq<char>) -> bool {
    stands_behind_dot(path, "swp"@) || stands_behind_dot(path, "tmp"@) || stands_behind_dot(
        path,
        "swx"@,
    )
}

/// Whether a change of the file at `path` asks for the model to be built
/// again. An event that does not speak of changed contents never does. One
/// that does always asks for it where the path cannot name a scratch file;
/// where a scratch extension stands in the path, the platform decides
/// whether it is the extension of the file.
pub fn path_triggers_rebuild(kind: &EventKind, path: &String) -> (r: bool)
    ensures
        r ==> kind.spec_is_content_change(),
        kind.spec_is_content_change() && !may_name_scratch_file(path@) ==> r,
{
    let found = extension(path);
    triggers_rebuild(kind, &found)
}

/// What the watcher finds when it looks for a notification without waiting.
#[derive(Clone, Copy, Debug, PartialEq, Eq, Structural)]
pub enum Signal {
    /// The sources have changed.
    Received,
    /// Nothing has changed.
    Empty,
    /// Nobody is left who could notify.
    Disconnected,
}

/// What the watcher does next.
#[derive(Clone, Copy, Debug, PartialEq, Eq, Structural)]
pub enum Step {
    /// Load the model again.
    Reload,
    /// Nothing: there is no new shape.
    Idle,
    /// Give up: the watcher cannot go on.
    Abort,
}

/// What the watcher does on a signal: it loads the model again where the
/// sources have changed, and gives up where nobody is left who could notify.
pub fn on_signal(signal: Signal) -> (r: Step)
    ensures
        r == match signal {
            Signal::Received => Step::Reload,
            Signal::Empty => Step::Idle,
            Signal::Disconnected => Step::Abort,
        },
{
    match signal {
        Signal::Received => Step::Reload,
        Signal::Empty => Step::Idle,
        Signal::Disconnected => Step::Abort,
    }
}

/// What comes of loading a model again.
#[derive(Debug)]
pub enum Reload<T> {
    /// The new shape.
    Shape(T),
    /// The model did not compile. This is reported, and the shape that was
    /// shown before stays.
    CompileError,
    /// Loading failed for another reason: the watcher cannot go on.
    Fatal(Error),
}

/// What the watcher makes of a model that was loaded again: a new shape is
/// handed on, a compile error is reported, anything else is fatal.
pub fn on_reload<T>(outcome: Result<T, Error>) -> (r: Reload<T>)
    ensures
        match outcome {
            Ok(shape) => r == Reload::Shape(shape),
            Err(Error::Compile) => r is CompileError,
            Err(error) => r == Reload::<T>::Fatal(error),
        },
{
    match outcome {
        Ok(shape) => Reload::Shape(shape),
        Err(Error::Compile) => Reload::CompileError,
        Err(error) => Reload::Fatal(error),
    }
}

/// The place where a notification waits for the watcher. It holds one
/// notification at most: one that arrives while another waits is dropped,
/// since the one that waits already asks for all that it would ask for.
#[derive(Debug)]
pub struct Handoff {
    pending: bool,
}

impl Handoff {
    /// Whether a notification waits.
    pub closed spec fn spec_pending(&self) -> bool {
        self.pending
    }

    /// The place with no notification waiting.
    pub fn new() -> (r: Self)
        ensures
            !r.spec_pending(),
    {
        Handoff { pending: false }
    }

    /// Leaves a notification, and says whether it was kept: it is dropped
    /// where one waits already.
    pub fn notify(&mut self) -> (kept: bool)
        ensures
            final(self).spec_pending(),
            kept == !old(self).spec_pending(),
    {
        let kept = !self.pending;
        self.pending = true;
        kept
    }

    /// Takes the notification that waits, without waiting for one.
    pub fn poll(&mut self) -> (r: Signal)
        ensures
            !final(self).spec_pending(),
            r == if old(self).spec_pending() {
                Signal::Received
            } else {
                Signal::Empty
            },
    {
        let found = self.pending;
        self.pending = false;
        if found {
            Signal::Received
        } else {
            Signal::Empty
        }
    }
}

} // verus!
