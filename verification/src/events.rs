//! Change notifications and their translation into mirror steps.
//!
//! The watcher delivers debounced notifications; notice-only hints and
//! attribute changes must never trigger mirror work, a rename must clear
//! the old target before the new one is written, and a designated error
//! reason serves as the shutdown sentinel that unblocks the consume loop
//! without any mirror effect.

use vstd::prelude::*;

use crate::paths::SegPath;

verus! {

/// A debounced filesystem change notification, carrying absolute
/// source-side paths.
pub enum ChangeEvent {
    /// Pre-debounce hint that a write began; never acted on.
    NoticeWrite(SegPath),
    /// Pre-debounce hint that a removal began; never acted on.
    NoticeRemove(SegPath),
    Created(SegPath),
    Modified(SegPath),
    /// Attribute-only change; never acted on.
    Chmod(SegPath),
    Removed(SegPath),
    Renamed(SegPath, SegPath),
    Rescan,
    /// A watcher-side error, with its reason. One designated reason is
    /// the shutdown sentinel; every other reason is logged and ignored.
    ErrorSignal(Vec<u8>),
}

/// One mirror step against the target tree, still naming the absolute
/// source-side path it came from.
pub enum MirrorStep {
    /// Copy the file, or create the directory, that the path denotes.
    Materialize(SegPath),
    /// Remove the path's image at the target.
    Remove(SegPath),
}

/// The bytes of the designated shutdown reason, `"Stopping"`.
pub open spec fn stop_reason() -> Seq<u8> {
    seq![83u8, 116u8, 111u8, 112u8, 112u8, 105u8, 110u8, 103u8]
}

/// Whether an event is the synthetic shutdown sentinel.
pub open spec fn is_stop(e: ChangeEvent) -> bool {
    match e {
        ChangeEvent::ErrorSignal(r) => r@ == stop_reason(),
        _ => false,
    }
}

/// The steps an event implies: materialize on create and modify, remove
/// on removal, remove-then-materialize on rename, nothing for hints,
/// rescans and errors.
pub open spec fn spec_translate(e: ChangeEvent) -> Seq<MirrorStep> {
    match e {
        ChangeEvent::Created(p) => seq![MirrorStep::Materialize(p)],
        ChangeEvent::Modified(p) => seq![MirrorStep::Materialize(p)],
        ChangeEvent::Removed(p) => seq![MirrorStep::Remove(p)],
        ChangeEvent::Renamed(o, n) => seq![MirrorStep::Remove(o), MirrorStep::Materialize(n)],
        _ => Seq::empty(),
    }
}

/// Translate one notification into the mirror steps it implies, in the
/// order they must run. A rename clears the old target before the new
/// one is materialized; the shutdown sentinel, like every error, rescan
/// and notice-only hint, implies no step at all.
pub fn translate(e: ChangeEvent) -> (steps: Vec<MirrorStep>)
    ensures
        steps@ == spec_translate(e),
        e matches ChangeEvent::Renamed(o, n) ==> steps@ =~= seq![
            MirrorStep::Remove(o),
            MirrorStep::Materialize(n),
        ],
        is_stop(e) ==> steps@.len() == 0,
{
    let mut steps: Vec<MirrorStep> = Vec::new();
    match e {
        ChangeEvent::Created(p) => {
            steps.push(MirrorStep::Materialize(p));
        },
        ChangeEvent::Modified(p) => {
            steps.push(MirrorStep::Materialize(p));
        },
        ChangeEvent::Removed(p) => {
            steps.push(MirrorStep::Remove(p));
        },
        ChangeEvent::Renamed(o, n) => {
            steps.push(MirrorStep::Remove(o));
            steps.push(MirrorStep::Materialize(n));
        },
        _ => {},
    }
    proof {
        assert(steps@ =~= spec_translate(e));
    }
    steps
}

/// The exact bytes of the shutdown reason, for building and recognizing
/// the sentinel.
pub fn stop_reason_bytes() -> (r: Vec<u8>)
    ensures
        r@ == stop_reason(),
{
    let mut r: Vec<u8> = Vec::new();
    r.push(83u8);
    r.push(116u8);
    r.push(111u8);
    r.push(112u8);
    r.push(112u8);
    r.push(105u8);
    r.push(110u8);
    r.push(103u8);
    proof {
        assert(r@ =~= stop_reason());
    }
    r
}

/// The synthetic event the shutdown path injects into the event channel
/// to wake a blocked receive.
pub fn stop_event() -> (e: ChangeEvent)
    ensures
        is_stop(e),
        spec_translate(e).len() == 0,
{
    ChangeEvent::ErrorSignal(stop_reason_bytes())
}

/// Recognize the shutdown sentinel.
pub fn is_stop_signal(e: &ChangeEvent) -> (r: bool)
    ensures
        r == is_stop(*e),
{
    match e {
        ChangeEvent::ErrorSignal(reason) => crate::paths::bytes_eq(reason, &stop_reason_bytes()),
        _ => false,
    }
}

} // verus!
