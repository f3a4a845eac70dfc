//! The watch session: configuration, loop policy, and the dispatch of
//! one notification into mirror work.
//!
//! The consume loop polls the shutdown flag, then blocks on the event
//! channel; a set flag or a closed channel ends the loop, anything else
//! is dispatched. The dispatch itself is stated here against the model
//! of the target tree; the binary performs the same steps against the
//! real one.

use vstd::prelude::*;

use crate::events::ChangeEvent;
use crate::events::MirrorStep;
use crate::executor::RemoveOutcome;
use crate::executor::SourceKind;
use crate::executor::TargetFs;
use crate::executor::spec_materialize;
use crate::executor::spec_remove_fs;
use crate::executor::spec_remove_outcome;
use crate::paths::SegPath;
use crate::paths::is_prefix;
use crate::paths::relativize;
use crate::paths::spec_join;
use crate::paths::spec_relativize;
use crate::paths::to_target_path;

verus! {

/// The immutable run configuration: the two roots, already absolute
/// and canonical, and whether a full copy precedes the watch.
pub struct MirrorConfig {
    pub source_root: SegPath,
    pub target_root: SegPath,
    pub initial_sync: bool,
}

impl MirrorConfig {
    /// The absolute target path for a notified absolute source path,
    /// and whether the source path actually lay under the source root;
    /// where it did not, the path itself is used as the relative part
    /// (degraded mode) and the caller logs the anomaly.
    pub fn target_for(&self, p: &SegPath) -> (r: (SegPath, bool))
        ensures
            r.0@ == spec_join(self.target_root@, spec_relativize(p@, self.source_root@)),
            r.1 == is_prefix(self.source_root@, p@),
    {
        let (rel, in_root) = relativize(p, &self.source_root);
        (to_target_path(&rel, &self.target_root), in_root)
    }
}

/// What one turn of the consume loop does.
#[derive(Clone, Copy, PartialEq, Eq, Structural, Debug)]
pub enum LoopDirective {
    /// The shutdown flag was set: leave the loop, normal termination.
    Stop,
    /// The event channel failed: leave the loop, abnormal termination.
    ChannelClosed,
    /// An event is in hand: translate and apply it, then loop.
    Dispatch,
}

/// The loop policy: a set shutdown flag ends the loop before anything
/// else is looked at; otherwise a failed receive ends it; otherwise
/// the received event is dispatched.
pub fn decide_loop(shutdown_requested: bool, event_received: bool) -> (d: LoopDirective)
    ensures
        d == (if shutdown_requested {
            LoopDirective::Stop
        } else if !event_received {
            LoopDirective::ChannelClosed
        } else {
            LoopDirective::Dispatch
        }),
{
    if shutdown_requested {
        LoopDirective::Stop
    } else if !event_received {
        LoopDirective::ChannelClosed
    } else {
        LoopDirective::Dispatch
    }
}

/// What one mirror step reported.
#[derive(Clone, Copy, PartialEq, Eq, Structural, Debug)]
pub enum StepReport {
    Materialized,
    Removed(RemoveOutcome),
}

/// Apply one mirror step to the model of the target tree: the step's
/// absolute source path is relativized against the source root and the
/// corresponding operation is performed. The second component reports
/// whether the path lay under the root.
pub fn run_step(fs: &mut TargetFs, step: &MirrorStep, source_root: &SegPath, observed: SourceKind)
    -> (r: (StepReport, bool))
    requires
        old(fs).wf(),
    ensures
        final(fs).wf(),
        match *step {
            MirrorStep::Materialize(p) => {
                &&& final(fs)@ == spec_materialize(
                    old(fs)@,
                    spec_relativize(p@, source_root@),
                    observed,
                )
                &&& r.0 == StepReport::Materialized
                &&& r.1 == is_prefix(source_root@, p@)
            },
            MirrorStep::Remove(p) => {
                &&& final(fs)@ == spec_remove_fs(old(fs)@, spec_relativize(p@, source_root@))
                &&& r.0 == StepReport::Removed(
                    spec_remove_outcome(old(fs)@, spec_relativize(p@, source_root@)),
                )
                &&& r.1 == is_prefix(source_root@, p@)
            },
        },
{
    match step {
        MirrorStep::Materialize(p) => {
            let (rel, in_root) = relativize(p, source_root);
            fs.materialize(&rel, observed);
            (StepReport::Materialized, in_root)
        },
        MirrorStep::Remove(p) => {
            let (rel, in_root) = relativize(p, source_root);
            let outcome = fs.remove(&rel);
            (StepReport::Removed(outcome), in_root)
        },
    }
}

/// Dispatch one notification against the model of the target tree:
/// create and modify materialize the path, removal removes it, and a
/// rename removes the old path's image before the new path is
/// materialized; hints, rescans and error signals change nothing.
/// `observed` is what the source side showed for the path being
/// materialized, if any.
pub fn run_event(fs: &mut TargetFs, e: ChangeEvent, source_root: &SegPath, observed: SourceKind)
    -> (reports: Vec<StepReport>)
    requires
        old(fs).wf(),
    ensures
        final(fs).wf(),
        match e {
            ChangeEvent::Created(p) | ChangeEvent::Modified(p) => final(fs)@ == spec_materialize(
                old(fs)@,
                spec_relativize(p@, source_root@),
                observed,
            ),
            ChangeEvent::Removed(p) => final(fs)@ == spec_remove_fs(
                old(fs)@,
                spec_relativize(p@, source_root@),
            ),
            ChangeEvent::Renamed(o, n) => final(fs)@ == spec_materialize(
                spec_remove_fs(old(fs)@, spec_relativize(o@, source_root@)),
                spec_relativize(n@, source_root@),
                observed,
            ),
            _ => final(fs)@ == old(fs)@,
        },
        reports@ == match e {
            ChangeEvent::Created(p) | ChangeEvent::Modified(p) => seq![StepReport::Materialized],
            ChangeEvent::Removed(p) => seq![
                StepReport::Removed(spec_remove_outcome(old(fs)@, spec_relativize(p@, source_root@))),
            ],
            ChangeEvent::Renamed(o, n) => seq![
                StepReport::Removed(spec_remove_outcome(old(fs)@, spec_relativize(o@, source_root@))),
                StepReport::Materialized,
            ],
            _ => Seq::<StepReport>::empty(),
        },
        reports@.len() == crate::events::spec_translate(e).len(),
{
    let mut reports: Vec<StepReport> = Vec::new();
    match e {
        ChangeEvent::Created(p) | ChangeEvent::Modified(p) => {
            let (rep, _in_root) = run_step(fs, &MirrorStep::Materialize(p), source_root, observed);
            reports.push(rep);
        },
        ChangeEvent::Removed(p) => {
            let (rep, _in_root) = run_step(
                fs,
                &MirrorStep::Remove(p),
                source_root,
                SourceKind::Missing,
            );
            reports.push(rep);
        },
        ChangeEvent::Renamed(old_p, new_p) => {
            let (rep, _old_in_root) = run_step(
                fs,
                &MirrorStep::Remove(old_p),
                source_root,
                SourceKind::Missing,
            );
            reports.push(rep);
            let (rep2, _new_in_root) = run_step(
                fs,
                &MirrorStep::Materialize(new_p),
                source_root,
                observed,
            );
            reports.push(rep2);
        },
        _ => {},
    }
    reports
}

} // verus!
