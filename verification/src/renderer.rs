//! Render settings, the messages render threads send, and the progress
//! state machine of the viewer: counting finished threads and deciding
//! when the picture is complete and when to denoise it.
use vstd::prelude::*;

verus! {

/// Settings of the render loop.
#[derive(Debug, Clone, Copy, PartialEq, Eq, Structural)]
pub struct Settings {
    pub thread_count: u32,
    pub depth_limit: u32,
    pub max_samples: u32,
}

/// What a render thread reports to the viewer.
#[derive(Debug, Clone, Copy, PartialEq, Eq, Structural)]
pub struct ThreadMessage {
    pub exit: bool,
    pub finished: bool,
}

/// What the viewer has to do after an update.
#[derive(Debug, Clone, Copy, PartialEq, Eq, Structural)]
pub enum ProgressAction {
    /// Nothing new.
    Continue,
    /// All threads are done: report that the work is complete.
    Finished,
    /// All threads are done: report it and denoise the picture.
    FinishedAndDenoise,
}

/// The viewer's knowledge of the render: threads still running, whether
/// completion was reported, and whether the picture was denoised.
#[derive(Debug, Clone, Copy, PartialEq, Eq, Structural)]
pub struct RenderProgress {
    pub running_threads: usize,
    pub finished: bool,
    pub denoised: bool,
    pub should_denoise: bool,
}

impl RenderProgress {
    /// Consistent states: a picture is only denoised once the render is
    /// finished, and only if denoising was asked for.
    pub open spec fn wf(self) -> bool {
        self.denoised ==> self.finished && self.should_denoise
    }

    pub fn new(running_threads: usize, should_denoise: bool) -> (p: RenderProgress)
        ensures
            p.wf(),
            p.running_threads == running_threads,
            !p.finished,
            !p.denoised,
            p.should_denoise == should_denoise,
    {
        RenderProgress { running_threads, finished: false, denoised: false, should_denoise }
    }

    /// Takes in the message received since the last update, if any. A
    /// thread that reports it finished is no longer counted; when none is
    /// left the render is finished, once, and the picture is denoised if
    /// asked for, once.
    pub fn update(&mut self, message: Option<ThreadMessage>) -> (a: ProgressAction)
        requires
            old(self).wf(),
            message matches Some(m) && m.finished ==> old(self).running_threads > 0,
        ensures
            progress_step(*old(self), *final(self), message, a),
            final(self).wf(),
            final(self).should_denoise == old(self).should_denoise,
            final(self).running_threads == (if message matches Some(m) && m.finished {
                old(self).running_threads - 1
            } else {
                old(self).running_threads as int
            }),
            (final(self).running_threads == 0 && !old(self).finished) ==> final(self).finished && (
            if !old(self).denoised && old(self).should_denoise {
                a == ProgressAction::FinishedAndDenoise && final(self).denoised
            } else {
                a == ProgressAction::Finished && final(self).denoised == old(self).denoised
            }),
            !(final(self).running_threads == 0 && !old(self).finished) ==> a
                == ProgressAction::Continue && final(self).finished == old(self).finished
                && final(self).denoised == old(self).denoised,
            // completion and denoising are reported at most once
            old(self).finished ==> a == ProgressAction::Continue,
            a != ProgressAction::Continue ==> !old(self).finished && final(self).finished,
            a == ProgressAction::FinishedAndDenoise ==> !old(self).denoised,
    {
        if let Some(m) = message {
            if m.finished {
                self.running_threads = self.running_threads - 1;
            }
        }
        if self.running_threads == 0 && !self.finished {
            self.finished = true;
            if !self.denoised && self.should_denoise {
                self.denoised = true;
                return ProgressAction::FinishedAndDenoise;
            }
            return ProgressAction::Finished;
        }
        ProgressAction::Continue
    }
}

/// One call of `RenderProgress::update` with `message`: from `before` to
/// `after`, answering `a`. The render is finished once no thread is left;
/// that is reported once, together with the denoising when it was asked
/// for and not done yet.
pub open spec fn progress_step(
    before: RenderProgress,
    after: RenderProgress,
    message: Option<ThreadMessage>,
    a: ProgressAction,
) -> bool {
    let running = if message matches Some(m) && m.finished {
        before.running_threads - 1
    } else {
        before.running_threads as int
    };
    let completes = running == 0 && !before.finished;
    &&& after.wf()
    &&& after.should_denoise == before.should_denoise
    &&& after.running_threads == running
    &&& after.finished == (before.finished || completes)
    &&& if completes && !before.denoised && before.should_denoise {
        a == ProgressAction::FinishedAndDenoise && after.denoised
    } else if completes {
        a == ProgressAction::Finished && after.denoised == before.denoised
    } else {
        a == ProgressAction::Continue && after.denoised == before.denoised
    }
}

/// Over any run of updates, completion is reported at most once: after an
/// update that answers `Finished` or `FinishedAndDenoise`, every later
/// update answers `Continue`. So the picture is denoised at most once.
pub proof fn lemma_completion_reported_once(
    runs: Seq<RenderProgress>,
    messages: Seq<Option<ThreadMessage>>,
    actions: Seq<ProgressAction>,
)
    requires
        runs.len() == actions.len() + 1,
        messages.len() == actions.len(),
        forall|k: int|
            0 <= k < actions.len() ==> progress_step(
                runs[k],
                runs[k + 1],
                messages[k],
                #[trigger] actions[k],
            ),
    ensures
        forall|k1: int, k2: int|
            0 <= k1 < k2 < actions.len() && actions[k1] != ProgressAction::Continue ==> actions[k2]
                == ProgressAction::Continue,
{
    assert forall|k1: int, k2: int|
        0 <= k1 < k2 < actions.len() && actions[k1] != ProgressAction::Continue implies actions[k2]
        == ProgressAction::Continue by {
        assert(progress_step(runs[k1], runs[k1 + 1], messages[k1], actions[k1]));
        lemma_finished_stays(runs, messages, actions, k1 + 1, k2);
        assert(progress_step(runs[k2], runs[k2 + 1], messages[k2], actions[k2]));
    }
}

proof fn lemma_finished_stays(
    runs: Seq<RenderProgress>,
    messages: Seq<Option<ThreadMessage>>,
    actions: Seq<ProgressAction>,
    from: int,
    to: int,
)
    requires
        runs.len() == actions.len() + 1,
        messages.len() == actions.len(),
        forall|k: int|
            0 <= k < actions.len() ==> progress_step(
                runs[k],
                runs[k + 1],
                messages[k],
                #[trigger] actions[k],
            ),
        0 <= from <= to <= actions.len(),
        runs[from].finished,
    ensures
        runs[to].finished,
    decreases to - from,
{
    if from < to {
        assert(progress_step(runs[from], runs[from + 1], messages[from], actions[from]));
        lemma_finished_stays(runs, messages, actions, from + 1, to);
    }
}

/// Offset of the first of the three values of pixel `(x, y)` in the debug
/// buffer. Rows are `height` pixels apart (for square images that is the
/// row width).
pub fn debug_buffer_offset(x: u32, y: u32, height: u32) -> (offset: u32)
    requires
        (y * height + x) * 3 <= u32::MAX,
    ensures
        offset == (y * height + x) * 3,
{
    assert(0 <= y * height <= (y * height + x) * 3) by (nonlinear_arith)
        requires
            (y * height + x) * 3 <= u32::MAX,
            0 <= y,
            0 <= height,
            0 <= x,
    ;
    let index = y * height + x;
    index * 3
}

} // verus!
