use vstd::prelude::*;

use crate::clock::now_ms;
use crate::errors::AppError;
use crate::ident::fresh_id;
use crate::models::{ExportProfile, RecordingProfile};
use crate::motion::CursorSample;
use crate::state_machine::{ExportState, RecordingState};
use crate::text::str_eq;

verus! {

/// One in-progress recording activity: its identifiers, profile,
/// lifecycle state, start time, any degrade notice, and the cursor
/// samples collected so far (appended by a single sampler).
#[derive(Debug, Clone)]
pub struct RecordingSession {
    pub session_id: String,
    pub project_id: String,
    pub profile: RecordingProfile,
    pub state: RecordingState,
    pub started_at_ms: i64,
    pub degrade_message: Option<String>,
    pub cursor_samples: Vec<CursorSample>,
}

/// A session that owns a live encoder process.
pub open spec fn session_active(s: RecordingSession) -> bool {
    s.state == RecordingState::Recording || s.state == RecordingState::Paused
}

/// Index of the first session with the given identifier; the
/// sequence length when there is none.
pub open spec fn session_idx(ss: Seq<RecordingSession>, id: Seq<char>) -> int
    decreases ss.len(),
{
    if ss.len() == 0 {
        0
    } else if ss[0].session_id@ == id {
        0
    } else {
        1 + session_idx(ss.skip(1), id)
    }
}

pub proof fn lemma_session_idx_is(ss: Seq<RecordingSession>, id: Seq<char>, i: int)
    requires
        0 <= i <= ss.len(),
        forall|j: int| 0 <= j < i ==> (#[trigger] ss[j]).session_id@ != id,
        i < ss.len() ==> ss[i].session_id@ == id,
    ensures
        session_idx(ss, id) == i,
    decreases ss.len(),
{
    if ss.len() > 0 && ss[0].session_id@ != id {
        assert(i >= 1);
        assert forall|j: int| 0 <= j < i - 1 implies (#[trigger] ss.skip(1)[j]).session_id@
            != id by {
            assert(ss.skip(1)[j] == ss[j + 1]);
        }
        if i - 1 < ss.skip(1).len() {
            assert(ss.skip(1)[i - 1] == ss[i]);
        }
        lemma_session_idx_is(ss.skip(1), id, i - 1);
    }
}

/// Registry of live recording sessions. At most one session owns an
/// encoder process at a time: the invariant that a new recording is
/// rejected while another is recording or paused.
#[derive(Debug)]
pub struct SessionRegistry {
    pub sessions: Vec<RecordingSession>,
}

impl SessionRegistry {
    /// No two registered sessions are simultaneously active.
    pub open spec fn wf(self) -> bool {
        forall|i: int, j: int|
            0 <= i < j < self.sessions@.len() ==> !(session_active(#[trigger] self.sessions@[i])
                && session_active(#[trigger] self.sessions@[j]))
    }

    pub fn new() -> (r: Self)
        ensures
            r.sessions@.len() == 0,
            r.wf(),
    {
        SessionRegistry { sessions: Vec::new() }
    }

    /// Whether some session is currently recording or paused.
    pub fn any_active(&self) -> (r: bool)
        ensures
            r == exists|i: int|
                0 <= i < self.sessions@.len() && session_active(#[trigger] self.sessions@[i]),
    {
        let n = self.sessions.len();
        let mut i: usize = 0;
        while i < n
            invariant
                0 <= i <= n == self.sessions@.len(),
                forall|j: int| 0 <= j < i ==> !session_active(#[trigger] self.sessions@[j]),
            decreases n - i,
        {
            let st = self.sessions[i].state;
            if st == RecordingState::Recording || st == RecordingState::Paused {
                return true;
            }
            i = i + 1;
        }
        false
    }

    /// Whether any session (in any state) belongs to the project.
    pub fn project_busy(&self, project_id: &str) -> (r: bool)
        ensures
            r == exists|i: int|
                0 <= i < self.sessions@.len() && (#[trigger] self.sessions@[i]).project_id@
                    == project_id@,
    {
        let n = self.sessions.len();
        let mut i: usize = 0;
        while i < n
            invariant
                0 <= i <= n == self.sessions@.len(),
                forall|j: int| 0 <= j < i ==> (#[trigger] self.sessions@[j]).project_id@
                    != project_id@,
            decreases n - i,
        {
            if str_eq(self.sessions[i].project_id.as_str(), project_id) {
                return true;
            }
            i = i + 1;
        }
        false
    }

    /// Find the position of a session by its identifier.
    fn find(&self, session_id: &str) -> (r: usize)
        ensures
            r == session_idx(self.sessions@, session_id@),
            r <= self.sessions@.len(),
            r < self.sessions@.len() ==> self.sessions@[r as int].session_id@ == session_id@,
    {
        let n = self.sessions.len();
        let mut i: usize = 0;
        while i < n
            invariant
                0 <= i <= n == self.sessions@.len(),
                forall|j: int| 0 <= j < i ==> (#[trigger] self.sessions@[j]).session_id@
                    != session_id@,
            decreases n - i,
        {
            if str_eq(self.sessions[i].session_id.as_str(), session_id) {
                proof {
                    lemma_session_idx_is(self.sessions@, session_id@, i as int);
                }
                return i;
            }
            i = i + 1;
        }
        proof {
            lemma_session_idx_is(self.sessions@, session_id@, n as int);
        }
        n
    }

    /// Begin a recording session for a project: rejected while any
    /// other session is recording or paused; otherwise a fresh
    /// session in `Recording` state is registered under a fresh
    /// identifier, stamped with the current time, and its identifier
    /// returned.
    pub fn start_session(
        &mut self,
        project_id: &str,
        profile: RecordingProfile,
        degrade_message: Option<String>,
    ) -> (r: Result<String, AppError>)
        requires
            old(self).wf(),
        ensures
            final(self).wf(),
            (exists|i: int|
                0 <= i < old(self).sessions@.len() && session_active(
                    #[trigger] old(self).sessions@[i],
                )) ==> (r matches Err(e) && e.code@ == "RECORDING_ALREADY_ACTIVE"@) && *final(self)
                == *old(self),
            !(exists|i: int|
                0 <= i < old(self).sessions@.len() && session_active(
                    #[trigger] old(self).sessions@[i],
                )) ==> r is Ok && final(self).sessions@.len() == old(self).sessions@.len() + 1
                && final(self).sessions@.subrange(0, old(self).sessions@.len() as int) == old(
                self,
            ).sessions@ && {
                let s = final(self).sessions@.last();
                &&& s.session_id@ == r.unwrap()@
                &&& s.project_id@ == project_id@
                &&& s.profile == profile
                &&& s.state == RecordingState::Recording
                &&& s.degrade_message == degrade_message
                &&& s.cursor_samples@.len() == 0
            },
    {
        if self.any_active() {
            return Err(
                AppError::new(
                    "RECORDING_ALREADY_ACTIVE",
                    "another recording session is in progress; stop it before starting a new one",
                    Some("finish the current recording before starting a new one".to_owned()),
                ),
            );
        }
        let session_id = fresh_id();
        let session = RecordingSession {
            session_id: session_id.clone(),
            project_id: project_id.to_owned(),
            profile,
            state: RecordingState::Recording,
            started_at_ms: now_ms(),
            degrade_message,
            cursor_samples: Vec::new(),
        };
        let ghost olds = self.sessions@;
        self.sessions.push(session);
        proof {
            assert(final(self).sessions@.subrange(0, olds.len() as int) =~= olds);
        }
        Ok(session_id)
    }

    /// Pause a recording session: only a session in `Recording`
    /// state can pause; the rest of the registry is untouched.
    pub fn pause_session(&mut self, session_id: &str) -> (r: Result<(), AppError>)
        requires
            old(self).wf(),
        ensures
            final(self).wf(),
            ({
                let ss = old(self).sessions@;
                let i = session_idx(ss, session_id@);
                if i == ss.len() {
                    (r matches Err(e) && e.code@ == "SESSION_NOT_FOUND"@) && *final(self) == *old(
                        self,
                    )
                } else if ss[i].state != RecordingState::Recording {
                    (r matches Err(e) && e.code@ == "INVALID_RECORDING_STATE"@) && *final(self)
                        == *old(self)
                } else {
                    r is Ok && final(self).sessions@ == ss.update(
                        i,
                        RecordingSession { state: RecordingState::Paused, ..ss[i] },
                    )
                }
            }),
    {
        let i = self.find(session_id);
        if i == self.sessions.len() {
            return Err(
                AppError::new("SESSION_NOT_FOUND", "recording session not found", None),
            );
        }
        if self.sessions[i].state != RecordingState::Recording {
            return Err(
                AppError::new("INVALID_RECORDING_STATE", "only recording session can pause", None),
            );
        }
        let s = &mut self.sessions[i];
        s.state = RecordingState::Paused;
        Ok(())
    }

    /// Resume a paused session: only a session in `Paused` state can
    /// resume.
    pub fn resume_session(&mut self, session_id: &str) -> (r: Result<(), AppError>)
        requires
            old(self).wf(),
        ensures
            final(self).wf(),
            ({
                let ss = old(self).sessions@;
                let i = session_idx(ss, session_id@);
                if i == ss.len() {
                    (r matches Err(e) && e.code@ == "SESSION_NOT_FOUND"@) && *final(self) == *old(
                        self,
                    )
                } else if ss[i].state != RecordingState::Paused {
                    (r matches Err(e) && e.code@ == "INVALID_RECORDING_STATE"@) && *final(self)
                        == *old(self)
                } else {
                    r is Ok && final(self).sessions@ == ss.update(
                        i,
                        RecordingSession { state: RecordingState::Recording, ..ss[i] },
                    )
                }
            }),
    {
        let i = self.find(session_id);
        if i == self.sessions.len() {
            return Err(
                AppError::new("SESSION_NOT_FOUND", "recording session not found", None),
            );
        }
        if self.sessions[i].state != RecordingState::Paused {
            return Err(
                AppError::new("INVALID_RECORDING_STATE", "only paused session can resume", None),
            );
        }
        let s = &mut self.sessions[i];
        s.state = RecordingState::Recording;
        Ok(())
    }

    /// Read one session.
    pub fn get_session(&self, session_id: &str) -> (r: Option<&RecordingSession>)
        ensures
            ({
                let ss = self.sessions@;
                let i = session_idx(ss, session_id@);
                if i == ss.len() {
                    r is None
                } else {
                    r matches Some(s) && *s == ss[i]
                }
            }),
    {
        let i = self.find(session_id);
        if i == self.sessions.len() {
            None
        } else {
            Some(&self.sessions[i])
        }
    }

    /// Remove a session from the registry (on stop or on a fatal
    /// process exit), returning it.
    pub fn remove_session(&mut self, session_id: &str) -> (r: Option<RecordingSession>)
        requires
            old(self).wf(),
        ensures
            final(self).wf(),
            ({
                let ss = old(self).sessions@;
                let i = session_idx(ss, session_id@);
                if i == ss.len() {
                    r is None && *final(self) == *old(self)
                } else {
                    r == Some(ss[i]) && final(self).sessions@ == ss.remove(i)
                }
            }),
    {
        let i = self.find(session_id);
        if i == self.sessions.len() {
            None
        } else {
            let s = self.sessions.remove(i);
            proof {
                assert forall|a: int, b: int|
                    0 <= a < b < final(self).sessions@.len() implies !(session_active(
                    #[trigger] final(self).sessions@[a],
                ) && session_active(#[trigger] final(self).sessions@[b])) by {
                    let ss = old(self).sessions@;
                    let a0 = if a < i as int {
                        a
                    } else {
                        a + 1
                    };
                    let b0 = if b < i as int {
                        b
                    } else {
                        b + 1
                    };
                    assert(final(self).sessions@[a] == ss[a0]);
                    assert(final(self).sessions@[b] == ss[b0]);
                }
            }
            Some(s)
        }
    }

    /// Append a cursor sample to a session's buffer, stamped with the
    /// elapsed time the sampler read; samples are collected only
    /// while the session is in `Recording` state.
    pub fn record_cursor_sample(&mut self, session_id: &str, sample: CursorSample)
        requires
            old(self).wf(),
        ensures
            final(self).wf(),
            ({
                let ss = old(self).sessions@;
                let i = session_idx(ss, session_id@);
                if i < ss.len() && ss[i].state == RecordingState::Recording {
                    final(self).sessions@ == ss.update(
                        i,
                        RecordingSession {
                            cursor_samples: final(self).sessions@[i].cursor_samples,
                            ..ss[i]
                        },
                    ) && final(self).sessions@[i].cursor_samples@ == ss[i].cursor_samples@.push(
                        sample,
                    )
                } else {
                    *final(self) == *old(self)
                }
            }),
    {
        let i = self.find(session_id);
        if i == self.sessions.len() {
            return ;
        }
        if self.sessions[i].state != RecordingState::Recording {
            return ;
        }
        let s = &mut self.sessions[i];
        s.cursor_samples.push(sample);
    }

    /// A copy of the cursor samples collected for a session; empty
    /// when the session is unknown.
    pub fn cursor_samples(&self, session_id: &str) -> (r: Vec<CursorSample>)
        ensures
            ({
                let ss = self.sessions@;
                let i = session_idx(ss, session_id@);
                if i == ss.len() {
                    r@.len() == 0
                } else {
                    r@ == ss[i].cursor_samples@
                }
            }),
    {
        let i = self.find(session_id);
        if i == self.sessions.len() {
            Vec::new()
        } else {
            let src = &self.sessions[i].cursor_samples;
            let m = src.len();
            let mut out: Vec<CursorSample> = Vec::new();
            let mut k: usize = 0;
            while k < m
                invariant
                    0 <= k <= m == src@.len(),
                    out@ == src@.subrange(0, k as int),
                decreases m - k,
            {
                out.push(src[k]);
                proof {
                    assert(out@ =~= src@.subrange(0, k + 1));
                }
                k = k + 1;
            }
            proof {
                assert(out@ =~= src@);
            }
            out
        }
    }
}

/// One export (transcode) request with its retry lineage. Task
/// records persist for status polling; they are only purged with
/// their project.
#[derive(Debug, Clone)]
pub struct ExportTask {
    pub task_id: String,
    pub project_id: String,
    pub profile: ExportProfile,
    pub state: ExportState,
    pub retries: u8,
    pub last_error: Option<AppError>,
}

/// A point-in-time view of one export task for status polling.
#[derive(Debug, Clone)]
pub struct ExportTaskStatusSnapshot {
    pub task_id: String,
    pub project_id: String,
    pub status: String,
    pub retries: u8,
    pub last_error: Option<AppError>,
}

/// A task that is queued, running or in fallback still owns the
/// export pipeline for its project.
pub open spec fn task_active(t: ExportTask) -> bool {
    t.state == ExportState::Queued || t.state == ExportState::Running || t.state
        == ExportState::Fallback
}

/// Index of the first task with the given identifier; the sequence
/// length when there is none.
pub open spec fn task_idx(ts: Seq<ExportTask>, id: Seq<char>) -> int
    decreases ts.len(),
{
    if ts.len() == 0 {
        0
    } else if ts[0].task_id@ == id {
        0
    } else {
        1 + task_idx(ts.skip(1), id)
    }
}

pub proof fn lemma_task_idx_is(ts: Seq<ExportTask>, id: Seq<char>, i: int)
    requires
        0 <= i <= ts.len(),
        forall|j: int| 0 <= j < i ==> (#[trigger] ts[j]).task_id@ != id,
        i < ts.len() ==> ts[i].task_id@ == id,
    ensures
        task_idx(ts, id) == i,
    decreases ts.len(),
{
    if ts.len() > 0 && ts[0].task_id@ != id {
        assert(i >= 1);
        assert forall|j: int| 0 <= j < i - 1 implies (#[trigger] ts.skip(1)[j]).task_id@ != id by {
            assert(ts.skip(1)[j] == ts[j + 1]);
        }
        if i - 1 < ts.skip(1).len() {
            assert(ts.skip(1)[i - 1] == ts[i]);
        }
        lemma_task_idx_is(ts.skip(1), id, i - 1);
    }
}

/// Every element of a filtered task sequence occurs in its source.
proof fn lemma_filter_sub(ts: Seq<ExportTask>, pred: spec_fn(ExportTask) -> bool)
    ensures
        forall|a: int|
            0 <= a < ts.filter(pred).len() ==> exists|j: int|
                0 <= j < ts.len() && ts[j] == #[trigger] ts.filter(pred)[a],
    decreases ts.len(),
{
    reveal(Seq::filter);
    if ts.len() > 0 {
        let dl = ts.drop_last();
        lemma_filter_sub(dl, pred);
        let f = ts.filter(pred);
        let fd = dl.filter(pred);
        assert forall|a: int|
            0 <= a < f.len() implies exists|j: int| 0 <= j < ts.len() && ts[j] == #[trigger] f[
        a] by {
            if pred(ts.last()) && a == f.len() - 1 {
                assert(ts[ts.len() - 1] == f[a]);
            } else {
                assert(f[a] == fd[a]);
                let j = choose|j: int| 0 <= j < dl.len() && dl[j] == fd[a];
                assert(ts[j] == f[a]);
            }
        }
    }
}

/// Filtering tasks out preserves the one-active-task-per-project
/// property.
proof fn lemma_filter_keeps_wf(ts: Seq<ExportTask>, pred: spec_fn(ExportTask) -> bool)
    requires
        forall|i: int, j: int|
            0 <= i < j < ts.len() ==> !((#[trigger] ts[i]).project_id@ == (
            #[trigger] ts[j]).project_id@ && task_active(ts[i]) && task_active(ts[j])),
    ensures
        forall|a: int, b: int|
            0 <= a < b < ts.filter(pred).len() ==> !((#[trigger] ts.filter(
                pred,
            )[a]).project_id@ == (#[trigger] ts.filter(pred)[b]).project_id@ && task_active(
                ts.filter(pred)[a],
            ) && task_active(ts.filter(pred)[b])),
    decreases ts.len(),
{
    reveal(Seq::filter);
    if ts.len() > 0 {
        let dl = ts.drop_last();
        lemma_filter_keeps_wf(dl, pred);
        lemma_filter_sub(dl, pred);
        let f = ts.filter(pred);
        let fd = dl.filter(pred);
        assert forall|a: int, b: int|
            0 <= a < b < f.len() implies !((#[trigger] f[a]).project_id@ == (
        #[trigger] f[b]).project_id@ && task_active(f[a]) && task_active(f[b])) by {
            if pred(ts.last()) && b == f.len() - 1 {
                assert(f[b] == ts.last());
                assert(f[a] == fd[a]);
                if f[a].project_id@ == f[b].project_id@ && task_active(f[a]) && task_active(
                    f[b],
                ) {
                    let j = choose|j: int| 0 <= j < dl.len() && dl[j] == fd[a];
                    assert(ts[j] == f[a]);
                    assert(!(ts[j].project_id@ == ts[ts.len() - 1].project_id@ && task_active(
                        ts[j],
                    ) && task_active(ts[ts.len() - 1])));
                }
            } else {
                assert(f[a] == fd[a] && f[b] == fd[b]);
            }
        }
    }
}

/// Some task of the project is queued, running or in fallback.
pub open spec fn has_active_task_for(ts: Seq<ExportTask>, project_id: Seq<char>) -> bool {
    exists|i: int|
        0 <= i < ts.len() && (#[trigger] ts[i]).project_id@ == project_id && task_active(ts[i])
}

/// Registry of export tasks. At most one task per project is active
/// (queued, running or in fallback) at a time; checking and
/// inserting happen in one call, so the check-then-insert sequence
/// is a single critical section.
#[derive(Debug)]
pub struct ExportRegistry {
    pub tasks: Vec<ExportTask>,
}

impl ExportRegistry {
    /// No two registered tasks of the same project are
    /// simultaneously active.
    pub open spec fn wf(self) -> bool {
        forall|i: int, j: int|
            0 <= i < j < self.tasks@.len() ==> !((#[trigger] self.tasks@[i]).project_id@ == (
            #[trigger] self.tasks@[j]).project_id@ && task_active(self.tasks@[i]) && task_active(
                self.tasks@[j],
            ))
    }

    pub fn new() -> (r: Self)
        ensures
            r.tasks@.len() == 0,
            r.wf(),
    {
        ExportRegistry { tasks: Vec::new() }
    }

    /// Whether the project already has an active task, optionally
    /// ignoring one task id (for retries of that very task).
    fn has_active_for(&self, project_id: &str, ignore_task_id: Option<&str>) -> (r: bool)
        ensures
            ({
                match ignore_task_id {
                    None => r == has_active_task_for(self.tasks@, project_id@),
                    Some(skip_id) => r == exists|i: int|
                        0 <= i < self.tasks@.len() && (#[trigger] self.tasks@[i]).project_id@
                            == project_id@ && task_active(self.tasks@[i])
                            && self.tasks@[i].task_id@ != skip_id@,
                }
            }),
    {
        let n = self.tasks.len();
        let mut i: usize = 0;
        while i < n
            invariant
                0 <= i <= n == self.tasks@.len(),
                forall|j: int|
                    0 <= j < i ==> !((#[trigger] self.tasks@[j]).project_id@ == project_id@
                        && task_active(self.tasks@[j]) && (match ignore_task_id {
                        None => true,
                        Some(skip_id) => self.tasks@[j].task_id@ != skip_id@,
                    })),
            decreases n - i,
        {
            let t = &self.tasks[i];
            let st = t.state;
            let active = st == ExportState::Queued || st == ExportState::Running || st
                == ExportState::Fallback;
            if active && str_eq(t.project_id.as_str(), project_id) {
                let skip_this = match ignore_task_id {
                    Some(skip_id) => str_eq(t.task_id.as_str(), skip_id),
                    None => false,
                };
                if !skip_this {
                    return true;
                }
            }
            i = i + 1;
        }
        false
    }

    /// Find the position of a task by its identifier.
    fn find(&self, task_id: &str) -> (r: usize)
        ensures
            r == task_idx(self.tasks@, task_id@),
            r <= self.tasks@.len(),
            r < self.tasks@.len() ==> self.tasks@[r as int].task_id@ == task_id@,
    {
        let n = self.tasks.len();
        let mut i: usize = 0;
        while i < n
            invariant
                0 <= i <= n == self.tasks@.len(),
                forall|j: int| 0 <= j < i ==> (#[trigger] self.tasks@[j]).task_id@ != task_id@,
            decreases n - i,
        {
            if str_eq(self.tasks[i].task_id.as_str(), task_id) {
                proof {
                    lemma_task_idx_is(self.tasks@, task_id@, i as int);
                }
                return i;
            }
            i = i + 1;
        }
        proof {
            lemma_task_idx_is(self.tasks@, task_id@, n as int);
        }
        n
    }

    /// Queue a new export task for a project. Rejected with a
    /// conflict error while another task for the same project is
    /// queued, running or in fallback; accepted once every prior
    /// task of the project has reached success or failure.
    pub fn start_task(&mut self, project_id: &str, profile: ExportProfile) -> (r: Result<
        String,
        AppError,
    >)
        requires
            old(self).wf(),
        ensures
            final(self).wf(),
            has_active_task_for(old(self).tasks@, project_id@) ==> (r matches Err(e) && e.code@
                == "EXPORT_ALREADY_ACTIVE"@) && *final(self) == *old(self),
            !has_active_task_for(old(self).tasks@, project_id@) ==> r is Ok
                && final(self).tasks@.len() == old(self).tasks@.len() + 1
                && final(self).tasks@.subrange(
                0,
                old(self).tasks@.len() as int,
            ) == old(self).tasks@ && {
                let t = final(self).tasks@.last();
                &&& t.task_id@ == r.unwrap()@
                &&& t.project_id@ == project_id@
                &&& t.profile == profile
                &&& t.state == ExportState::Queued
                &&& t.retries == 0
                &&& t.last_error is None
            },
    {
        if self.has_active_for(project_id, None) {
            return Err(
                AppError::new(
                    "EXPORT_ALREADY_ACTIVE",
                    "an export task for this project is already in progress",
                    Some("wait for the running export to finish before starting a new one"
                        .to_owned()),
                ),
            );
        }
        let task_id = fresh_id();
        let task = ExportTask {
            task_id: task_id.clone(),
            project_id: project_id.to_owned(),
            profile,
            state: ExportState::Queued,
            retries: 0,
            last_error: None,
        };
        let ghost oldt = self.tasks@;
        self.tasks.push(task);
        proof {
            assert(final(self).tasks@.subrange(0, oldt.len() as int) =~= oldt);
        }
        Ok(task_id)
    }

    /// Queue a retry of an existing task as a new task carrying an
    /// incremented retry counter. Rejected when the task is unknown
    /// or while any task of the same project is still active, so the
    /// one-active-task-per-project invariant is preserved.
    pub fn retry_task(&mut self, export_task_id: &str) -> (r: Result<String, AppError>)
        requires
            old(self).wf(),
        ensures
            final(self).wf(),
            ({
                let ts = old(self).tasks@;
                let i = task_idx(ts, export_task_id@);
                if i == ts.len() {
                    (r matches Err(e) && e.code@ == "EXPORT_TASK_NOT_FOUND"@) && *final(self)
                        == *old(self)
                } else if has_active_task_for(ts, ts[i].project_id@) {
                    (r matches Err(e) && e.code@ == "EXPORT_ALREADY_ACTIVE"@) && *final(self)
                        == *old(self)
                } else {
                    r is Ok && final(self).tasks@.len() == ts.len() + 1
                        && final(self).tasks@.subrange(0, ts.len() as int) == ts && {
                        let t = final(self).tasks@.last();
                        &&& t.task_id@ == r.unwrap()@
                        &&& t.project_id@ == ts[i].project_id@
                        &&& t.profile == ts[i].profile
                        &&& t.state == ExportState::Queued
                        &&& t.retries == (if ts[i].retries == u8::MAX {
                            u8::MAX
                        } else {
                            (ts[i].retries + 1) as u8
                        })
                        &&& t.last_error is None
                    }
                }
            }),
    {
        let i = self.find(export_task_id);
        if i == self.tasks.len() {
            return Err(
                AppError::new(
                    "EXPORT_TASK_NOT_FOUND",
                    "export task not found",
                    Some("start a new export instead".to_owned()),
                ),
            );
        }
        let project_id = self.tasks[i].project_id.clone();
        let profile = self.tasks[i].profile;
        let retries = self.tasks[i].retries;
        if self.has_active_for(project_id.as_str(), None) {
            return Err(
                AppError::new(
                    "EXPORT_ALREADY_ACTIVE",
                    "an export task for this project is already in progress",
                    Some("wait for the running export to finish before retrying".to_owned()),
                ),
            );
        }
        let new_task_id = fresh_id();
        let task = ExportTask {
            task_id: new_task_id.clone(),
            project_id,
            profile,
            state: ExportState::Queued,
            retries: if retries == u8::MAX {
                u8::MAX
            } else {
                retries + 1
            },
            last_error: None,
        };
        let ghost oldt = self.tasks@;
        self.tasks.push(task);
        proof {
            assert(final(self).tasks@.subrange(0, oldt.len() as int) =~= oldt);
        }
        Ok(new_task_id)
    }

    /// Overwrite a task's lifecycle state as the pipeline reaches a
    /// milestone; unknown tasks are left untouched. The registry
    /// invariant is preserved whenever the step does not revive an
    /// already-settled task.
    pub fn set_task_state(&mut self, task_id: &str, state: ExportState)
        requires
            old(self).wf(),
        ensures
            ({
                let ts = old(self).tasks@;
                let i = task_idx(ts, task_id@);
                if i == ts.len() {
                    *final(self) == *old(self)
                } else {
                    final(self).tasks@ == ts.update(i, ExportTask { state, ..ts[i] })
                }
            }),
            ({
                let ts = old(self).tasks@;
                let i = task_idx(ts, task_id@);
                (i == ts.len() || task_active(ts[i]) || state == ExportState::Success || state
                    == ExportState::Failed) ==> final(self).wf()
            }),
    {
        let i = self.find(task_id);
        if i == self.tasks.len() {
            return ;
        }
        let t = &mut self.tasks[i];
        t.state = state;
        proof {
            let ts = old(self).tasks@;
            let f = final(self).tasks@;
            if task_active(ts[i as int]) || state == ExportState::Success || state
                == ExportState::Failed {
                assert forall|a: int, b: int|
                    0 <= a < b < f.len() implies !((#[trigger] f[a]).project_id@ == (
                #[trigger] f[b]).project_id@ && task_active(f[a]) && task_active(f[b])) by {
                    assert(ts[a].project_id@ == f[a].project_id@);
                    assert(ts[b].project_id@ == f[b].project_id@);
                    if task_active(f[a]) && task_active(f[b]) && f[a].project_id@
                        == f[b].project_id@ {
                        assert(task_active(ts[a]) && task_active(ts[b]));
                    }
                }
            }
        }
    }

    /// Record a task's terminal failure with its classified error.
    pub fn fail_task(&mut self, task_id: &str, error: AppError)
        requires
            old(self).wf(),
        ensures
            final(self).wf(),
            ({
                let ts = old(self).tasks@;
                let i = task_idx(ts, task_id@);
                if i == ts.len() {
                    *final(self) == *old(self)
                } else {
                    final(self).tasks@ == ts.update(
                        i,
                        ExportTask {
                            state: ExportState::Failed,
                            last_error: final(self).tasks@[i].last_error,
                            ..ts[i]
                        },
                    ) && final(self).tasks@[i].last_error == Some(error)
                }
            }),
    {
        let i = self.find(task_id);
        if i == self.tasks.len() {
            return ;
        }
        let t = &mut self.tasks[i];
        t.state = ExportState::Failed;
        t.last_error = Some(error);
    }

    /// A point-in-time snapshot of one task for status polling.
    pub fn task_snapshot(&self, export_task_id: &str) -> (r: Result<
        ExportTaskStatusSnapshot,
        AppError,
    >)
        ensures
            ({
                let ts = self.tasks@;
                let i = task_idx(ts, export_task_id@);
                if i == ts.len() {
                    r matches Err(e) && e.code@ == "EXPORT_TASK_NOT_FOUND"@
                } else {
                    r matches Ok(s) && s.task_id@ == ts[i].task_id@ && s.project_id@
                        == ts[i].project_id@ && s.retries == ts[i].retries && s.last_error
                        == ts[i].last_error && s.status@ == (match ts[i].state {
                        ExportState::Queued => "queued"@,
                        ExportState::Running => "running"@,
                        ExportState::Fallback => "fallback"@,
                        ExportState::Success => "success"@,
                        ExportState::Failed => "failed"@,
                    })
                }
            }),
    {
        let i = self.find(export_task_id);
        if i == self.tasks.len() {
            return Err(
                AppError::new(
                    "EXPORT_TASK_NOT_FOUND",
                    "export task not found",
                    Some("start a new export instead".to_owned()),
                ),
            );
        }
        let t = &self.tasks[i];
        Ok(
            ExportTaskStatusSnapshot {
                task_id: t.task_id.clone(),
                project_id: t.project_id.clone(),
                status: crate::export_flow::export_state_key(t.state).to_owned(),
                retries: t.retries,
                last_error: crate::errors::duplicate_opt_error(&t.last_error),
            },
        )
    }

    /// Whether the project has an active export task (for conflict
    /// and deletion checks).
    pub fn project_export_busy(&self, project_id: &str) -> (r: bool)
        ensures
            r == has_active_task_for(self.tasks@, project_id@),
    {
        self.has_active_for(project_id, None)
    }

    /// Drop every task of a project (when the project is deleted).
    pub fn purge_project_tasks(&mut self, project_id: &str)
        requires
            old(self).wf(),
        ensures
            final(self).wf(),
            final(self).tasks@ == old(self).tasks@.filter(
                (|t: ExportTask| t.project_id@ != project_id@),
            ),
    {
        let n = self.tasks.len();
        let mut kept: Vec<ExportTask> = Vec::new();
        let mut i: usize = 0;
        while i < n
            invariant
                0 <= i <= n == self.tasks@.len(),
                kept@ == self.tasks@.subrange(0, i as int).filter(
                    (|t: ExportTask| t.project_id@ != project_id@),
                ),
            decreases n - i,
        {
            let ghost pre = self.tasks@.subrange(0, i as int);
            let ghost post = self.tasks@.subrange(0, i + 1);
            proof {
                assert(post.drop_last() =~= pre);
                assert(post.last() == self.tasks@[i as int]);
                reveal(Seq::filter);
            }
            let keep = !str_eq(self.tasks[i].project_id.as_str(), project_id);
            if keep {
                let src = &self.tasks[i];
                let t = ExportTask {
                    task_id: src.task_id.clone(),
                    project_id: src.project_id.clone(),
                    profile: src.profile,
                    state: src.state,
                    retries: src.retries,
                    last_error: crate::errors::duplicate_opt_error(&src.last_error),
                };
                proof {
                    assert(t == self.tasks@[i as int]);
                }
                kept.push(t);
            }
            i = i + 1;
        }
        proof {
            assert(self.tasks@.subrange(0, n as int) =~= self.tasks@);
            lemma_filter_keeps_wf(self.tasks@, (|t: ExportTask| t.project_id@ != project_id@));
        }
        self.tasks = kept;
    }
}

} // verus!
