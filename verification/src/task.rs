//! The single background task that file operations run as: at most one runs
//! at a time, and a request made while one runs is refused.
use vstd::prelude::*;
use crate::error::{AppError, AppErrorView, AppResult, error_code, error_message};

verus! {

/// The kind of a background task.
#[derive(Debug, Clone, Copy, PartialEq, Eq, Structural)]
pub enum TaskKind {
    Rename,
    Copy,
    Move,
    Delete,
}

/// The state of a background task.
#[derive(Debug, Clone, Copy, PartialEq, Eq, Structural)]
pub enum TaskStatus {
    Running,
    Done,
    Failed,
}

/// A background task as the user interface shows it.
#[derive(Debug)]
pub struct TaskInfo {
    pub id: String,
    pub kind: TaskKind,
    pub description: String,
    pub started_at_ms: u64,
    pub status: TaskStatus,
}

/// A `TaskInfo` with its texts read as character sequences.
pub struct TaskInfoView {
    pub id: Seq<char>,
    pub kind: TaskKind,
    pub description: Seq<char>,
    pub started_at_ms: u64,
    pub status: TaskStatus,
}

impl View for TaskInfo {
    type V = TaskInfoView;

    open spec fn view(&self) -> TaskInfoView {
        TaskInfoView {
            id: self.id@,
            kind: self.kind,
            description: self.description@,
            started_at_ms: self.started_at_ms,
            status: self.status,
        }
    }
}

/// What the end of a task announces.
pub enum TaskEvent {
    /// The task succeeded; its info with status `Done`.
    Finished(TaskInfo),
    /// The task failed; its id and the error's code and message.
    Failed { id: String, code: String, message: String },
}

/// A `TaskEvent` with its texts read as character sequences.
pub enum TaskEventView {
    Finished(TaskInfoView),
    Failed { id: Seq<char>, code: Seq<char>, message: Seq<char> },
}

impl View for TaskEvent {
    type V = TaskEventView;

    open spec fn view(&self) -> TaskEventView {
        match self {
            TaskEvent::Finished(i) => TaskEventView::Finished(i@),
            TaskEvent::Failed { id, code, message } => TaskEventView::Failed {
                id: id@,
                code: code@,
                message: message@,
            },
        }
    }
}

/// The outcome of a request to start a task.
pub enum StartOutcome {
    Started(TaskInfoView),
    Busy,
}

/// A request to start a task with the given id, kind, description and start
/// time: refused while a task runs, else the new running task.
pub open spec fn start_step(
    state: Option<TaskInfoView>,
    id: Seq<char>,
    kind: TaskKind,
    description: Seq<char>,
    now_ms: u64,
) -> (Option<TaskInfoView>, StartOutcome) {
    match state {
        Some(_) => (state, StartOutcome::Busy),
        None => {
            let info = TaskInfoView {
                id,
                kind,
                description,
                started_at_ms: now_ms,
                status: TaskStatus::Running,
            };
            (Some(info), StartOutcome::Started(info))
        },
    }
}

/// The end of the task `info` with the given outcome: no task runs any
/// longer, and the event reports the task done or failed.
pub open spec fn finish_step(info: TaskInfoView, failure: Option<AppErrorView>) -> (
    Option<TaskInfoView>,
    TaskEventView,
) {
    match failure {
        None => (None, TaskEventView::Finished(TaskInfoView { status: TaskStatus::Done, ..info })),
        Some(e) => (
            None,
            TaskEventView::Failed { id: info.id, code: error_code(e), message: error_message(e) },
        ),
    }
}

/// A refused request changes nothing: while a task runs, any request to
/// start another is answered `Busy` and the running task stays.
pub proof fn law_busy_refuses(
    state: Option<TaskInfoView>,
    id: Seq<char>,
    kind: TaskKind,
    description: Seq<char>,
    now_ms: u64,
)
    requires
        state is Some,
    ensures
        start_step(state, id, kind, description, now_ms) == (state, StartOutcome::Busy),
{
}

/// At most one task at a time: after a task has started, a second request
/// is refused until that task finishes, and after it finishes a new request
/// is accepted.
pub proof fn law_one_task_at_a_time(
    id1: Seq<char>,
    kind1: TaskKind,
    desc1: Seq<char>,
    t1: u64,
    id2: Seq<char>,
    kind2: TaskKind,
    desc2: Seq<char>,
    t2: u64,
    failure: Option<AppErrorView>,
)
    ensures
        ({
            let (s1, o1) = start_step(None, id1, kind1, desc1, t1);
            let (s2, o2) = start_step(s1, id2, kind2, desc2, t2);
            &&& o1 is Started
            &&& o2 is Busy
            &&& s2 == s1
            &&& ({
                let (s3, _) = finish_step(s1->Some_0, failure);
                &&& s3 is None
                &&& start_step(s3, id2, kind2, desc2, t2).1 is Started
            })
        }),
{
}

/// The task manager: the task that runs, if any.
pub struct TaskManager {
    inner: Option<TaskInfo>,
}

/// The info of a task, if any, read by its view.
pub open spec fn opt_task_view(o: Option<TaskInfo>) -> Option<TaskInfoView> {
    match o {
        Some(i) => Some(i@),
        None => None,
    }
}

impl View for TaskManager {
    type V = Option<TaskInfoView>;

    closed spec fn view(&self) -> Option<TaskInfoView> {
        opt_task_view(self.inner)
    }
}

impl TaskManager {
    /// Every task that the manager holds is running.
    #[verifier::type_invariant]
    spec fn holds_running(self) -> bool {
        self.inner matches Some(i) ==> i.status == TaskStatus::Running
    }

    /// A manager with no task.
    pub fn new() -> (r: TaskManager)
        ensures
            r@ is None,
    {
        TaskManager { inner: None }
    }

    /// The task that runs, if any.
    pub fn current(&self) -> (r: Option<TaskInfo>)
        ensures
            opt_task_view(r) == self@,
            r matches Some(t) ==> t.status == TaskStatus::Running,
    {
        proof {
            use_type_invariant(self);
        }
        match &self.inner {
            Some(i) => Some(i.clone_info()),
            None => None,
        }
    }

    /// Starts a task with the given id, kind, description and start time,
    /// unless one runs: then `BusyTask`, and the running task stays.
    pub fn start_with(
        &mut self,
        id: String,
        kind: TaskKind,
        description: String,
        now_ms: u64,
    ) -> (r: AppResult<TaskInfo>)
        ensures
            ({
                let (s, o) = start_step(old(self)@, id@, kind, description@, now_ms);
                &&& final(self)@ == s
                &&& match o {
                    StartOutcome::Started(info) => r matches Ok(t) && t@ == info,
                    StartOutcome::Busy => r matches Err(e) && e@ == AppErrorView::BusyTask,
                }
            }),
    {
        if self.inner.is_some() {
            return Err(AppError::BusyTask);
        }
        let info = TaskInfo { id, kind, description, started_at_ms: now_ms, status: TaskStatus::Running };
        self.inner = Some(info.clone_info());
        Ok(info)
    }

    /// Starts a task of the given kind and description with a fresh random
    /// id and the current time, unless one runs: then `BusyTask`, and the
    /// running task stays.
    pub fn start(&mut self, kind: TaskKind, description: String) -> (r: AppResult<TaskInfo>)
        ensures
            old(self)@ is Some ==> final(self)@ == old(self)@,
            old(self)@ is Some ==> (r matches Err(e) && e@ == AppErrorView::BusyTask),
            old(self)@ is None ==> (r matches Ok(t) && final(self)@ == Some(t@) && t.kind == kind
                && t@.description == description@ && t.status == TaskStatus::Running
                && uuid_v4_text(t@.id)),
    {
        if self.inner.is_some() {
            return Err(AppError::BusyTask);
        }
        let id = new_task_id();
        let now = now_ms();
        self.start_with(id, kind, description, now)
    }

    /// Ends the running task `info` with `outcome`: the manager holds no task
    /// afterwards, and the returned event reports the task done or failed.
    pub fn finish(&mut self, info: TaskInfo, outcome: &AppResult<()>) -> (r: TaskEvent)
        ensures
            ({
                let failure = match outcome {
                    Ok(_) => None,
                    Err(e) => Some(e@),
                };
                let (s, ev) = finish_step(info@, failure);
                final(self)@ == s && r@ == ev
            }),
    {
        self.inner = None;
        match outcome {
            Ok(()) => {
                let mut done = info;
                done.status = TaskStatus::Done;
                TaskEvent::Finished(done)
            },
            Err(e) => TaskEvent::Failed {
                id: info.id,
                code: String::from_str(e.code()),
                message: e.message(),
            },
        }
    }
}

impl TaskInfo {
    /// A copy of this info.
    pub fn clone_info(&self) -> (r: TaskInfo)
        ensures
            r@ == self@,
    {
        TaskInfo {
            id: self.id.clone(),
            kind: self.kind,
            description: self.description.clone(),
            started_at_ms: self.started_at_ms,
            status: self.status,
        }
    }
}

/// A lower-case hexadecimal digit.
pub open spec fn is_lower_hex(c: char) -> bool {
    ('0' <= c && c <= '9') || ('a' <= c && c <= 'f')
}

/// The hyphenated text of a random (version 4, RFC 4122 variant) UUID:
/// 32 lower-case hexadecimal digits in groups of 8-4-4-4-12, the version
/// digit `4` opening the third group and the variant digit (`8`, `9`, `a`
/// or `b`) the fourth.
pub open spec fn uuid_v4_text(s: Seq<char>) -> bool {
    &&& s.len() == 36
    &&& forall|i: int|
        0 <= i < 36 ==> if i == 8 || i == 13 || i == 18 || i == 23 {
            s[i] == '-'
        } else {
            is_lower_hex(#[trigger] s[i])
        }
    &&& s[14] == '4'
    &&& (s[19] == '8' || s[19] == '9' || s[19] == 'a' || s[19] == 'b')
}

/// A fresh task id: a random (version 4) UUID in its hyphenated form.
///
/// Trusted: calls `uuid::Uuid::new_v4`, which sets the version bits to 4 and
/// the variant bits to RFC 4122, and formats it with `Display`, which writes
/// the lower-case hyphenated form. The other digits are random, so nothing
/// else is stated of them.
#[verifier::external_body]
fn new_task_id() -> (r: String)
    ensures
        uuid_v4_text(r@),
{
    uuid::Uuid::new_v4().to_string()
}

#[verifier::external_type_specification]
#[verifier::external_body]
pub struct ExSystemTime(std::time::SystemTime);

/// Trusted: calls `std::time::SystemTime::now`; the clock's reading is not
/// stated.
#[verifier::external_body]
fn system_now() -> std::time::SystemTime {
    std::time::SystemTime::now()
}

/// Trusted: calls `SystemTime::duration_since` with the Unix epoch, `None`
/// where the time lies before the epoch; nothing is stated of the value.
#[verifier::external_body]
fn since_unix_epoch(t: &std::time::SystemTime) -> Option<std::time::Duration> {
    t.duration_since(std::time::UNIX_EPOCH).ok()
}

/// Trusted: calls `Duration::as_millis`; nothing is stated of the value.
#[verifier::external_body]
fn duration_millis(d: &std::time::Duration) -> u128 {
    d.as_millis()
}

/// Milliseconds since the Unix epoch (truncated to 64 bits), or 0 where the
/// clock reads a time before the epoch.
pub fn now_ms() -> u64 {
    match since_unix_epoch(&system_now()) {
        Some(d) => {
            let ms = duration_millis(&d);
            #[verifier::truncate]
            (ms as u64)
        },
        None => 0,
    }
}

} // verus!
