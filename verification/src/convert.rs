//! Previews that an outside program renders into the cache: LibreOffice
//! converting a presentation to PDF, or Quick Look drawing a thumbnail.
//! The steps are a state machine: the caller performs each action (file
//! system, processes) and reports the event that came of it.
use vstd::prelude::*;
use crate::paths::{
    joined, lemma_joined_plain, lemma_named_tail, lemma_plain_chars, path_join, plain_base, plain_name,
};
use crate::preview::{PPTX_LIMIT, PreviewPayload, PreviewView, too_large, too_large_reason};

verus! {

/// A converter's child process gets this long before it is killed.
pub const CONVERT_TIMEOUT_NANOS: u128 = 30_000_000_000;

/// Pause between two looks at a running child process.
pub const POLL_INTERVAL_MS: u64 = 100;

/// What a look at a running child process found.
#[derive(Debug, Clone, Copy, PartialEq, Eq, Structural)]
pub enum ChildPoll {
    Exited { success: bool },
    Running,
    Failed,
}

/// What to do after a look at the child process.
#[derive(Debug, Clone, Copy, PartialEq, Eq, Structural)]
pub enum WaitAction {
    /// The child has ended, successfully or not.
    Finished { success: bool },
    /// Look again after this many milliseconds.
    Sleep { ms: u64 },
    /// Kill the child and reap it: it ran too long or cannot be watched.
    KillAndGiveUp,
}

/// The decision after looking at the child once, `elapsed_nanos` after it
/// was started: an exit ends the wait; a running child is given until
/// `CONVERT_TIMEOUT_NANOS`; a failure to look gives up.
pub open spec fn wait_decision(poll: ChildPoll, elapsed_nanos: u128) -> WaitAction {
    match poll {
        ChildPoll::Exited { success } => WaitAction::Finished { success },
        ChildPoll::Running => if elapsed_nanos > CONVERT_TIMEOUT_NANOS {
            WaitAction::KillAndGiveUp
        } else {
            WaitAction::Sleep { ms: POLL_INTERVAL_MS }
        },
        ChildPoll::Failed => WaitAction::KillAndGiveUp,
    }
}

/// What to do after one look at the converter's child process.
pub fn wait_step(poll: ChildPoll, elapsed_nanos: u128) -> (r: WaitAction)
    ensures
        r == wait_decision(poll, elapsed_nanos),
{
    match poll {
        ChildPoll::Exited { success } => WaitAction::Finished { success },
        ChildPoll::Running => {
            if elapsed_nanos > CONVERT_TIMEOUT_NANOS {
                WaitAction::KillAndGiveUp
            } else {
                WaitAction::Sleep { ms: POLL_INTERVAL_MS }
            }
        },
        ChildPoll::Failed => WaitAction::KillAndGiveUp,
    }
}

/// The outside program that renders the preview.
#[derive(Debug, Clone, Copy, PartialEq, Eq, Structural)]
pub enum Converter {
    /// LibreOffice converting a presentation to PDF.
    LibreOffice,
    /// macOS Quick Look drawing a thumbnail of a document.
    QuickLook,
}

/// Why a conversion produced no preview.
pub enum Failure {
    TooLarge,
    NoTool,
    CacheDir(String),
    WorkDir(String),
    Spawn(String),
    ConvertFailed,
    NoOutput,
    SaveFailed(String),
}

/// A `Failure` with its texts read as character sequences.
pub enum FailureView {
    TooLarge,
    NoTool,
    CacheDir(Seq<char>),
    WorkDir(Seq<char>),
    Spawn(Seq<char>),
    ConvertFailed,
    NoOutput,
    SaveFailed(Seq<char>),
}

impl View for Failure {
    type V = FailureView;

    open spec fn view(&self) -> FailureView {
        match self {
            Failure::TooLarge => FailureView::TooLarge,
            Failure::NoTool => FailureView::NoTool,
            Failure::CacheDir(e) => FailureView::CacheDir(e@),
            Failure::WorkDir(e) => FailureView::WorkDir(e@),
            Failure::Spawn(e) => FailureView::Spawn(e@),
            Failure::ConvertFailed => FailureView::ConvertFailed,
            Failure::NoOutput => FailureView::NoOutput,
            Failure::SaveFailed(e) => FailureView::SaveFailed(e@),
        }
    }
}

/// How a conversion ended: the rendered file in the cache, or a failure.
pub enum Outcome {
    Rendered(String),
    Failed(Failure),
}

/// An `Outcome` with its texts read as character sequences.
pub enum OutcomeView {
    Rendered(Seq<char>),
    Failed(FailureView),
}

impl View for Outcome {
    type V = OutcomeView;

    open spec fn view(&self) -> OutcomeView {
        match self {
            Outcome::Rendered(p) => OutcomeView::Rendered(p@),
            Outcome::Failed(f) => OutcomeView::Failed(f@),
        }
    }
}

/// What the caller is to do next.
pub enum Action {
    /// Create the directory and its parents; report `Done` or `Failed`.
    CreateDirAll(String),
    /// Look for the converter program; report `Found`.
    FindTool,
    /// Report whether the path exists (`Exists`).
    CheckExists(String),
    /// Remove the directory and its contents; any report will do.
    RemoveDirAll(String),
    /// Start the program with the arguments; report `Done` or `Failed`.
    Spawn { program: String, args: Vec<String> },
    /// Wait for the started program (see `wait_step`); report `Exited`.
    Wait,
    /// List the directory; report `Listing`.
    ListDir(String),
    /// Rename a file; report `Done` or `Failed`.
    Rename { from: String, to: String },
    /// Copy a file; report `Done` or `Failed`.
    Copy { from: String, to: String },
    /// The conversion is over.
    Finish(Outcome),
}

/// An `Action` with its texts read as character sequences.
pub enum ActionView {
    CreateDirAll(Seq<char>),
    FindTool,
    CheckExists(Seq<char>),
    RemoveDirAll(Seq<char>),
    Spawn { program: Seq<char>, args: Seq<Seq<char>> },
    Wait,
    ListDir(Seq<char>),
    Rename { from: Seq<char>, to: Seq<char> },
    Copy { from: Seq<char>, to: Seq<char> },
    Finish(OutcomeView),
}

/// A list of strings read by their characters.
pub open spec fn strs(v: Seq<String>) -> Seq<Seq<char>> {
    v.map_values(|s: String| s@)
}

impl View for Action {
    type V = ActionView;

    open spec fn view(&self) -> ActionView {
        match self {
            Action::CreateDirAll(p) => ActionView::CreateDirAll(p@),
            Action::FindTool => ActionView::FindTool,
            Action::CheckExists(p) => ActionView::CheckExists(p@),
            Action::RemoveDirAll(p) => ActionView::RemoveDirAll(p@),
            Action::Spawn { program, args } => ActionView::Spawn { program: program@, args: strs(args@) },
            Action::Wait => ActionView::Wait,
            Action::ListDir(p) => ActionView::ListDir(p@),
            Action::Rename { from, to } => ActionView::Rename { from: from@, to: to@ },
            Action::Copy { from, to } => ActionView::Copy { from: from@, to: to@ },
            Action::Finish(o) => ActionView::Finish(o@),
        }
    }
}

/// What came of an action.
pub enum Event {
    Done,
    Failed(String),
    Found(Option<String>),
    Exists(bool),
    Exited { success: bool },
    /// The entries of a directory: each path with its extension.
    Listing(Vec<(String, Option<String>)>),
}

/// An entry of a listing read by its characters.
pub open spec fn entry_view(e: (String, Option<String>)) -> (Seq<char>, Option<Seq<char>>) {
    (e.0@, match e.1 {
        Some(x) => Some(x@),
        None => None,
    })
}

/// An `Event` with its texts read as character sequences.
pub enum EventView {
    Done,
    Failed(Seq<char>),
    Found(Option<Seq<char>>),
    Exists(bool),
    Exited { success: bool },
    Listing(Seq<(Seq<char>, Option<Seq<char>>)>),
}

impl View for Event {
    type V = EventView;

    open spec fn view(&self) -> EventView {
        match self {
            Event::Done => EventView::Done,
            Event::Failed(e) => EventView::Failed(e@),
            Event::Found(p) => EventView::Found(
                match p {
                    Some(x) => Some(x@),
                    None => None,
                },
            ),
            Event::Exists(b) => EventView::Exists(*b),
            Event::Exited { success } => EventView::Exited { success: *success },
            Event::Listing(v) => EventView::Listing(v@.map_values(|e: (String, Option<String>)| entry_view(e))),
        }
    }
}

/// Where a conversion stands.
#[derive(Debug, Clone, Copy, PartialEq, Eq, Structural)]
pub enum Stage {
    FindTool,
    CreateCache,
    CheckCached,
    ClearWork,
    CreateWork,
    Spawn,
    Wait,
    Locate { index: usize },
    ScanDir,
    Store,
    StoreCopy,
    Cleanup,
    Finished,
}

/// A conversion job read by its character sequences.
pub struct JobView {
    pub converter: Converter,
    pub source: Seq<char>,
    pub cache_dir: Seq<char>,
    pub cached: Seq<char>,
    pub work_dir: Seq<char>,
    pub program: Seq<char>,
    pub args: Seq<Seq<char>>,
    pub candidates: Seq<Seq<char>>,
    pub stage: Stage,
    pub produced: Seq<char>,
    pub rename_error: Seq<char>,
    pub pending: Option<OutcomeView>,
}

/// A preview being rendered by an outside program into the cache.
pub struct ConversionJob {
    converter: Converter,
    source: String,
    cache_dir: String,
    cached: String,
    work_dir: String,
    program: String,
    args: Vec<String>,
    candidates: Vec<String>,
    stage: Stage,
    produced: String,
    rename_error: String,
    pending: Option<Outcome>,
}

/// An optional outcome read by its view.
pub open spec fn opt_outcome(o: Option<Outcome>) -> Option<OutcomeView> {
    match o {
        Some(x) => Some(x@),
        None => None,
    }
}

impl View for ConversionJob {
    type V = JobView;

    closed spec fn view(&self) -> JobView {
        JobView {
            converter: self.converter,
            source: self.source@,
            cache_dir: self.cache_dir@,
            cached: self.cached@,
            work_dir: self.work_dir@,
            program: self.program@,
            args: strs(self.args@),
            candidates: strs(self.candidates@),
            stage: self.stage,
            produced: self.produced@,
            rename_error: self.rename_error@,
            pending: opt_outcome(self.pending),
        }
    }
}

/// A job is well formed: it has at least one place to look for the output
/// (and no more than a `usize` counts), looks only at places it has, knows
/// its outcome once it cleans up, and an outcome it holds as rendered is the
/// cached file.
pub open spec fn job_wf(j: JobView) -> bool {
    &&& 1 <= j.candidates.len() <= usize::MAX
    &&& (j.stage matches Stage::Locate { index } ==> index < j.candidates.len())
    &&& (j.stage == Stage::Cleanup ==> j.pending is Some)
    &&& (j.pending matches Some(OutcomeView::Rendered(p)) ==> p == j.cached)
}

/// The message of a failed action (empty for any other report).
pub open spec fn failure_text(e: EventView) -> Seq<char> {
    match e {
        EventView::Failed(m) => m,
        _ => Seq::empty(),
    }
}

/// The first entry at index `i` or later whose extension is `png`.
pub open spec fn first_png_from(entries: Seq<(Seq<char>, Option<Seq<char>>)>, i: int) -> Option<
    Seq<char>,
>
    decreases entries.len() - i,
{
    if i < 0 || i >= entries.len() {
        None
    } else if entries[i].1 == Some("png"@) {
        Some(entries[i].0)
    } else {
        first_png_from(entries, i + 1)
    }
}

/// Go to clean-up: remove the work directory, then end with `o`.
pub open spec fn to_cleanup(j: JobView, o: OutcomeView) -> (JobView, ActionView) {
    (JobView { stage: Stage::Cleanup, pending: Some(o), ..j }, ActionView::RemoveDirAll(j.work_dir))
}

/// End with `o` at once.
pub open spec fn to_finish(j: JobView, o: OutcomeView) -> (JobView, ActionView) {
    (JobView { stage: Stage::Finished, pending: None, ..j }, ActionView::Finish(o))
}

/// Start storing the output found at `produced` in the cache.
pub open spec fn to_store(j: JobView, produced: Seq<char>) -> (JobView, ActionView) {
    (
        JobView { stage: Stage::Store, produced, ..j },
        ActionView::Rename { from: produced, to: j.cached },
    )
}

/// One step of a conversion: the job's next state and action after event `e`.
///
/// LibreOffice: create the cache directory, find the program, reuse a
/// cached PDF, else convert in a fresh work directory, take `<stem>.pdf`,
/// and move (or copy) it into the cache. Quick Look: find `qlmanage`,
/// create the cache directory, reuse a cached PNG, else draw in a fresh work
/// directory, take `<name>.png`, `<stem>.png` or any PNG, and move (or copy)
/// it into the cache. Once the work directory may hold output, every end
/// passes through removing it.
pub open spec fn job_step(j: JobView, e: EventView) -> (JobView, ActionView) {
    let lo = j.converter == Converter::LibreOffice;
    match j.stage {
        Stage::FindTool => match e {
            EventView::Found(Some(p)) => if lo {
                (
                    JobView { stage: Stage::CheckCached, program: p, ..j },
                    ActionView::CheckExists(j.cached),
                )
            } else {
                (
                    JobView { stage: Stage::CreateCache, program: p, ..j },
                    ActionView::CreateDirAll(j.cache_dir),
                )
            },
            _ => to_finish(j, OutcomeView::Failed(FailureView::NoTool)),
        },
        Stage::CreateCache => if e is Done {
            if lo {
                (JobView { stage: Stage::FindTool, ..j }, ActionView::FindTool)
            } else {
                (JobView { stage: Stage::CheckCached, ..j }, ActionView::CheckExists(j.cached))
            }
        } else {
            to_finish(j, OutcomeView::Failed(FailureView::CacheDir(failure_text(e))))
        },
        Stage::CheckCached => if e == EventView::Exists(true) {
            to_finish(j, OutcomeView::Rendered(j.cached))
        } else {
            (JobView { stage: Stage::ClearWork, ..j }, ActionView::RemoveDirAll(j.work_dir))
        },
        Stage::ClearWork => (
            JobView { stage: Stage::CreateWork, ..j },
            ActionView::CreateDirAll(j.work_dir),
        ),
        Stage::CreateWork => if e is Done {
            (
                JobView { stage: Stage::Spawn, ..j },
                ActionView::Spawn { program: j.program, args: j.args },
            )
        } else {
            to_finish(j, OutcomeView::Failed(FailureView::WorkDir(failure_text(e))))
        },
        Stage::Spawn => if e is Done {
            (JobView { stage: Stage::Wait, ..j }, ActionView::Wait)
        } else if lo {
            to_finish(j, OutcomeView::Failed(FailureView::Spawn(failure_text(e))))
        } else {
            to_cleanup(j, OutcomeView::Failed(FailureView::Spawn(failure_text(e))))
        },
        Stage::Wait => if e == (EventView::Exited { success: true }) {
            (
                JobView { stage: Stage::Locate { index: 0 }, ..j },
                ActionView::CheckExists(j.candidates[0]),
            )
        } else {
            to_cleanup(j, OutcomeView::Failed(FailureView::ConvertFailed))
        },
        Stage::Locate { index } => if e == EventView::Exists(true) {
            to_store(j, j.candidates[index as int])
        } else if index + 1 < j.candidates.len() {
            (
                JobView { stage: Stage::Locate { index: (index + 1) as usize }, ..j },
                ActionView::CheckExists(j.candidates[index + 1]),
            )
        } else if lo {
            to_cleanup(j, OutcomeView::Failed(FailureView::NoOutput))
        } else {
            (JobView { stage: Stage::ScanDir, ..j }, ActionView::ListDir(j.work_dir))
        },
        Stage::ScanDir => match e {
            EventView::Listing(entries) => match first_png_from(entries, 0) {
                Some(p) => to_store(j, p),
                None => to_cleanup(j, OutcomeView::Failed(FailureView::NoOutput)),
            },
            _ => to_cleanup(j, OutcomeView::Failed(FailureView::NoOutput)),
        },
        Stage::Store => if e is Done {
            to_cleanup(j, OutcomeView::Rendered(j.cached))
        } else {
            (
                JobView { stage: Stage::StoreCopy, rename_error: failure_text(e), ..j },
                ActionView::Copy { from: j.produced, to: j.cached },
            )
        },
        Stage::StoreCopy => if e is Done {
            to_cleanup(j, OutcomeView::Rendered(j.cached))
        } else {
            to_cleanup(j, OutcomeView::Failed(FailureView::SaveFailed(j.rename_error)))
        },
        Stage::Cleanup => to_finish(j, j.pending->Some_0),
        Stage::Finished => (j, ActionView::Finish(OutcomeView::Failed(FailureView::ConvertFailed))),
    }
}

/// Once the converter may have written into the work directory, no step
/// ends the job without first removing that directory: the stages from the
/// wait on never finish directly, and every step into clean-up asks to
/// remove the work directory.
pub proof fn law_work_dir_removed_before_finish(j: JobView, e: EventView)
    requires
        job_wf(j),
    ensures
        (j.stage == Stage::Wait || j.stage is Locate || j.stage == Stage::ScanDir || j.stage
            == Stage::Store || j.stage == Stage::StoreCopy) ==> !(job_step(j, e).1 is Finish),
        job_step(j, e).0.stage == Stage::Cleanup ==> job_step(j, e).1 == ActionView::RemoveDirAll(
            j.work_dir,
        ),
{
}

/// A preview already in the cache is used as it is: no program runs.
pub proof fn law_cached_preview_reused(j: JobView)
    requires
        j.stage == Stage::CheckCached,
    ensures
        job_step(j, EventView::Exists(true)).1 == ActionView::Finish(OutcomeView::Rendered(j.cached)),
{
}

/// A conversion that ends rendered names the cached file, never the output
/// it was made from: no step changes which file is cached, no step finishes
/// rendered with another file, and no step holds another file as rendered.
pub proof fn law_rendered_is_the_cached_file(j: JobView, e: EventView)
    requires
        job_wf(j),
    ensures
        job_step(j, e).0.cached == j.cached,
        job_step(j, e).1 matches ActionView::Finish(OutcomeView::Rendered(p)) ==> p == j.cached,
        job_step(j, e).0.pending matches Some(OutcomeView::Rendered(p)) ==> p == j.cached,
{
}

/// How many steps a job has left at most: the stages count down towards
/// `Finished` (0), the places still to look at counting too.
pub open spec fn steps_left(j: JobView) -> nat {
    let lo = j.converter == Converter::LibreOffice;
    let n = j.candidates.len();
    match j.stage {
        Stage::Finished => 0,
        Stage::Cleanup => 1,
        Stage::StoreCopy => 2,
        Stage::Store => 3,
        Stage::ScanDir => 4,
        Stage::Locate { index } => (5 + n - index) as nat,
        Stage::Wait => 6 + n,
        Stage::Spawn => 7 + n,
        Stage::CreateWork => 8 + n,
        Stage::ClearWork => 9 + n,
        Stage::CheckCached => 10 + n,
        Stage::FindTool => if lo {
            11 + n
        } else {
            12 + n
        },
        Stage::CreateCache => if lo {
            12 + n
        } else {
            11 + n
        },
    }
}

/// Every conversion ends, whatever the reports: each step keeps the job
/// well formed and its converter and places to look at, and brings it
/// strictly closer to `Finished`, which it reaches exactly when the count
/// of steps left is zero.
pub proof fn law_conversion_ends(j: JobView, e: EventView)
    requires
        job_wf(j),
        j.stage != Stage::Finished,
    ensures
        job_wf(job_step(j, e).0),
        job_step(j, e).0.converter == j.converter,
        job_step(j, e).0.candidates == j.candidates,
        steps_left(job_step(j, e).0) < steps_left(j),
        steps_left(job_step(j, e).0) == 0 <==> job_step(j, e).0.stage == Stage::Finished,
{
}

fn failure_message(e: &Event) -> (r: String)
    ensures
        r@ == failure_text(e@),
{
    match e {
        Event::Failed(m) => String::from_str(m.as_str()),
        _ => String::new(),
    }
}

fn copy_str(s: &String) -> (r: String)
    ensures
        r@ == s@,
{
    String::from_str(s.as_str())
}

fn copy_outcome(o: &Outcome) -> (r: Outcome)
    ensures
        r@ == o@,
{
    match o {
        Outcome::Rendered(p) => Outcome::Rendered(copy_str(p)),
        Outcome::Failed(f) => Outcome::Failed(
            match f {
                Failure::TooLarge => Failure::TooLarge,
                Failure::NoTool => Failure::NoTool,
                Failure::CacheDir(e) => Failure::CacheDir(copy_str(e)),
                Failure::WorkDir(e) => Failure::WorkDir(copy_str(e)),
                Failure::Spawn(e) => Failure::Spawn(copy_str(e)),
                Failure::ConvertFailed => Failure::ConvertFailed,
                Failure::NoOutput => Failure::NoOutput,
                Failure::SaveFailed(e) => Failure::SaveFailed(copy_str(e)),
            },
        ),
    }
}

fn copy_strs(v: &Vec<String>) -> (r: Vec<String>)
    ensures
        strs(r@) == strs(v@),
{
    let mut out: Vec<String> = Vec::new();
    let mut i: usize = 0;
    while i < v.len()
        invariant
            i <= v.len(),
            out@.len() == i,
            strs(out@) == strs(v@).take(i as int),
        decreases v.len() - i,
    {
        out.push(copy_str(&v[i]));
        i = i + 1;
        assert(strs(out@) =~= strs(v@).take(i as int));
    }
    assert(strs(v@).take(i as int) =~= strs(v@));
    out
}

fn first_png(entries: &Vec<(String, Option<String>)>) -> (r: Option<String>)
    ensures
        crate::text::opt_chars(r) == first_png_from(entries@.map_values(|e: (String, Option<String>)| entry_view(e)), 0),
{
    let ghost ev = entries@.map_values(|e: (String, Option<String>)| entry_view(e));
    let mut i: usize = 0;
    while i < entries.len()
        invariant
            i <= entries.len(),
            ev == entries@.map_values(|e: (String, Option<String>)| entry_view(e)),
            first_png_from(ev, 0) == first_png_from(ev, i as int),
        decreases entries.len() - i,
    {
        assert(ev[i as int] == entry_view(entries@[i as int]));
        let is_png = match &entries[i].1 {
            Some(x) => crate::text::str_eq(x.as_str(), "png"),
            None => false,
        };
        if is_png {
            return Some(copy_str(&entries[i].0));
        }
        i = i + 1;
    }
    None
}

/// A string made of `a` and `b`.
fn join2(a: &str, b: &str) -> (r: String)
    ensures
        r@ == a@ + b@,
{
    String::from_str(a).concat(b)
}

impl ConversionJob {
    /// The job is well formed (see `job_wf`).
    #[verifier::type_invariant]
    spec fn well_formed(self) -> bool {
        job_wf(self@)
    }

    /// A LibreOffice conversion of the presentation at `source` (file stem
    /// `stem`, `size` bytes) into `cache_dir` under `key`, with its first
    /// action: refused above `PPTX_LIMIT`, else creating the cache directory.
    ///
    /// The cached PDF is `<key>.pdf` and the work directory `<key>.work`
    /// in `cache_dir`; the output looked for is `<stem>.pdf` in the work
    /// directory; the program gets a profile inside the work directory and
    /// `--headless --norestore --nofirststartwizard --convert-to pdf
    /// --outdir <work> <source>`. The paths are joined with `std::path`:
    /// they are stated (see `joined`) where `cache_dir` has no drive or
    /// network prefix and `key` and `stem` are plain names.
    pub fn libre_office(source: &str, stem: &str, cache_dir: &str, key: &str, size: u64) -> (r: (
        ConversionJob,
        Action,
    ))
        ensures
            r.0@.converter == Converter::LibreOffice,
            r.0@.source == source@,
            r.0@.cache_dir == cache_dir@,
            r.0@.pending is None,
            r.0@.args.len() == 9,
            starts_with_env(r.0@.args[0]),
            r.0@.args.subrange(1, 9) == seq![
                "--headless"@,
                "--norestore"@,
                "--nofirststartwizard"@,
                "--convert-to"@,
                "pdf"@,
                "--outdir"@,
                r.0@.work_dir,
                source@,
            ],
            size > PPTX_LIMIT ==> r.0@.stage == Stage::Finished && r.1@ == ActionView::Finish(
                OutcomeView::Failed(FailureView::TooLarge),
            ),
            size <= PPTX_LIMIT ==> r.0@.stage == Stage::CreateCache && r.1@
                == ActionView::CreateDirAll(cache_dir@),
            r.0@.candidates.len() == 1,
            plain_base(cache_dir@) && plain_name(key@) ==> joined(
                cache_dir@,
                key@ + ".pdf"@,
                r.0@.cached,
            ) && joined(cache_dir@, key@ + ".work"@, r.0@.work_dir) && (exists|profile: Seq<char>|
                #[trigger] joined(r.0@.work_dir, "profile"@, profile) && r.0@.args[0]
                    == "-env:UserInstallation=file://"@ + profile),
            plain_base(cache_dir@) && plain_name(key@) && plain_name(stem@) ==> joined(
                r.0@.work_dir,
                stem@ + ".pdf"@,
                r.0@.candidates[0],
            ),
    {
        proof {
            reveal_strlit(".pdf");
            reveal_strlit(".work");
            reveal_strlit("profile");
            lemma_plain_chars(".pdf"@);
            lemma_plain_chars(".work"@);
            lemma_plain_chars("profile"@);
            lemma_plain_chars(seq![]);
            if plain_name(key@) {
                lemma_named_tail(key@, ".pdf"@);
                lemma_named_tail(key@, ".work"@);
            }
            if plain_name(stem@) {
                lemma_named_tail(stem@, ".pdf"@);
            }
            lemma_named_tail(seq![], "profile"@);
            assert(seq![] + "profile"@ =~= "profile"@);
        }
        let cached = path_join(cache_dir, join2(key, ".pdf").as_str());
        let work_dir = path_join(cache_dir, join2(key, ".work").as_str());
        proof {
            if plain_base(cache_dir@) && plain_name(key@) {
                lemma_joined_plain(cache_dir@, key@ + ".work"@, work_dir@);
            }
        }
        let profile = path_join(work_dir.as_str(), "profile");
        let mut args: Vec<String> = Vec::new();
        args.push(join2("-env:UserInstallation=file://", profile.as_str()));
        args.push(String::from_str("--headless"));
        args.push(String::from_str("--norestore"));
        args.push(String::from_str("--nofirststartwizard"));
        args.push(String::from_str("--convert-to"));
        args.push(String::from_str("pdf"));
        args.push(String::from_str("--outdir"));
        args.push(copy_str(&work_dir));
        args.push(String::from_str(source));
        let mut candidates: Vec<String> = Vec::new();
        candidates.push(path_join(work_dir.as_str(), join2(stem, ".pdf").as_str()));
        let too_big = size > PPTX_LIMIT;
        let job = ConversionJob {
            converter: Converter::LibreOffice,
            source: String::from_str(source),
            cache_dir: String::from_str(cache_dir),
            cached,
            work_dir,
            program: String::new(),
            args,
            candidates,
            stage: if too_big {
                Stage::Finished
            } else {
                Stage::CreateCache
            },
            produced: String::new(),
            rename_error: String::new(),
            pending: None,
        };
        proof {
            let env = "-env:UserInstallation=file://"@;
            assert((env + profile@).subrange(0, env.len() as int) =~= env);
            assert(strs(job.args@).subrange(1, 9) =~= seq![
                "--headless"@,
                "--norestore"@,
                "--nofirststartwizard"@,
                "--convert-to"@,
                "pdf"@,
                "--outdir"@,
                job@.work_dir,
                source@,
            ]);
        }
        if too_big {
            (job, Action::Finish(Outcome::Failed(Failure::TooLarge)))
        } else {
            (job, Action::CreateDirAll(String::from_str(cache_dir)))
        }
    }

    /// A Quick Look thumbnail of the document at `source` (file name
    /// `file_name`, stem `stem`) into `cache_dir` under `key`, with its first
    /// action: looking for `qlmanage`.
    ///
    /// The cached image is `<key>.png` and the work directory `<key>.qlwork`
    /// in `cache_dir`; the outputs looked for are `<file_name>.png` and then
    /// `<stem>.png` in the work directory; the program gets
    /// `-t -s 1600 -o <work> <source>`. The paths are joined with
    /// `std::path`: they are stated (see `joined`) where `cache_dir` has no
    /// drive or network prefix and `key`, `file_name` and `stem` are plain
    /// names.
    pub fn quick_look(source: &str, file_name: &str, stem: &str, cache_dir: &str, key: &str) -> (r: (
        ConversionJob,
        Action,
    ))
        ensures
            r.0@.converter == Converter::QuickLook,
            r.0@.source == source@,
            r.0@.cache_dir == cache_dir@,
            r.0@.pending is None,
            r.0@.candidates.len() == 2,
            r.0@.args == seq!["-t"@, "-s"@, "1600"@, "-o"@, r.0@.work_dir, source@],
            r.0@.stage == Stage::FindTool,
            r.1@ == ActionView::FindTool,
            plain_base(cache_dir@) && plain_name(key@) ==> joined(cache_dir@, key@ + ".png"@, r.0@.cached)
                && joined(cache_dir@, key@ + ".qlwork"@, r.0@.work_dir),
            plain_base(cache_dir@) && plain_name(key@) && plain_name(file_name@) ==> joined(
                r.0@.work_dir,
                file_name@ + ".png"@,
                r.0@.candidates[0],
            ),
            plain_base(cache_dir@) && plain_name(key@) && plain_name(stem@) ==> joined(
                r.0@.work_dir,
                stem@ + ".png"@,
                r.0@.candidates[1],
            ),
    {
        proof {
            reveal_strlit(".png");
            reveal_strlit(".qlwork");
            lemma_plain_chars(".png"@);
            lemma_plain_chars(".qlwork"@);
            if plain_name(key@) {
                lemma_named_tail(key@, ".png"@);
                lemma_named_tail(key@, ".qlwork"@);
            }
            if plain_name(file_name@) {
                lemma_named_tail(file_name@, ".png"@);
            }
            if plain_name(stem@) {
                lemma_named_tail(stem@, ".png"@);
            }
        }
        let cached = path_join(cache_dir, join2(key, ".png").as_str());
        let work_dir = path_join(cache_dir, join2(key, ".qlwork").as_str());
        proof {
            if plain_base(cache_dir@) && plain_name(key@) {
                lemma_joined_plain(cache_dir@, key@ + ".qlwork"@, work_dir@);
            }
        }
        let mut args: Vec<String> = Vec::new();
        args.push(String::from_str("-t"));
        args.push(String::from_str("-s"));
        args.push(String::from_str("1600"));
        args.push(String::from_str("-o"));
        args.push(copy_str(&work_dir));
        args.push(String::from_str(source));
        let mut candidates: Vec<String> = Vec::new();
        candidates.push(path_join(work_dir.as_str(), join2(file_name, ".png").as_str()));
        candidates.push(path_join(work_dir.as_str(), join2(stem, ".png").as_str()));
        let job = ConversionJob {
            converter: Converter::QuickLook,
            source: String::from_str(source),
            cache_dir: String::from_str(cache_dir),
            cached,
            work_dir,
            program: String::new(),
            args,
            candidates,
            stage: Stage::FindTool,
            produced: String::new(),
            rename_error: String::new(),
            pending: None,
        };
        assert(strs(job.args@) =~= seq!["-t"@, "-s"@, "1600"@, "-o"@, job@.work_dir, source@]);
        (job, Action::FindTool)
    }

    fn cleanup(&mut self, o: Outcome) -> (r: Action)
        requires
            o@ matches OutcomeView::Rendered(p) ==> p == old(self)@.cached,
        ensures
            (final(self)@, r@) == to_cleanup(old(self)@, o@),
    {
        proof {
            use_type_invariant(&*self);
        }
        self.pending = Some(o);
        self.stage = Stage::Cleanup;
        Action::RemoveDirAll(copy_str(&self.work_dir))
    }

    fn finish(&mut self, o: Outcome) -> (r: Action)
        ensures
            (final(self)@, r@) == to_finish(old(self)@, o@),
    {
        proof {
            use_type_invariant(&*self);
        }
        self.stage = Stage::Finished;
        self.pending = None;
        Action::Finish(o)
    }

    fn store(&mut self, produced: String) -> (r: Action)
        ensures
            (final(self)@, r@) == to_store(old(self)@, produced@),
    {
        proof {
            use_type_invariant(&*self);
        }
        self.stage = Stage::Store;
        let from = copy_str(&produced);
        self.produced = produced;
        Action::Rename { from, to: copy_str(&self.cached) }
    }

    /// The next action after `event` came of the last one (see `job_step`).
    pub fn advance(&mut self, event: Event) -> (r: Action)
        ensures
            (final(self)@, r@) == job_step(old(self)@, event@),
    {
        proof {
            use_type_invariant(&*self);
        }
        let lo = self.converter == Converter::LibreOffice;
        match self.stage {
            Stage::FindTool => match event {
                Event::Found(Some(p)) => {
                    self.program = p;
                    if lo {
                        self.stage = Stage::CheckCached;
                        Action::CheckExists(copy_str(&self.cached))
                    } else {
                        self.stage = Stage::CreateCache;
                        Action::CreateDirAll(copy_str(&self.cache_dir))
                    }
                },
                _ => self.finish(Outcome::Failed(Failure::NoTool)),
            },
            Stage::CreateCache => {
                if let Event::Done = event {
                    if lo {
                        self.stage = Stage::FindTool;
                        Action::FindTool
                    } else {
                        self.stage = Stage::CheckCached;
                        Action::CheckExists(copy_str(&self.cached))
                    }
                } else {
                    let m = failure_message(&event);
                    self.finish(Outcome::Failed(Failure::CacheDir(m)))
                }
            },
            Stage::CheckCached => {
                if let Event::Exists(true) = event {
                    let c = copy_str(&self.cached);
                    self.finish(Outcome::Rendered(c))
                } else {
                    self.stage = Stage::ClearWork;
                    Action::RemoveDirAll(copy_str(&self.work_dir))
                }
            },
            Stage::ClearWork => {
                self.stage = Stage::CreateWork;
                Action::CreateDirAll(copy_str(&self.work_dir))
            },
            Stage::CreateWork => {
                if let Event::Done = event {
                    self.stage = Stage::Spawn;
                    Action::Spawn { program: copy_str(&self.program), args: copy_strs(&self.args) }
                } else {
                    let m = failure_message(&event);
                    self.finish(Outcome::Failed(Failure::WorkDir(m)))
                }
            },
            Stage::Spawn => {
                if let Event::Done = event {
                    self.stage = Stage::Wait;
                    Action::Wait
                } else {
                    let m = failure_message(&event);
                    if lo {
                        self.finish(Outcome::Failed(Failure::Spawn(m)))
                    } else {
                        self.cleanup(Outcome::Failed(Failure::Spawn(m)))
                    }
                }
            },
            Stage::Wait => {
                if let Event::Exited { success: true } = event {
                    self.stage = Stage::Locate { index: 0 };
                    Action::CheckExists(copy_str(&self.candidates[0]))
                } else {
                    self.cleanup(Outcome::Failed(Failure::ConvertFailed))
                }
            },
            Stage::Locate { index } => {
                if let Event::Exists(true) = event {
                    let p = copy_str(&self.candidates[index]);
                    self.store(p)
                } else if index < self.candidates.len() - 1 {
                    self.stage = Stage::Locate { index: index + 1 };
                    Action::CheckExists(copy_str(&self.candidates[index + 1]))
                } else if lo {
                    self.cleanup(Outcome::Failed(Failure::NoOutput))
                } else {
                    self.stage = Stage::ScanDir;
                    Action::ListDir(copy_str(&self.work_dir))
                }
            },
            Stage::ScanDir => match event {
                Event::Listing(entries) => match first_png(&entries) {
                    Some(p) => self.store(p),
                    None => self.cleanup(Outcome::Failed(Failure::NoOutput)),
                },
                _ => self.cleanup(Outcome::Failed(Failure::NoOutput)),
            },
            Stage::Store => {
                if let Event::Done = event {
                    let c = copy_str(&self.cached);
                    self.cleanup(Outcome::Rendered(c))
                } else {
                    self.rename_error = failure_message(&event);
                    self.stage = Stage::StoreCopy;
                    Action::Copy { from: copy_str(&self.produced), to: copy_str(&self.cached) }
                }
            },
            Stage::StoreCopy => {
                if let Event::Done = event {
                    let c = copy_str(&self.cached);
                    self.cleanup(Outcome::Rendered(c))
                } else {
                    let m = copy_str(&self.rename_error);
                    self.cleanup(Outcome::Failed(Failure::SaveFailed(m)))
                }
            },
            Stage::Cleanup => {
                self.stage = Stage::Finished;
                let o = match &self.pending {
                    Some(o) => copy_outcome(o),
                    None => Outcome::Failed(Failure::ConvertFailed),
                };
                self.pending = None;
                Action::Finish(o)
            },
            Stage::Finished => Action::Finish(Outcome::Failed(Failure::ConvertFailed)),
        }
    }
}

/// The argument that gives LibreOffice its own profile directory.
pub open spec fn starts_with_env(a: Seq<char>) -> bool {
    crate::text::starts_with_seq(a, "-env:UserInstallation=file://"@)
}

/// The presentation preview that a LibreOffice conversion ends in.
pub open spec fn pptx_view(o: OutcomeView, size: u64) -> PreviewView {
    match o {
        OutcomeView::Rendered(p) => PreviewView::Pptx { pdf_path: p, size },
        OutcomeView::Failed(f) => PreviewView::Unsupported {
            reason: match f {
                FailureView::TooLarge => too_large_reason(size),
                FailureView::NoTool => "需要安装 LibreOffice 才能预览 .pptx 文件"@,
                FailureView::CacheDir(e) => "无法创建缓存目录："@ + e,
                FailureView::WorkDir(e) => "无法创建工作目录："@ + e,
                FailureView::Spawn(e) => "启动 LibreOffice 失败："@ + e,
                FailureView::ConvertFailed => "LibreOffice 转换失败或超时"@,
                FailureView::NoOutput => "LibreOffice 未生成 PDF 输出"@,
                FailureView::SaveFailed(e) => "无法保存转换结果："@ + e,
            },
            size,
        },
    }
}

/// The preview of a presentation of `size` bytes from how its conversion ended.
pub fn pptx_payload(o: Outcome, size: u64) -> (r: PreviewPayload)
    ensures
        r@ == pptx_view(o@, size),
{
    match o {
        Outcome::Rendered(p) => PreviewPayload::Pptx { pdf_path: p, size },
        Outcome::Failed(f) => match f {
            Failure::TooLarge => too_large(size, PPTX_LIMIT, "PPTX"),
            Failure::NoTool => PreviewPayload::Unsupported {
                reason: String::from_str("需要安装 LibreOffice 才能预览 .pptx 文件"),
                size,
            },
            Failure::CacheDir(e) => PreviewPayload::Unsupported {
                reason: join2("无法创建缓存目录：", e.as_str()),
                size,
            },
            Failure::WorkDir(e) => PreviewPayload::Unsupported {
                reason: join2("无法创建工作目录：", e.as_str()),
                size,
            },
            Failure::Spawn(e) => PreviewPayload::Unsupported {
                reason: join2("启动 LibreOffice 失败：", e.as_str()),
                size,
            },
            Failure::ConvertFailed => PreviewPayload::Unsupported {
                reason: String::from_str("LibreOffice 转换失败或超时"),
                size,
            },
            Failure::NoOutput => PreviewPayload::Unsupported {
                reason: String::from_str("LibreOffice 未生成 PDF 输出"),
                size,
            },
            Failure::SaveFailed(e) => PreviewPayload::Unsupported {
                reason: join2("无法保存转换结果：", e.as_str()),
                size,
            },
        },
    }
}

/// The preview that a Quick Look thumbnail ends in: the image, or nothing
/// (the document's own preview is used instead).
pub open spec fn quick_look_view(o: OutcomeView, size: u64) -> Option<PreviewView> {
    match o {
        OutcomeView::Rendered(p) => Some(
            PreviewView::OfficeImage { image_path: p, size, engine: "macOS Quick Look"@ },
        ),
        OutcomeView::Failed(_) => None,
    }
}

/// The preview of a document of `size` bytes from how its Quick Look
/// thumbnail ended.
pub fn quick_look_payload(o: Outcome, size: u64) -> (r: Option<PreviewPayload>)
    ensures
        match r {
            Some(p) => quick_look_view(o@, size) == Some(p@),
            None => quick_look_view(o@, size) is None,
        },
{
    match o {
        Outcome::Rendered(p) => Some(
            PreviewPayload::OfficeImage {
                image_path: p,
                size,
                engine: String::from_str("macOS Quick Look"),
            },
        ),
        Outcome::Failed(_) => None,
    }
}

} // verus!
