//! The export sheet: the form, the running render, and the result.

use crate::ids::{fresh_id, is_uuid};
use crate::paths::{file_stem, join_path, joined_path, parent, parent_of, stem_of};
use crate::text::{
    cat, cat3, chars_of, control, decimal, is_control, opt, same, to_decimal, to_two_digits, trim,
    trim_end_matches, trim_end_of, trimmed, two_digits,
};
use std::collections::HashSet;
use vstd::prelude::*;
use vstd::string::*;

verus! {

/// Where a render is.
#[derive(Clone, Copy, PartialEq, Eq, Structural)]
pub enum ExportPhase {
    Idle,
    Running,
    Done,
    Failed,
}

/// A part of a whole.
#[derive(Clone, Copy, PartialEq, Eq, Structural)]
pub struct Fraction {
    pub done: u64,
    pub total: u64,
}

/// A fraction held between nothing and the whole; nothing of nothing is
/// nothing.
pub open spec fn held(f: Fraction) -> Fraction {
    if f.total == 0 {
        Fraction { done: 0, total: 1 }
    } else if f.done > f.total {
        Fraction { done: f.total, total: f.total }
    } else {
        f
    }
}

fn hold(f: Fraction) -> (r: Fraction)
    ensures
        r == held(f),
{
    if f.total == 0 {
        Fraction { done: 0, total: 1 }
    } else if f.done > f.total {
        Fraction { done: f.total, total: f.total }
    } else {
        f
    }
}

/// A render that runs.
pub struct ActiveExport {
    pub id: u64,
    pub to_library: bool,
    pub name: String,
    pub output: String,
}

pub struct ActiveView {
    pub id: u64,
    pub to_library: bool,
    pub name: Seq<char>,
    pub output: Seq<char>,
}

impl View for ActiveExport {
    type V = ActiveView;

    open spec fn view(&self) -> ActiveView {
        ActiveView {
            id: self.id,
            to_library: self.to_library,
            name: self.name@,
            output: self.output@,
        }
    }
}

pub open spec fn opt_active(job: Option<ActiveExport>) -> Option<ActiveView> {
    match job {
        Some(j) => Some(j@),
        None => None,
    }
}

/// Everything that can happen to the export sheet.
pub enum ExportMsg {
    ChooseDestination(bool),
    /// The folder of the destination is there; the flag says whether it is the
    /// one of the library.
    DestinationReady(String, bool),
    /// The folder of the library could not be found.
    LibraryMissing(String),
    /// The folder of the destination could not be made.
    FolderRefused(String),
    /// The sheet is dismissed.
    Close,
    NameEdited(String),
    ResolutionChanged(i32),
    RateChanged(i32),
    QualityChanged(i32),
    CodecChanged(i32),
    TenBitChanged(bool),
    /// Back to the form after a finished or failed render.
    Again,
    /// Pick the destination folder.
    Browse,
    /// A destination folder was picked.
    FolderPicked(String),
    /// Show the finished file in the file manager.
    Reveal,
    RevealFailed(String),
    /// A render is wanted.
    Start,
    /// The name of the output is settled, or why it cannot be; the flag says
    /// whether it is another than the one that was asked for.
    OutputSettled(Result<(String, bool), String>),
    /// The renderer is taken for this output, or why it is not.
    Begun(String, bool, Result<(), String>),
    Cancel,
    /// The worker of a render reports where it is and what it is doing.
    Progress(u64, Fraction, String),
    /// The worker of a render is done: the file written, or why not.
    Finished(u64, Result<String, String>),
    /// The finished file was taken into the library, or why not.
    Registered(Result<(), String>),
}

/// What the sheet asks the program around it to do.
pub enum ExportStep {
    /// Something is told; the flag marks an error.
    Notify(String, bool),
    /// The folder of the destination is found, or picked, and made.
    FindDestination(bool),
    PickFolder,
    Reveal(String),
    /// A name for the output is settled that no file has.
    SettleOutput(String),
    /// The renderer is taken.
    Begin(String, bool),
    Pause,
    /// The render of this number starts.
    Render(u64, String),
    CancelRender,
    /// The finished file is taken into the library under a name.
    Register(String, String),
    RefreshLibrary,
}

pub enum ExportStepView {
    Notify(Seq<char>, bool),
    FindDestination(bool),
    PickFolder,
    Reveal(Seq<char>),
    SettleOutput(Seq<char>),
    Begin(Seq<char>, bool),
    Pause,
    Render(u64, Seq<char>),
    CancelRender,
    Register(Seq<char>, Seq<char>),
    RefreshLibrary,
}

impl View for ExportStep {
    type V = ExportStepView;

    open spec fn view(&self) -> ExportStepView {
        match *self {
            ExportStep::Notify(a, b) => ExportStepView::Notify(a@, b),
            ExportStep::FindDestination(b) => ExportStepView::FindDestination(b),
            ExportStep::PickFolder => ExportStepView::PickFolder,
            ExportStep::Reveal(a) => ExportStepView::Reveal(a@),
            ExportStep::SettleOutput(a) => ExportStepView::SettleOutput(a@),
            ExportStep::Begin(a, b) => ExportStepView::Begin(a@, b),
            ExportStep::Pause => ExportStepView::Pause,
            ExportStep::Render(n, a) => ExportStepView::Render(n, a@),
            ExportStep::CancelRender => ExportStepView::CancelRender,
            ExportStep::Register(a, b) => ExportStepView::Register(a@, b@),
            ExportStep::RefreshLibrary => ExportStepView::RefreshLibrary,
        }
    }
}

pub open spec fn export_steps(v: Seq<ExportStep>) -> Seq<ExportStepView> {
    Seq::new(v.len(), |i: int| v[i]@)
}

fn nothing() -> (r: Vec<ExportStep>)
    ensures
        export_steps(r@) == Seq::<ExportStepView>::empty(),
{
    let r: Vec<ExportStep> = Vec::new();
    proof {
        assert(export_steps(r@) =~= Seq::empty());
    }
    r
}

fn only(step: ExportStep) -> (r: Vec<ExportStep>)
    ensures
        export_steps(r@) == seq![step@],
{
    let ghost view = step@;
    let mut r: Vec<ExportStep> = Vec::new();
    r.push(step);
    proof {
        assert(export_steps(r@) =~= seq![view]);
    }
    r
}

fn and_do(steps: &mut Vec<ExportStep>, step: ExportStep)
    ensures
        export_steps(final(steps)@) == export_steps(old(steps)@).push(step@),
{
    let ghost before = steps@;
    let ghost view = step@;
    steps.push(step);
    proof {
        assert(export_steps(steps@) =~= export_steps(before).push(view));
    }
}

/// The state of the export sheet.
pub struct ExportPane {
    pub open: bool,
    pub name: String,
    pub folder: String,
    pub resolution: usize,
    pub rate: usize,
    pub quality: usize,
    pub codec: usize,
    pub ten_bit: bool,
    pub phase: ExportPhase,
    pub progress: Fraction,
    pub stage: String,
    pub message: String,
    /// Where the finished file is.
    pub written: String,
    pub to_library: bool,
    pub library_output: Option<String>,
    pub next_job_id: u64,
    pub active_job: Option<ActiveExport>,
    pub cancelled_jobs: HashSet<u64>,
}

pub struct ExportPaneView {
    pub open: bool,
    pub name: Seq<char>,
    pub folder: Seq<char>,
    pub resolution: usize,
    pub rate: usize,
    pub quality: usize,
    pub codec: usize,
    pub ten_bit: bool,
    pub phase: ExportPhase,
    pub progress: Fraction,
    pub stage: Seq<char>,
    pub message: Seq<char>,
    pub written: Seq<char>,
    pub to_library: bool,
    pub library_output: Option<Seq<char>>,
    pub next_job_id: u64,
    pub active_job: Option<ActiveView>,
    pub cancelled_jobs: Set<u64>,
}

impl View for ExportPane {
    type V = ExportPaneView;

    open spec fn view(&self) -> ExportPaneView {
        ExportPaneView {
            open: self.open,
            name: self.name@,
            folder: self.folder@,
            resolution: self.resolution,
            rate: self.rate,
            quality: self.quality,
            codec: self.codec,
            ten_bit: self.ten_bit,
            phase: self.phase,
            progress: self.progress,
            stage: self.stage@,
            message: self.message@,
            written: self.written@,
            to_library: self.to_library,
            library_output: opt(self.library_output),
            next_job_id: self.next_job_id,
            active_job: opt_active(self.active_job),
            cancelled_jobs: self.cancelled_jobs@,
        }
    }
}

/// No progress.
pub open spec fn at_start() -> Fraction {
    Fraction { done: 0, total: 1 }
}

/// All of the progress.
pub open spec fn at_end() -> Fraction {
    Fraction { done: 1, total: 1 }
}

/// The choice at the place `index`, of places from 0 to `most`.
pub open spec fn chosen_place(index: i32, most: usize) -> usize {
    if index < 0 {
        0
    } else if index as int > most {
        most
    } else {
        index as usize
    }
}

fn choose_place(index: i32, most: usize) -> (r: usize)
    ensures
        r == chosen_place(index, most),
{
    if index < 0 {
        0
    } else if index as usize > most {
        most
    } else {
        index as usize
    }
}

/// A new file in a folder.
pub open spec fn fresh_output(folder: Seq<char>, id: Seq<char>) -> Seq<char> {
    trim_end_of(folder, '/') + "/"@ + id + ".mp4"@
}

fn make_fresh_output(folder: &str, id: &str) -> (r: String)
    ensures
        r@ == fresh_output(folder@, id@),
{
    let place: String = cat3(trim_end_matches(folder, '/').as_str(), "/", id);
    cat(place.as_str(), ".mp4")
}

/// The sheet with a new output where the render goes to the library.
pub open spec fn with_fresh_output(p: ExportPaneView, id: Seq<char>) -> ExportPaneView {
    ExportPaneView {
        phase: ExportPhase::Idle,
        progress: at_start(),
        library_output: if p.to_library {
            Some(fresh_output(p.folder, id))
        } else {
            p.library_output
        },
        ..p
    }
}

pub open spec fn has_char(s: Seq<char>, c: char) -> bool {
    exists|i: int| 0 <= i < s.len() && #[trigger] s[i] == c
}

pub open spec fn has_control(s: Seq<char>) -> bool {
    exists|i: int| 0 <= i < s.len() && control(#[trigger] s[i])
}

/// Whether a name can be the name of an output: it has something to it, no
/// white space at its ends, and nothing that leads elsewhere.
pub open spec fn is_output_name(name: Seq<char>) -> bool {
    &&& trimmed(name).len() > 0
    &&& trimmed(name) == name
    &&& !has_char(name, '/')
    &&& !has_char(name, '\\')
    &&& !has_control(name)
}

/// Whether a name can be the name of an output.
pub fn check_output_name(name: &str) -> (r: bool)
    ensures
        r == is_output_name(name@),
{
    let short: String = trim(name);
    if short.as_str().is_empty() || !same(short.as_str(), name) {
        return false;
    }
    let v: Vec<char> = chars_of(name);
    let mut i: usize = 0;
    while i < v.len()
        invariant
            i <= v.len(),
            v@ == name@,
            forall|j: int|
                0 <= j < i ==> (#[trigger] name@[j]) != '/' && name@[j] != '\\' && !control(
                    name@[j],
                ),
        decreases v.len() - i,
    {
        let c: char = v[i];
        if c == '/' || c == '\\' || is_control(c) {
            proof {
                assert(name@[i as int] == c);
            }
            return false;
        }
        i = i + 1;
    }
    true
}

/// The output that is asked for.
pub open spec fn requested_output(p: ExportPaneView) -> Seq<char> {
    match p.library_output {
        Some(path) => path,
        None => joined_path(p.folder, trimmed(p.name) + ".mp4"@),
    }
}

/// The sheet and the steps when a render is wanted. `session` says whether a
/// project is open, and `clips` how many clips it has.
pub open spec fn start_asked(p: ExportPaneView, session: bool, clips: nat) -> (
    ExportPaneView,
    Seq<ExportStepView>,
) {
    if p.active_job is Some || !session {
        (p, Seq::empty())
    } else if !is_output_name(p.name) {
        (
            ExportPaneView {
                phase: ExportPhase::Failed,
                message: "文件名不能包含路径或首尾空格"@,
                ..p
            },
            Seq::empty(),
        )
    } else if clips == 0 {
        (
            ExportPaneView {
                phase: ExportPhase::Failed,
                message: "There is nothing on the timeline to export"@,
                ..p
            },
            Seq::empty(),
        )
    } else {
        (p, seq![ExportStepView::SettleOutput(requested_output(p))])
    }
}

/// The sheet and the steps when the renderer is taken.
pub open spec fn render_begun(p: ExportPaneView, output: Seq<char>, renamed: bool) -> (
    ExportPaneView,
    Seq<ExportStepView>,
) {
    let id = p.next_job_id.wrapping_add(1);
    let first = if renamed {
        seq![
            ExportStepView::Notify(
                "同名文件已存在，改为导出到 "@ + output,
                false,
            ),
        ]
    } else {
        Seq::empty()
    };
    (
        ExportPaneView {
            phase: ExportPhase::Running,
            progress: at_start(),
            stage: "Rendering video"@,
            message: ""@,
            written: ""@,
            next_job_id: id,
            active_job: Some(
                ActiveView { id, to_library: p.to_library, name: p.name, output },
            ),
            ..p
        },
        first.push(ExportStepView::Pause).push(ExportStepView::Render(id, output)),
    )
}

/// The sheet and the steps when a render is done.
pub open spec fn render_finished(p: ExportPaneView, id: u64, result: Result<Seq<char>, Seq<char>>) -> (
    ExportPaneView,
    Seq<ExportStepView>,
) {
    match claimed(p.active_job, id) {
        None => (
            ExportPaneView { cancelled_jobs: p.cancelled_jobs.remove(id), ..p },
            match result {
                Ok(written) => if p.cancelled_jobs.contains(id) {
                    seq![
                        ExportStepView::Notify("上一次导出已完成："@ + written, false),
                    ]
                } else {
                    Seq::empty()
                },
                Err(_) => Seq::empty(),
            },
        ),
        Some(job) => match result {
            Ok(written) => (
                ExportPaneView {
                    active_job: None,
                    phase: ExportPhase::Done,
                    progress: at_end(),
                    written,
                    ..p
                },
                if job.to_library {
                    seq![ExportStepView::Register(written, job.name)]
                } else {
                    seq![ExportStepView::Notify("Export finished"@, false)]
                },
            ),
            Err(error) => (
                ExportPaneView {
                    active_job: None,
                    phase: ExportPhase::Failed,
                    message: error,
                    ..p
                },
                seq![ExportStepView::Notify("Export failed: "@ + error, true)],
            ),
        },
    }
}

/// The running render, where it is the one of a number.
pub open spec fn claimed(active: Option<ActiveView>, id: u64) -> Option<ActiveView> {
    match active {
        Some(job) => if job.id == id {
            Some(job)
        } else {
            None
        },
        None => None,
    }
}

/// The view of a message.
pub enum ExportMsgView {
    ChooseDestination(bool),
    DestinationReady(Seq<char>, bool),
    LibraryMissing(Seq<char>),
    FolderRefused(Seq<char>),
    Close,
    NameEdited(Seq<char>),
    ResolutionChanged(i32),
    RateChanged(i32),
    QualityChanged(i32),
    CodecChanged(i32),
    TenBitChanged(bool),
    Again,
    Browse,
    FolderPicked(Seq<char>),
    Reveal,
    RevealFailed(Seq<char>),
    Start,
    OutputSettled(Result<(Seq<char>, bool), Seq<char>>),
    Begun(Seq<char>, bool, Result<(), Seq<char>>),
    Cancel,
    Progress(u64, Fraction, Seq<char>),
    Finished(u64, Result<Seq<char>, Seq<char>>),
    Registered(Result<(), Seq<char>>),
}

pub open spec fn settled(r: Result<(String, bool), String>) -> Result<
    (Seq<char>, bool),
    Seq<char>,
> {
    match r {
        Ok((path, renamed)) => Ok((path@, renamed)),
        Err(e) => Err(e@),
    }
}

impl View for ExportMsg {
    type V = ExportMsgView;

    open spec fn view(&self) -> ExportMsgView {
        match *self {
            ExportMsg::ChooseDestination(b) => ExportMsgView::ChooseDestination(b),
            ExportMsg::DestinationReady(a, b) => ExportMsgView::DestinationReady(a@, b),
            ExportMsg::LibraryMissing(a) => ExportMsgView::LibraryMissing(a@),
            ExportMsg::FolderRefused(a) => ExportMsgView::FolderRefused(a@),
            ExportMsg::Close => ExportMsgView::Close,
            ExportMsg::NameEdited(a) => ExportMsgView::NameEdited(a@),
            ExportMsg::ResolutionChanged(i) => ExportMsgView::ResolutionChanged(i),
            ExportMsg::RateChanged(i) => ExportMsgView::RateChanged(i),
            ExportMsg::QualityChanged(i) => ExportMsgView::QualityChanged(i),
            ExportMsg::CodecChanged(i) => ExportMsgView::CodecChanged(i),
            ExportMsg::TenBitChanged(b) => ExportMsgView::TenBitChanged(b),
            ExportMsg::Again => ExportMsgView::Again,
            ExportMsg::Browse => ExportMsgView::Browse,
            ExportMsg::FolderPicked(a) => ExportMsgView::FolderPicked(a@),
            ExportMsg::Reveal => ExportMsgView::Reveal,
            ExportMsg::RevealFailed(a) => ExportMsgView::RevealFailed(a@),
            ExportMsg::Start => ExportMsgView::Start,
            ExportMsg::OutputSettled(r) => ExportMsgView::OutputSettled(settled(r)),
            ExportMsg::Begun(a, b, r) => ExportMsgView::Begun(a@, b, crate::text::verdict(r)),
            ExportMsg::Cancel => ExportMsgView::Cancel,
            ExportMsg::Progress(n, f, a) => ExportMsgView::Progress(n, f, a@),
            ExportMsg::Finished(n, r) => ExportMsgView::Finished(n, crate::text::outcome(r)),
            ExportMsg::Registered(r) => ExportMsgView::Registered(crate::text::verdict(r)),
        }
    }
}

/// What the sheet knows of the project.
#[derive(Clone, Copy)]
pub struct Project {
    /// Whether a project is open.
    pub session: bool,
    /// How many clips its timeline has.
    pub clips: usize,
}

/// The sheet and the steps after a message; `fresh` names a new output in the
/// folder of the library.
pub open spec fn export_updated(
    p: ExportPaneView,
    msg: ExportMsgView,
    project: Project,
    fresh: Seq<char>,
) -> (ExportPaneView, Seq<ExportStepView>) {
    match msg {
        ExportMsgView::ChooseDestination(to_library) => if p.active_job is Some {
            (ExportPaneView { open: true, ..p }, Seq::empty())
        } else {
            (p, seq![ExportStepView::FindDestination(to_library)])
        },
        ExportMsgView::DestinationReady(folder, to_library) => (
            ExportPaneView {
                folder,
                to_library,
                library_output: if to_library {
                    Some(joined_path(folder, fresh + ".mp4"@))
                } else {
                    None
                },
                open: true,
                phase: ExportPhase::Idle,
                message: ""@,
                ..p
            },
            Seq::empty(),
        ),
        ExportMsgView::LibraryMissing(error) => (
            p,
            seq![ExportStepView::Notify("无法打开资产库："@ + error, true)],
        ),
        ExportMsgView::FolderRefused(error) => (
            p,
            seq![ExportStepView::Notify("无法创建导出目录："@ + error, true)],
        ),
        ExportMsgView::Close => (ExportPaneView { open: false, ..p }, Seq::empty()),
        ExportMsgView::NameEdited(name) => (ExportPaneView { name, ..p }, Seq::empty()),
        ExportMsgView::ResolutionChanged(i) => (
            ExportPaneView { resolution: chosen_place(i, 3), ..p },
            Seq::empty(),
        ),
        ExportMsgView::RateChanged(i) => (
            ExportPaneView { rate: chosen_place(i, 2), ..p },
            Seq::empty(),
        ),
        ExportMsgView::QualityChanged(i) => (
            ExportPaneView { quality: chosen_place(i, 2), ..p },
            Seq::empty(),
        ),
        ExportMsgView::CodecChanged(i) => (
            ExportPaneView { codec: chosen_place(i, 2), ..p },
            Seq::empty(),
        ),
        ExportMsgView::TenBitChanged(on) => (ExportPaneView { ten_bit: on, ..p }, Seq::empty()),
        ExportMsgView::Again => if p.active_job is Some {
            (p, Seq::empty())
        } else {
            (with_fresh_output(p, fresh), Seq::empty())
        },
        ExportMsgView::Browse => (p, seq![ExportStepView::PickFolder]),
        ExportMsgView::FolderPicked(folder) => (
            ExportPaneView { folder, to_library: false, library_output: None, ..p },
            Seq::empty(),
        ),
        ExportMsgView::Reveal => (
            p,
            if p.written.len() > 0 {
                seq![ExportStepView::Reveal(p.written)]
            } else {
                Seq::empty()
            },
        ),
        ExportMsgView::RevealFailed(error) => (
            p,
            seq![ExportStepView::Notify("Could not show the file: "@ + error, true)],
        ),
        ExportMsgView::Start => start_asked(p, project.session, project.clips as nat),
        ExportMsgView::OutputSettled(result) => match result {
            Ok((output, renamed)) => (p, seq![ExportStepView::Begin(output, renamed)]),
            Err(error) => (
                ExportPaneView { phase: ExportPhase::Failed, message: error, ..p },
                Seq::empty(),
            ),
        },
        ExportMsgView::Begun(output, renamed, result) => match result {
            Ok(()) => render_begun(p, output, renamed),
            Err(error) => (
                ExportPaneView { phase: ExportPhase::Failed, message: error, ..p },
                Seq::empty(),
            ),
        },
        ExportMsgView::Cancel => match p.active_job {
            Some(job) => (
                with_fresh_output(
                    ExportPaneView {
                        active_job: None,
                        cancelled_jobs: p.cancelled_jobs.insert(job.id),
                        ..p
                    },
                    fresh,
                ),
                seq![ExportStepView::CancelRender],
            ),
            None => (with_fresh_output(p, fresh), Seq::empty()),
        },
        ExportMsgView::Progress(id, fraction, stage) => if p.phase == ExportPhase::Running
            && claimed(p.active_job, id) is Some {
            (ExportPaneView { progress: held(fraction), stage, ..p }, Seq::empty())
        } else {
            (p, Seq::empty())
        },
        ExportMsgView::Finished(id, result) => render_finished(p, id, result),
        ExportMsgView::Registered(result) => match result {
            Ok(()) => (
                p,
                seq![
                    ExportStepView::Notify("视频已导出并加入资产库"@, false),
                    ExportStepView::RefreshLibrary,
                ],
            ),
            Err(error) => (
                p,
                seq![ExportStepView::Notify("视频已导出，入库失败："@ + error, true)],
            ),
        },
    }
}

impl ExportPane {
    /// The sheet as it is before anything happens, for a folder.
    pub fn new(folder: String) -> (r: ExportPane)
        ensures
            r@ == (ExportPaneView {
                open: false,
                name: "Untitled"@,
                folder: folder@,
                resolution: 2,
                rate: 1,
                quality: 1,
                codec: 0,
                ten_bit: false,
                phase: ExportPhase::Idle,
                progress: at_start(),
                stage: ""@,
                message: ""@,
                written: ""@,
                to_library: false,
                library_output: None,
                next_job_id: 0,
                active_job: None,
                cancelled_jobs: Set::empty(),
            }),
    {
        ExportPane {
            open: false,
            name: "Untitled".to_owned(),
            folder,
            resolution: 2,
            rate: 1,
            quality: 1,
            codec: 0,
            ten_bit: false,
            phase: ExportPhase::Idle,
            progress: Fraction { done: 0, total: 1 },
            stage: "".to_owned(),
            message: "".to_owned(),
            written: "".to_owned(),
            to_library: false,
            library_output: None,
            next_job_id: 0,
            active_job: None,
            cancelled_jobs: HashSet::new(),
        }
    }

    /// Takes the running render, where it is the one of a number.
    pub fn take_finished_job(&mut self, job_id: u64) -> (r: Option<ActiveExport>)
        ensures
            opt_active(r) == claimed(old(self)@.active_job, job_id),
            final(self)@ == (ExportPaneView {
                active_job: if r is Some {
                    None
                } else {
                    old(self)@.active_job
                },
                ..old(self)@
            }),
    {
        let mine: bool = match &self.active_job {
            Some(job) => job.id == job_id,
            None => false,
        };
        if mine {
            let mut taken: Option<ActiveExport> = None;
            std::mem::swap(&mut taken, &mut self.active_job);
            taken
        } else {
            None
        }
    }

    fn refresh_output(&mut self, fresh: &str)
        ensures
            final(self)@ == with_fresh_output(old(self)@, fresh@),
    {
        self.phase = ExportPhase::Idle;
        self.progress = Fraction { done: 0, total: 1 };
        if self.to_library {
            self.library_output = Some(make_fresh_output(self.folder.as_str(), fresh));
        }
    }

    fn refuse(&mut self, message: &str)
        ensures
            final(self)@ == (ExportPaneView {
                phase: ExportPhase::Failed,
                message: message@,
                ..old(self)@
            }),
    {
        self.phase = ExportPhase::Failed;
        self.message = message.to_owned();
    }

    fn start(&mut self, project: Project) -> (r: Vec<ExportStep>)
        ensures
            (final(self)@, export_steps(r@)) == start_asked(
                old(self)@,
                project.session,
                project.clips as nat,
            ),
    {
        if self.active_job.is_some() || !project.session {
            return nothing();
        }
        if !check_output_name(self.name.as_str()) {
            self.refuse("文件名不能包含路径或首尾空格");
            return nothing();
        }
        if project.clips == 0 {
            self.refuse("There is nothing on the timeline to export");
            return nothing();
        }
        let requested: String = match &self.library_output {
            Some(path) => path.clone(),
            None => {
                let name: String = cat(trim(self.name.as_str()).as_str(), ".mp4");
                join_path(self.folder.as_str(), name.as_str())
            },
        };
        only(ExportStep::SettleOutput(requested))
    }

    fn begin(&mut self, output: String, renamed: bool) -> (r: Vec<ExportStep>)
        ensures
            (final(self)@, export_steps(r@)) == render_begun(old(self)@, output@, renamed),
    {
        let mut steps: Vec<ExportStep> = nothing();
        if renamed {
            and_do(
                &mut steps,
                ExportStep::Notify(
                    cat("同名文件已存在，改为导出到 ", output.as_str()),
                    false,
                ),
            );
        }
        proof {
            if renamed {
                assert(export_steps(steps@) =~= seq![
                    ExportStepView::Notify(
                        "同名文件已存在，改为导出到 "@ + output@,
                        false,
                    ),
                ]);
            }
        }
        and_do(&mut steps, ExportStep::Pause);
        self.phase = ExportPhase::Running;
        self.progress = Fraction { done: 0, total: 1 };
        self.stage = "Rendering video".to_owned();
        self.message = "".to_owned();
        self.written = "".to_owned();
        self.next_job_id = self.next_job_id.wrapping_add(1);
        self.active_job = Some(
            ActiveExport {
                id: self.next_job_id,
                to_library: self.to_library,
                name: self.name.clone(),
                output: output.clone(),
            },
        );
        and_do(&mut steps, ExportStep::Render(self.next_job_id, output));
        steps
    }

    fn finish(&mut self, id: u64, result: Result<String, String>) -> (r: Vec<ExportStep>)
        ensures
            (final(self)@, export_steps(r@)) == render_finished(
                old(self)@,
                id,
                crate::text::outcome(result),
            ),
    {
        broadcast use vstd::std_specs::hash::group_hash_axioms;

        match self.take_finished_job(id) {
            None => {
                let known: bool = self.cancelled_jobs.remove(&id);
                proof {
                    assert(self.cancelled_jobs@ =~= old(self).cancelled_jobs@.remove(id));
                }
                match result {
                    Ok(written) => {
                        if known {
                            only(
                                ExportStep::Notify(
                                    cat("上一次导出已完成：", written.as_str()),
                                    false,
                                ),
                            )
                        } else {
                            nothing()
                        }
                    },
                    Err(_) => nothing(),
                }
            },
            Some(job) => match result {
                Ok(written) => {
                    self.phase = ExportPhase::Done;
                    self.progress = Fraction { done: 1, total: 1 };
                    self.written = written.clone();
                    if job.to_library {
                        only(ExportStep::Register(written, job.name))
                    } else {
                        only(ExportStep::Notify("Export finished".to_owned(), false))
                    }
                },
                Err(error) => {
                    self.refuse(error.as_str());
                    only(ExportStep::Notify(cat("Export failed: ", error.as_str()), true))
                },
            },
        }
    }

    fn cancel(&mut self, fresh: &str) -> (r: Vec<ExportStep>)
        ensures
            (final(self)@, export_steps(r@)) == export_updated(
                old(self)@,
                ExportMsgView::Cancel,
                Project { session: false, clips: 0 },
                fresh@,
            ),
    {
        broadcast use vstd::std_specs::hash::group_hash_axioms;

        let mut taken: Option<ActiveExport> = None;
        std::mem::swap(&mut taken, &mut self.active_job);
        let steps: Vec<ExportStep> = match taken {
            Some(job) => {
                self.cancelled_jobs.insert(job.id);
                only(ExportStep::CancelRender)
            },
            None => nothing(),
        };
        self.refresh_output(fresh);
        steps
    }

    /// Applies one message; `fresh` names a new output in the folder of the
    /// library.
    pub fn update_with(&mut self, msg: ExportMsg, project: Project, fresh: &str) -> (r: Vec<
        ExportStep,
    >)
        ensures
            (final(self)@, export_steps(r@)) == export_updated(
                old(self)@,
                msg@,
                project,
                fresh@,
            ),
    {
        match msg {
            ExportMsg::ChooseDestination(to_library) => {
                if self.active_job.is_some() {
                    self.open = true;
                    nothing()
                } else {
                    only(ExportStep::FindDestination(to_library))
                }
            },
            ExportMsg::DestinationReady(folder, to_library) => {
                self.library_output = if to_library {
                    let name: String = cat(fresh, ".mp4");
                    Some(join_path(folder.as_str(), name.as_str()))
                } else {
                    None
                };
                self.folder = folder;
                self.to_library = to_library;
                self.open = true;
                self.phase = ExportPhase::Idle;
                self.message = "".to_owned();
                nothing()
            },
            ExportMsg::LibraryMissing(error) => only(
                ExportStep::Notify(cat("无法打开资产库：", error.as_str()), true),
            ),
            ExportMsg::FolderRefused(error) => only(
                ExportStep::Notify(cat("无法创建导出目录：", error.as_str()), true),
            ),
            ExportMsg::Close => {
                self.open = false;
                nothing()
            },
            ExportMsg::NameEdited(name) => {
                self.name = name;
                nothing()
            },
            ExportMsg::ResolutionChanged(i) => {
                self.resolution = choose_place(i, 3);
                nothing()
            },
            ExportMsg::RateChanged(i) => {
                self.rate = choose_place(i, 2);
                nothing()
            },
            ExportMsg::QualityChanged(i) => {
                self.quality = choose_place(i, 2);
                nothing()
            },
            ExportMsg::CodecChanged(i) => {
                self.codec = choose_place(i, 2);
                nothing()
            },
            ExportMsg::TenBitChanged(on) => {
                self.ten_bit = on;
                nothing()
            },
            ExportMsg::Again => {
                if self.active_job.is_none() {
                    self.refresh_output(fresh);
                }
                nothing()
            },
            ExportMsg::Browse => only(ExportStep::PickFolder),
            ExportMsg::FolderPicked(folder) => {
                self.folder = folder;
                self.to_library = false;
                self.library_output = None;
                nothing()
            },
            ExportMsg::Reveal => {
                if self.written.as_str().is_empty() {
                    nothing()
                } else {
                    only(ExportStep::Reveal(self.written.clone()))
                }
            },
            ExportMsg::RevealFailed(error) => only(
                ExportStep::Notify(cat("Could not show the file: ", error.as_str()), true),
            ),
            ExportMsg::Start => self.start(project),
            ExportMsg::OutputSettled(result) => match result {
                Ok((output, renamed)) => only(ExportStep::Begin(output, renamed)),
                Err(error) => {
                    self.refuse(error.as_str());
                    nothing()
                },
            },
            ExportMsg::Begun(output, renamed, result) => match result {
                Ok(()) => self.begin(output, renamed),
                Err(error) => {
                    self.refuse(error.as_str());
                    nothing()
                },
            },
            ExportMsg::Cancel => self.cancel(fresh),
            ExportMsg::Progress(id, fraction, stage) => {
                let mine: bool = match &self.active_job {
                    Some(job) => job.id == id,
                    None => false,
                };
                if self.phase == ExportPhase::Running && mine {
                    self.progress = hold(fraction);
                    self.stage = stage;
                }
                nothing()
            },
            ExportMsg::Finished(id, result) => self.finish(id, result),
            ExportMsg::Registered(result) => match result {
                Ok(()) => {
                    let mut steps: Vec<ExportStep> = only(
                        ExportStep::Notify("视频已导出并加入资产库".to_owned(), false),
                    );
                    and_do(&mut steps, ExportStep::RefreshLibrary);
                    steps
                },
                Err(error) => only(
                    ExportStep::Notify(
                        cat("视频已导出，入库失败：", error.as_str()),
                        true,
                    ),
                ),
            },
        }
    }

    /// Applies one message.
    pub fn update(&mut self, msg: ExportMsg, project: Project) -> (r: Vec<ExportStep>)
        ensures
            exists|fresh: Seq<char>|
                is_uuid(fresh) && (final(self)@, export_steps(r@)) == #[trigger] export_updated(
                    old(self)@,
                    msg@,
                    project,
                    fresh,
                ),
    {
        let fresh: String = fresh_id();
        let ghost before = self@;
        let ghost sent = msg@;
        let steps: Vec<ExportStep> = self.update_with(msg, project, fresh.as_str());
        proof {
            assert((self@, export_steps(steps@)) == export_updated(before, sent, project, fresh@));
        }
        steps
    }
}

/// What a worker is doing, in words.
pub open spec fn stage_words(stage: Seq<char>) -> Seq<char> {
    if stage == "rendering"@ {
        "Rendering video"@
    } else if stage == "mixing audio"@ {
        "Mixing audio"@
    } else if stage == "muxing"@ {
        "Finalising file"@
    } else {
        stage
    }
}

/// What a worker is doing, in words.
pub fn stage_label(stage: &str) -> (r: String)
    ensures
        r@ == stage_words(stage@),
{
    if same(stage, "rendering") {
        "Rendering video".to_owned()
    } else if same(stage, "mixing audio") {
        "Mixing audio".to_owned()
    } else if same(stage, "muxing") {
        "Finalising file".to_owned()
    } else {
        stage.to_owned()
    }
}

/// The candidate of a number for an output that no file has.
pub open spec fn output_candidate(requested: Seq<char>, number: nat) -> Seq<char> {
    if number == 1 {
        requested
    } else {
        joined_path(
            parent_of(requested),
            stem_of(requested)->0 + " ("@ + decimal(number) + ").mp4"@,
        )
    }
}

/// The least number from `number` on whose candidate no file has.
pub open spec fn free_number(requested: Seq<char>, taken: Set<Seq<char>>, number: nat) -> Option<nat>
    decreases 10001 - number,
{
    if number > 10000 {
        None
    } else if taken.contains(output_candidate(requested, number)) {
        free_number(requested, taken, number + 1)
    } else {
        Some(number)
    }
}

/// An output that no file has, and whether it is another than the one that is
/// asked for.
pub open spec fn free_output(requested: Seq<char>, taken: Set<Seq<char>>) -> Result<
    (Seq<char>, bool),
    Seq<char>,
> {
    if stem_of(requested) is None {
        Err("导出文件名无效"@)
    } else {
        match free_number(requested, taken, 1) {
            Some(n) => Ok((output_candidate(requested, n), n != 1)),
            None => Err("此目录中同名导出文件过多"@),
        }
    }
}

/// An output that no file has: every file that is there is kept. `taken` holds
/// the paths of the files that are there.
pub fn unique_export_path(requested: &str, taken: &crate::collections::TextSet) -> (r: Result<
    (String, bool),
    String,
>)
    ensures
        settled(r) == free_output(requested@, taken@),
{
    let stem: String = match file_stem(requested) {
        Some(s) => s,
        None => {
            return Err("导出文件名无效".to_owned());
        },
    };
    let folder: String = parent(requested);
    let mut number: u64 = 1;
    while number <= 10000
        invariant
            1 <= number <= 10001,
            stem_of(requested@) == Some(stem@),
            folder@ == parent_of(requested@),
            free_number(requested@, taken@, 1) == free_number(requested@, taken@, number as nat),
        decreases 10001 - number,
    {
        let candidate: String = if number == 1 {
            requested.to_owned()
        } else {
            let n: String = to_decimal(number);
            let numbered: String = cat3(stem.as_str(), " (", n.as_str());
            let name: String = cat(numbered.as_str(), ").mp4");
            join_path(folder.as_str(), name.as_str())
        };
        if !taken.has(candidate.as_str()) {
            return Ok((candidate, number != 1));
        }
        number = number + 1;
    }
    Err("此目录中同名导出文件过多".to_owned())
}

/// A side of the frame: the short side scaled by `long` to `small`, rounded to
/// an even number and at least 2.
pub open spec fn even_side(short: u32, long: u32, small: u32) -> int {
    let half = (short as int * long as int + small as int) / (2 * small as int);
    if half < 1 {
        2
    } else {
        2 * half
    }
}

/// The frame that a render has: the short side, and the other scaled along the
/// aspect of the project.
pub open spec fn frame_size(short: u32, width: u32, height: u32) -> (int, int) {
    let w: u32 = if width == 0 {
        1
    } else {
        width
    };
    let h: u32 = if height == 0 {
        1
    } else {
        height
    };
    if w >= h {
        (even_side(short, w, h), short as int)
    } else {
        (short as int, even_side(short, h, w))
    }
}

/// The frame of the short side that is chosen, the last one where the choice
/// is past the list.
pub open spec fn chosen_frame(
    resolution: usize,
    short_sides: Seq<u32>,
    width: u32,
    height: u32,
) -> (int, int) {
    let at = if resolution < short_sides.len() {
        resolution as int
    } else {
        short_sides.len() - 1
    };
    frame_size(short_sides[at], width, height)
}

fn make_side(short: u32, long: u32, small: u32) -> (r: u64)
    requires
        small > 0,
    ensures
        r == even_side(short, long, small),
{
    proof {
        assert(short as int * long as int <= 0xffff_ffff * 0xffff_ffff) by (nonlinear_arith)
            requires
                0 <= short <= 0xffff_ffff,
                0 <= long <= 0xffff_ffff,
        ;
        assert(0 <= short as int * long as int) by (nonlinear_arith)
            requires
                0 <= short,
                0 <= long,
        ;
    }
    let sum: u128 = short as u128 * long as u128 + small as u128;
    let half: u128 = sum / (2 * small as u128);
    proof {
        let n = sum as int;
        let d = 2 * small as int;
        assert(n / d <= n / 2) by (nonlinear_arith)
            requires
                d >= 2,
                n >= 0,
        ;
    }
    if half < 1 {
        2
    } else {
        (2 * half) as u64
    }
}

impl ExportPane {
    /// The frame that the render has. `short_sides` lists the short sides that
    /// can be chosen; the project is `width` by `height`.
    pub fn size(&self, short_sides: &Vec<u32>, width: u32, height: u32) -> (r: (u64, u64))
        requires
            short_sides.len() > 0,
        ensures
            (r.0 as int, r.1 as int) == chosen_frame(
                self.resolution,
                short_sides@,
                width,
                height,
            ),
            ({
                let at = if self.resolution < short_sides.len() {
                    self.resolution as int
                } else {
                    short_sides.len() - 1
                };
                (r.0 as int, r.1 as int) == frame_size(short_sides@[at], width, height)
            }),
    {
        let at: usize = if self.resolution < short_sides.len() {
            self.resolution
        } else {
            short_sides.len() - 1
        };
        let short: u32 = short_sides[at];
        let w: u32 = if width == 0 {
            1
        } else {
            width
        };
        let h: u32 = if height == 0 {
            1
        } else {
            height
        };
        if w >= h {
            (make_side(short, w, h), short as u64)
        } else {
            (short as u64, make_side(short, h, w))
        }
    }
}

/// What the sheet is shown with, beside its own state.
pub struct SheetFacts {
    pub width: u64,
    pub height: u64,
    /// The frames of a second, as they are shown.
    pub rate: String,
    /// The length of the project in seconds.
    pub seconds: u64,
    pub clips: u64,
    /// How many of the clips are titles.
    pub titles: u64,
    pub codec: String,
    /// Whether the platform's own encoder does the work.
    pub hardware: bool,
    /// The time that is left, as it would be shown.
    pub eta: String,
}

/// The lines of the sheet.
pub struct ExportData {
    pub path: String,
    pub format: String,
    pub duration: String,
    pub contents: String,
    pub encoding: String,
    pub eta: String,
    pub empty: bool,
}

/// A number of things.
pub open spec fn counted(n: nat, one: Seq<char>, many: Seq<char>) -> Seq<char> {
    decimal(n) + if n == 1 {
        one
    } else {
        many
    }
}

fn count_words(n: u64, one: &str, many: &str) -> (r: String)
    ensures
        r@ == counted(n as nat, one@, many@),
{
    let digits: String = to_decimal(n);
    if n == 1 {
        cat(digits.as_str(), one)
    } else {
        cat(digits.as_str(), many)
    }
}

/// The path that the sheet shows.
pub open spec fn shown_path(p: ExportPaneView) -> Seq<char> {
    match p.active_job {
        Some(job) => job.output,
        None => if p.phase == ExportPhase::Done && p.written.len() > 0 {
            p.written
        } else {
            match p.library_output {
                Some(path) => path,
                None => trim_end_of(p.folder, '/') + "/"@ + p.name + ".mp4"@,
            }
        },
    }
}

/// The contents that the sheet shows.
pub open spec fn shown_contents(clips: nat, titles: nat) -> Seq<char> {
    let first = counted(clips, " clip"@, " clips"@);
    if titles > 0 {
        first + " · "@ + counted(titles, " title"@, " titles"@)
    } else {
        first
    }
}

/// The encoding that the sheet shows: the standard, the depth where it is the
/// deeper one, and whether the platform's own encoder does it.
pub open spec fn shown_encoding(codec: Seq<char>, ten_bit: bool, hardware: bool) -> Seq<char> {
    let first = if ten_bit {
        codec + " 10-bit"@
    } else {
        codec
    };
    if hardware {
        first + " · hardware"@
    } else {
        first
    }
}

/// Whether enough is rendered for the time that is left to be told.
pub open spec fn tells_eta(p: ExportPaneView) -> bool {
    p.phase == ExportPhase::Running && 50 * p.progress.done > p.progress.total
}

impl ExportPane {
    fn make_path(&self) -> (r: String)
        ensures
            r@ == shown_path(self@),
    {
        if let Some(job) = &self.active_job {
            return job.output.clone();
        }
        if self.phase == ExportPhase::Done && !self.written.as_str().is_empty() {
            return self.written.clone();
        }
        match &self.library_output {
            Some(path) => path.clone(),
            None => make_fresh_output(self.folder.as_str(), self.name.as_str()),
        }
    }

    /// The sheet as it is shown.
    pub fn data(&self, facts: &SheetFacts) -> (r: ExportData)
        ensures
            r.path@ == shown_path(self@),
            r.format@ == decimal(facts.width as nat) + " × "@ + decimal(facts.height as nat)
                + " · "@ + facts.rate@ + " fps"@,
            r.duration@ == decimal((facts.seconds / 60) as nat) + ":"@ + two_digits(
                (facts.seconds % 60) as nat,
            ),
            r.contents@ == shown_contents(facts.clips as nat, facts.titles as nat),
            r.encoding@ == shown_encoding(facts.codec@, self.ten_bit, facts.hardware),
            r.eta@ == if tells_eta(self@) {
                facts.eta@
            } else {
                ""@
            },
            r.empty == (facts.clips == 0),
    {
        let sides: String = cat3(
            to_decimal(facts.width).as_str(),
            " × ",
            to_decimal(facts.height).as_str(),
        );
        let format: String = cat3(
            cat(sides.as_str(), " · ").as_str(),
            facts.rate.as_str(),
            " fps",
        );
        let duration: String = cat3(
            to_decimal(facts.seconds / 60).as_str(),
            ":",
            to_two_digits(facts.seconds % 60).as_str(),
        );
        let mut contents: String = count_words(facts.clips, " clip", " clips");
        if facts.titles > 0 {
            let titles: String = count_words(facts.titles, " title", " titles");
            contents = cat3(contents.as_str(), " · ", titles.as_str());
        }
        let mut encoding: String = facts.codec.clone();
        if self.ten_bit {
            encoding = cat(encoding.as_str(), " 10-bit");
        }
        if facts.hardware {
            encoding = cat(encoding.as_str(), " · hardware");
        }
        let told: bool = self.phase == ExportPhase::Running && 50 * self.progress.done as u128
            > self.progress.total as u128;
        ExportData {
            path: self.make_path(),
            format,
            duration,
            contents,
            encoding,
            eta: if told {
                facts.eta.clone()
            } else {
                "".to_owned()
            },
            empty: facts.clips == 0,
        }
    }
}

/// The end of a render that was cancelled cannot pass for the end of the one
/// that runs: the running one goes on.
pub proof fn late_ends_claim_nothing(
    p: ExportPaneView,
    id: u64,
    result: Result<Seq<char>, Seq<char>>,
)
    requires
        p.active_job matches Some(job) ==> job.id != id,
    ensures
        render_finished(p, id, result).0.active_job == p.active_job,
        render_finished(p, id, result).0.phase == p.phase,
        render_finished(p, id, result).0.written == p.written,
{
}

/// A render ends once: the same report a second time changes nothing more.
pub proof fn renders_end_once(p: ExportPaneView, id: u64, result: Result<Seq<char>, Seq<char>>)
    requires
        claimed(p.active_job, id) is Some ==> !p.cancelled_jobs.contains(id),
    ensures
        ({
            let once = render_finished(p, id, result).0;
            render_finished(once, id, result) == (once, Seq::<ExportStepView>::empty())
        }),
{
    let once = render_finished(p, id, result).0;
    assert(once.cancelled_jobs.remove(id) =~= once.cancelled_jobs);
}

/// An output that is settled is never a file that is there.
pub proof fn outputs_are_free(requested: Seq<char>, taken: Set<Seq<char>>)
    ensures
        free_output(requested, taken) matches Ok(chosen) ==> !taken.contains(chosen.0),
{
    free_number_is_free(requested, taken, 1);
}

proof fn free_number_is_free(requested: Seq<char>, taken: Set<Seq<char>>, number: nat)
    ensures
        free_number(requested, taken, number) matches Some(n) ==> !taken.contains(
            output_candidate(requested, n),
        ),
    decreases 10001 - number,
{
    if number <= 10000 && taken.contains(output_candidate(requested, number)) {
        free_number_is_free(requested, taken, number + 1);
    }
}

/// The other side is the even number nearest to the short side scaled along
/// the project.
proof fn scaled_side(short: u32, long: u32, small: u32)
    requires
        0 < short,
        0 < small <= long,
    ensures
        even_side(short, long, small) >= 2,
        even_side(short, long, small) % 2 == 0,
        even_side(short, long, small) * small <= short * long + small,
        short * long <= even_side(short, long, small) * small + small,
        even_side(short, long, small) + 1 >= short,
        short % 2 == 0 ==> even_side(short, long, small) >= short,
{
    let n = short as int * long as int;
    let m = small as int;
    let half = (n + m) / (2 * m);
    assert(short as int * m <= n) by (nonlinear_arith)
        requires
            n == short as int * long as int,
            m == small as int,
            0 < small <= long,
            0 < short,
    ;
    assert(m <= short as int * m) by (nonlinear_arith)
        requires
            0 < short,
            m > 0,
    ;
    vstd::arithmetic::div_mod::lemma_fundamental_div_mod(n + m, 2 * m);
    let rest = (n + m) % (2 * m);
    assert(2 * m * half == (2 * half) * m) by (nonlinear_arith);
    assert(n + m == (2 * half) * m + rest);
    assert(half >= 1) by (nonlinear_arith)
        requires
            n >= m,
            n + m == (2 * half) * m + rest,
            0 <= rest < 2 * m,
            m > 0,
    ;
    assert(2 * half + 1 >= short) by (nonlinear_arith)
        requires
            short as int * m <= n,
            n + m == (2 * half) * m + rest,
            0 <= rest < 2 * m,
            m > 0,
    ;
}

/// A frame is shaped as the project is. The chosen short side lies along the
/// shorter side of the project; the other one is even and differs from the
/// exact proportion by no more than rounding to an even number does. So a wide
/// project has a wide frame and a tall one a tall frame.
pub proof fn frames_follow_the_project(
    resolution: usize,
    short_sides: Seq<u32>,
    width: u32,
    height: u32,
)
    requires
        resolution < short_sides.len(),
        short_sides[resolution as int] > 0,
        width > 0,
        height > 0,
    ensures
        ({
            let r = chosen_frame(resolution, short_sides, width, height);
            let short = short_sides[resolution as int] as int;
            &&& width >= height ==> r.1 == short && r.0 % 2 == 0 && r.0 >= 2
            &&& width < height ==> r.0 == short && r.1 % 2 == 0 && r.1 >= 2
            &&& width <= height ==> r.0 <= r.1 + 1
            &&& width >= height ==> r.1 <= r.0 + 1
            &&& width <= height && short % 2 == 0 ==> r.0 <= r.1
            &&& width >= height && short % 2 == 0 ==> r.1 <= r.0
            &&& width >= height ==> r.0 * height - r.1 * width <= height && r.1 * width - r.0
                * height <= height
            &&& width <= height ==> r.0 * height - r.1 * width <= width && r.1 * width - r.0
                * height <= width
        }),
{
    let short = short_sides[resolution as int];
    if width >= height {
        scaled_side(short, width, height);
    } else {
        scaled_side(short, height, width);
    }
    if width == height {
        assert(short * width + height == (short + 1) * height) by (nonlinear_arith)
            requires
                width == height,
        ;
        let side = even_side(short, width, height);
        assert(side <= short + 1) by (nonlinear_arith)
            requires
                side * height <= (short + 1) * height,
                height > 0,
        ;
        assert(side + 1 >= short);
    }
}

/// Turning a project on its side turns its frame.
pub proof fn frames_turn_with_the_project(
    resolution: usize,
    short_sides: Seq<u32>,
    width: u32,
    height: u32,
)
    requires
        width != height,
        width > 0,
        height > 0,
    ensures
        ({
            let r = chosen_frame(resolution, short_sides, width, height);
            chosen_frame(resolution, short_sides, height, width) == (r.1, r.0)
        }),
{
}

/// A choice past the list is the last one, and a project without an extent
/// counts as one pixel wide or tall.
pub proof fn frames_are_chosen_from_the_list(
    resolution: usize,
    short_sides: Seq<u32>,
    width: u32,
    height: u32,
)
    ensures
        0 < short_sides.len() <= resolution ==> chosen_frame(
            resolution,
            short_sides,
            width,
            height,
        ) == chosen_frame(
            (short_sides.len() - 1) as usize,
            short_sides,
            width,
            height,
        ),
        chosen_frame(resolution, short_sides, 0, height) == chosen_frame(
            resolution,
            short_sides,
            1,
            height,
        ),
        chosen_frame(resolution, short_sides, width, 0) == chosen_frame(
            resolution,
            short_sides,
            width,
            1,
        ),
{
}

/// Each choice of the sheet is its own: the entry that is picked is the one
/// that is chosen, held to the list, and the other choices stay.
pub proof fn choices_are_kept_apart(
    p: ExportPaneView,
    index: i32,
    on: bool,
    name: Seq<char>,
    project: Project,
    fresh: Seq<char>,
)
    ensures
        ({
            let size = export_updated(p, ExportMsgView::ResolutionChanged(index), project, fresh).0;
            let rate = export_updated(p, ExportMsgView::RateChanged(index), project, fresh).0;
            let quality = export_updated(p, ExportMsgView::QualityChanged(index), project, fresh).0;
            let codec = export_updated(p, ExportMsgView::CodecChanged(index), project, fresh).0;
            let deep = export_updated(p, ExportMsgView::TenBitChanged(on), project, fresh).0;
            let named = export_updated(p, ExportMsgView::NameEdited(name), project, fresh).0;
            &&& size == (ExportPaneView { resolution: size.resolution, ..p })
            &&& rate == (ExportPaneView { rate: rate.rate, ..p })
            &&& quality == (ExportPaneView { quality: quality.quality, ..p })
            &&& codec == (ExportPaneView { codec: codec.codec, ..p })
            &&& deep == (ExportPaneView { ten_bit: on, ..p })
            &&& named == (ExportPaneView { name, ..p })
            &&& 0 <= index <= 3 ==> size.resolution == index
            &&& index > 3 ==> size.resolution == 3
            &&& 0 <= index <= 2 ==> rate.rate == index && quality.quality == index && codec.codec
                == index
            &&& index > 2 ==> rate.rate == 2 && quality.quality == 2 && codec.codec == 2
            &&& index < 0 ==> size.resolution == 0 && rate.rate == 0 && quality.quality == 0
                && codec.codec == 0
        }),
{
}

/// A render is asked for where there is something to render, nothing is being
/// rendered and the name is one of a file. It goes to the library's file, or to
/// the file of that name in the chosen folder. A name that is not that of a
/// file, and an empty timeline, are refused with a word.
pub proof fn renders_go_where_they_were_asked_to(
    p: ExportPaneView,
    project: Project,
    fresh: Seq<char>,
)
    ensures
        ({
            let (now, steps) = export_updated(p, ExportMsgView::Start, project, fresh);
            let named = trimmed(p.name) == p.name && p.name.len() > 0 && !p.name.contains('/')
                && !p.name.contains('\\') && (forall|i: int|
                0 <= i < p.name.len() ==> !control(#[trigger] p.name[i]));
            let free = p.active_job is None && project.session;
            &&& !free ==> now == p && steps.len() == 0
            &&& free && !named ==> steps.len() == 0 && now == (ExportPaneView {
                phase: ExportPhase::Failed,
                message: now.message,
                ..p
            }) && now.message.len() > 0
            &&& free && named && project.clips == 0 ==> steps.len() == 0 && now == (
            ExportPaneView { phase: ExportPhase::Failed, message: now.message, ..p })
                && now.message.len() > 0
            &&& free && named && project.clips > 0 && p.library_output is Some ==> now == p && steps
                == seq![ExportStepView::SettleOutput(p.library_output->0)]
            &&& free && named && project.clips > 0 && p.library_output is None ==> now == p && steps
                == seq![ExportStepView::SettleOutput(joined_path(p.folder, p.name + ".mp4"@))]
        }),
{
    reveal_strlit("文件名不能包含路径或首尾空格");
    reveal_strlit("There is nothing on the timeline to export");
    assert(has_char(p.name, '/') == p.name.contains('/'));
    assert(has_char(p.name, '\\') == p.name.contains('\\'));
}

/// A render that begins is the running one, under a number of its own, at its
/// start and to the file that was settled; the last thing that is asked for is
/// that render. One that cannot begin fails with the reason.
pub proof fn renders_begin_at_the_start(
    p: ExportPaneView,
    output: Seq<char>,
    renamed: bool,
    error: Seq<char>,
    project: Project,
    fresh: Seq<char>,
)
    ensures
        ({
            let (now, steps) = export_updated(
                p,
                ExportMsgView::Begun(output, renamed, Ok(())),
                project,
                fresh,
            );
            let (failed, none) = export_updated(
                p,
                ExportMsgView::Begun(output, renamed, Err(error)),
                project,
                fresh,
            );
            &&& now.phase == ExportPhase::Running
            &&& now.progress.done == 0
            &&& now.active_job matches Some(job) && job.output == output && job.name == p.name
                && job.to_library == p.to_library && job.id == now.next_job_id && steps.last()
                == ExportStepView::Render(job.id, output)
            &&& p.next_job_id < u64::MAX ==> now.next_job_id == p.next_job_id + 1
            &&& now.message.len() == 0 && now.written.len() == 0
            &&& renamed ==> steps[0] is Notify
            &&& !renamed ==> !(steps[0] is Notify)
            &&& failed == (ExportPaneView { phase: ExportPhase::Failed, message: error, ..p })
                && none.len() == 0
        }),
{
    reveal_strlit("");
}

/// Only the running render moves the bar, and never past its end.
pub proof fn progress_is_that_of_the_running_render(
    p: ExportPaneView,
    id: u64,
    fraction: Fraction,
    stage: Seq<char>,
    project: Project,
    fresh: Seq<char>,
)
    ensures
        ({
            let (now, steps) = export_updated(
                p,
                ExportMsgView::Progress(id, fraction, stage),
                project,
                fresh,
            );
            let runs = p.phase == ExportPhase::Running && (p.active_job matches Some(job) && job.id
                == id);
            &&& steps.len() == 0
            &&& !runs ==> now == p
            &&& runs ==> now.stage == stage && now.progress.done <= now.progress.total
                && now.progress.total > 0
            &&& runs && 0 < fraction.total && fraction.done <= fraction.total ==> now.progress
                == fraction
            &&& runs && 0 < fraction.total < fraction.done ==> now.progress.done
                == now.progress.total
            &&& now == (ExportPaneView { progress: now.progress, stage: now.stage, ..p })
        }),
{
}

/// The running render ends done, with the file that it wrote, or failed, with
/// the reason. A file for the library is entered there under the name that the
/// render was given.
pub proof fn renders_end_done_or_failed(
    p: ExportPaneView,
    job: ActiveView,
    written: Seq<char>,
    error: Seq<char>,
    project: Project,
    fresh: Seq<char>,
)
    requires
        p.active_job == Some(job),
    ensures
        ({
            let (done, steps) = export_updated(
                p,
                ExportMsgView::Finished(job.id, Ok(written)),
                project,
                fresh,
            );
            let (failed, told) = export_updated(
                p,
                ExportMsgView::Finished(job.id, Err(error)),
                project,
                fresh,
            );
            &&& done.active_job is None && done.phase == ExportPhase::Done && done.written
                == written && done.progress.done == done.progress.total
            &&& job.to_library ==> steps == seq![ExportStepView::Register(written, job.name)]
            &&& !job.to_library ==> steps.len() == 1 && (steps[0] matches ExportStepView::Notify(
                _,
                bad,
            ) && !bad)
            &&& failed.active_job is None && failed.phase == ExportPhase::Failed && failed.message
                == error && failed.written == p.written
            &&& told.len() == 1 && (told[0] matches ExportStepView::Notify(_, bad) && bad)
        }),
{
}

/// A render that is called off no longer runs and is remembered as called off;
/// the sheet is ready for the next one. Without a render there is nothing to
/// call off.
pub proof fn cancelled_renders_stop(p: ExportPaneView, project: Project, fresh: Seq<char>)
    ensures
        ({
            let (now, steps) = export_updated(p, ExportMsgView::Cancel, project, fresh);
            &&& now.active_job is None
            &&& now.phase == ExportPhase::Idle && now.progress.done == 0
            &&& p.active_job matches Some(job) ==> steps == seq![ExportStepView::CancelRender]
                && now.cancelled_jobs == p.cancelled_jobs.insert(job.id)
            &&& p.active_job is None ==> steps.len() == 0 && now.cancelled_jobs == p.cancelled_jobs
            &&& !p.to_library ==> now.library_output == p.library_output
        }),
{
}

/// The sheet opens on the folder that was found. For the library the file has
/// a fresh name in it, otherwise the name that is typed counts; picking a
/// folder by hand leaves the library.
pub proof fn destinations_are_taken(
    p: ExportPaneView,
    folder: Seq<char>,
    project: Project,
    fresh: Seq<char>,
)
    ensures
        ({
            let library = export_updated(
                p,
                ExportMsgView::DestinationReady(folder, true),
                project,
                fresh,
            ).0;
            let own = export_updated(
                p,
                ExportMsgView::DestinationReady(folder, false),
                project,
                fresh,
            ).0;
            let picked = export_updated(p, ExportMsgView::FolderPicked(folder), project, fresh).0;
            &&& library.open && library.folder == folder && library.to_library
                && library.library_output == Some(joined_path(folder, fresh + ".mp4"@))
            &&& own.open && own.folder == folder && !own.to_library && own.library_output is None
            &&& picked.folder == folder && !picked.to_library && picked.library_output is None
            &&& library.phase == ExportPhase::Idle && own.phase == ExportPhase::Idle
        }),
{
}

/// The file that is settled is the one that was asked for where that is free;
/// otherwise the first of its numbered names that is, and then it is told.
pub proof fn outputs_keep_their_name_where_they_can(requested: Seq<char>, taken: Set<Seq<char>>)
    requires
        stem_of(requested) is Some,
    ensures
        !taken.contains(requested) ==> free_output(requested, taken) == Ok::<
            (Seq<char>, bool),
            Seq<char>,
        >((requested, false)),
        taken.contains(requested) ==> match free_output(requested, taken) {
            Ok((chosen, renamed)) => renamed && exists|n: nat|
                2 <= n <= 10000 && chosen == joined_path(
                    parent_of(requested),
                    stem_of(requested)->0 + " ("@ + #[trigger] decimal(n) + ").mp4"@,
                ) && forall|k: nat|
                    2 <= k < n ==> taken.contains(#[trigger] output_candidate(requested, k)),
            Err(_) => forall|k: nat|
                2 <= k <= 10000 ==> taken.contains(#[trigger] output_candidate(requested, k)),
        },
{
    assert(output_candidate(requested, 1) == requested);
    if taken.contains(requested) {
        lower_numbers_are_taken(requested, taken, 2);
        assert(free_number(requested, taken, 1) == free_number(requested, taken, 2));
        if let Some(n) = free_number(requested, taken, 2) {
            assert(output_candidate(requested, n) == joined_path(
                parent_of(requested),
                stem_of(requested)->0 + " ("@ + decimal(n) + ").mp4"@,
            ));
        }
    }
}

proof fn lower_numbers_are_taken(requested: Seq<char>, taken: Set<Seq<char>>, from: nat)
    ensures
        match free_number(requested, taken, from) {
            Some(n) => from <= n <= 10000 && forall|k: nat|
                from <= k < n ==> taken.contains(#[trigger] output_candidate(requested, k)),
            None => forall|k: nat|
                from <= k <= 10000 ==> taken.contains(#[trigger] output_candidate(requested, k)),
        },
    decreases 10001 - from,
{
    if from <= 10000 && taken.contains(output_candidate(requested, from)) {
        lower_numbers_are_taken(requested, taken, from + 1);
    }
}

/// The sheet shows the file of the running render, then the one that was
/// written.
pub proof fn sheets_show_the_file_in_hand(p: ExportPaneView, job: ActiveView)
    ensures
        p.active_job == Some(job) ==> shown_path(p) == job.output,
        p.active_job is None && p.phase == ExportPhase::Done && p.written.len() > 0 ==> shown_path(
            p,
        ) == p.written,
        p.active_job is None && p.phase != ExportPhase::Done && p.library_output is Some
            ==> Some(shown_path(p)) == p.library_output,
{
}

/// The sheet counts the clips and, where there are any, the titles, and names
/// the encoding with the depth and the encoder that is used.
pub proof fn sheets_count_and_name(clips: nat, titles: nat, codec: Seq<char>)
    ensures
        clips != 1 ==> shown_contents(clips, 0) == decimal(clips) + " clips"@,
        shown_contents(1, 0) == decimal(1) + " clip"@,
        clips != 1 && titles > 1 ==> shown_contents(clips, titles) == decimal(clips) + " clips"@
            + " · "@ + (decimal(titles) + " titles"@),
        shown_encoding(codec, false, false) == codec,
        shown_encoding(codec, true, false) == codec + " 10-bit"@,
        shown_encoding(codec, false, true) == codec + " · hardware"@,
        shown_encoding(codec, true, true) == codec + " 10-bit"@ + " · hardware"@,
{
}

/// The stages of a render are told in the words of the user; one that is not
/// known as it is.
pub proof fn stages_are_told_in_words(stage: Seq<char>)
    ensures
        stage_words("rendering"@) == "Rendering video"@,
        stage_words("mixing audio"@) == "Mixing audio"@,
        stage_words("muxing"@) == "Finalising file"@,
        stage != "rendering"@ && stage != "mixing audio"@ && stage != "muxing"@ ==> stage_words(
            stage,
        ) == stage,
{
    reveal_strlit("rendering");
    reveal_strlit("mixing audio");
    reveal_strlit("muxing");
    assert("rendering"@.len() == 9 && "mixing audio"@.len() == 12 && "muxing"@.len() == 6);
}

/// How long a render still takes is told once a fiftieth of it is done.
pub proof fn remaining_times_are_told_late(p: ExportPaneView)
    ensures
        tells_eta(p) <==> p.phase == ExportPhase::Running && p.progress.done * 50
            > p.progress.total,
{
}

} // verus!
