//! What the handlers of the client ask the program around them to do.

use crate::cloud::requests::{Request, RequestView};
use crate::cloud::rows::{entry_views, AccountEntry, EntryView};
use crate::json::{Json, JsonModel};
use crate::text::{opt, views};
use vstd::prelude::*;
use vstd::string::*;

verus! {

/// A file that goes into a project, and the name it is shown under.
pub struct Import {
    pub path: String,
    pub name: Option<String>,
}

pub struct ImportView {
    pub path: Seq<char>,
    pub name: Option<Seq<char>>,
}

impl View for Import {
    type V = ImportView;

    open spec fn view(&self) -> ImportView {
        ImportView {
            path: self.path@,
            name: opt(self.name),
        }
    }
}

/// The views of a list of imports.
pub open spec fn import_views(v: Seq<Import>) -> Seq<ImportView> {
    Seq::new(v.len(), |i: int| v[i]@)
}

/// A file that is copied to a folder of the user's.
pub struct ExportItem {
    pub id: String,
    pub source: String,
    pub name: String,
}

pub struct ItemView {
    pub id: Seq<char>,
    pub source: Seq<char>,
    pub name: Seq<char>,
}

impl View for ExportItem {
    type V = ItemView;

    open spec fn view(&self) -> ItemView {
        ItemView {
            id: self.id@,
            source: self.source@,
            name: self.name@,
        }
    }
}

/// The views of a list of files to copy.
pub open spec fn item_views(v: Seq<ExportItem>) -> Seq<ItemView> {
    Seq::new(v.len(), |i: int| v[i]@)
}

/// A part of the window that is drawn from the state.
#[derive(Clone, Copy, PartialEq, Eq, Structural)]
pub enum Panel {
    Tasks,
    Assets,
    Personal,
    References,
    Templates,
    Projects,
    Plans,
    Orders,
}

/// One thing to do. The steps of an answer or an action are taken in their
/// order.
pub enum Step {
    /// An error takes the place of the one that is shown and that the form
    /// holds; an empty one takes it away.
    Error(String),
    /// A notice is shown; an empty one takes the shown one away.
    Notice(String),
    Job(String, Request),
    Draw(Panel),
    Page(i32),
    GenerationStep(i32),
    PickerOpen(bool),
    LoadPage(i32),
    /// The account forms are opened, to go on to a page afterwards.
    ShowAuth(Option<i32>),
    /// The files of an account are read: its finished downloads and what its
    /// tasks were made from.
    OpenAccount(String, String),
    RefreshQuote,
    RefreshModels,
    RefreshAssets,
    ContinueResults,
    ContinuePicker,
    /// A file is uploaded for a purpose.
    Upload(String, String),
    UploadForTeam(String, String, String),
    /// A file of the personal library is used as a reference, under a name.
    UploadPersonal(String, String),
    DownloadTask(String, String, String),
    DownloadAsset(String, String),
    /// Files are handed to a canvas or a clip project.
    Handoff(String, Vec<Import>),
    /// A file goes into the open project, or waits for one.
    ImportNamed(String, String),
    /// Files go into the open project.
    ImportPaths(Vec<Import>),
    /// Files are copied to a folder that the user picks in a dialog of
    /// this title.
    BeginExport(Vec<ExportItem>, String),
    OpenFile(String),
    OpenLibraryFolder,
    /// Files to import are picked in a dialog of this title.
    PickImports(String),
    PersonalPreview(String),
    FinishPreview(String, String, Option<u64>),
    ApplyTemplate(String),
    RefillTask(String),
    SaveHistory,
    SaveSnapshots,
    /// The editor of a template is closed.
    CloseEditor,
    CanvasNew(Vec<Import>),
    CanvasCurrent(Vec<Import>),
    CanvasOpen(String, Vec<Import>),
    GalleryOpen(bool),
    ClipCreateOpen(bool),
    /// The list of canvas projects is read again.
    RefreshProjects,
    SavePreferences,
    /// The lists of the form are updated for the chosen model.
    UpdateOptions,
    UpdateMention,
    TeamChanged,
    /// The choice of the file picker is held to its context.
    SyncPicker,
    /// The choice in the personal library is dropped.
    ClearChoice,
    /// A team is asked for, to save the result of a task to.
    SaveTeamTask(String),
    /// A file of a source is shown large.
    OpenPreview(String, String),
    /// A file of the personal library becomes a reference.
    PersonalReference(String),
    CloseClipProject,
    OpenRecentClip(String),
    /// The members of the team are shown.
    Members(Vec<AccountEntry>),
    /// The changes of the credits are shown.
    Ledger(Vec<AccountEntry>),
    /// The clip projects are searched.
    ClipSearch(String),
    /// The canvas projects are searched.
    CanvasSearch(String),
    /// The list of clip projects is drawn.
    DrawClips,
    /// The copy that runs is told to stop.
    CancelExport,
    /// References are picked among files with these extensions.
    BrowseReferences(Vec<String>),
    /// Files for the team are picked.
    BrowseAssets,
    /// A file that replaces a reference is picked among files with these
    /// extensions.
    BrowseReplacement(String, Vec<String>),
    /// The folder of finished results is picked.
    PickFolder,
    CreatorMode(i32),
    /// The dialog that asks before results are removed is shown for so many,
    /// or closed.
    TaskDelete(Option<i32>),
    /// The files that waited to become references are used.
    UsePending,
}

pub enum StepView {
    Error(Seq<char>),
    Notice(Seq<char>),
    Job(Seq<char>, RequestView),
    Draw(Panel),
    Page(i32),
    GenerationStep(i32),
    PickerOpen(bool),
    LoadPage(i32),
    ShowAuth(Option<i32>),
    OpenAccount(Seq<char>, Seq<char>),
    RefreshQuote,
    RefreshModels,
    RefreshAssets,
    ContinueResults,
    ContinuePicker,
    Upload(Seq<char>, Seq<char>),
    UploadForTeam(Seq<char>, Seq<char>, Seq<char>),
    UploadPersonal(Seq<char>, Seq<char>),
    DownloadTask(Seq<char>, Seq<char>, Seq<char>),
    DownloadAsset(Seq<char>, Seq<char>),
    Handoff(Seq<char>, Seq<ImportView>),
    ImportNamed(Seq<char>, Seq<char>),
    ImportPaths(Seq<ImportView>),
    BeginExport(Seq<ItemView>, Seq<char>),
    OpenFile(Seq<char>),
    OpenLibraryFolder,
    PickImports(Seq<char>),
    PersonalPreview(Seq<char>),
    FinishPreview(Seq<char>, Seq<char>, Option<u64>),
    ApplyTemplate(Seq<char>),
    RefillTask(Seq<char>),
    SaveHistory,
    SaveSnapshots,
    CloseEditor,
    CanvasNew(Seq<ImportView>),
    CanvasCurrent(Seq<ImportView>),
    CanvasOpen(Seq<char>, Seq<ImportView>),
    GalleryOpen(bool),
    ClipCreateOpen(bool),
    RefreshProjects,
    SavePreferences,
    UpdateOptions,
    UpdateMention,
    TeamChanged,
    SyncPicker,
    ClearChoice,
    SaveTeamTask(Seq<char>),
    OpenPreview(Seq<char>, Seq<char>),
    PersonalReference(Seq<char>),
    CloseClipProject,
    OpenRecentClip(Seq<char>),
    Members(Seq<EntryView>),
    Ledger(Seq<EntryView>),
    ClipSearch(Seq<char>),
    CanvasSearch(Seq<char>),
    DrawClips,
    CancelExport,
    BrowseReferences(Seq<Seq<char>>),
    BrowseAssets,
    BrowseReplacement(Seq<char>, Seq<Seq<char>>),
    PickFolder,
    CreatorMode(i32),
    TaskDelete(Option<i32>),
    UsePending,
}

impl View for Step {
    type V = StepView;

    open spec fn view(&self) -> StepView {
        match *self {
            Step::Error(a) => StepView::Error(a@),
            Step::Notice(a) => StepView::Notice(a@),
            Step::Job(a, b) => StepView::Job(a@, b@),
            Step::Draw(a) => StepView::Draw(a),
            Step::Page(a) => StepView::Page(a),
            Step::GenerationStep(a) => StepView::GenerationStep(a),
            Step::PickerOpen(a) => StepView::PickerOpen(a),
            Step::LoadPage(a) => StepView::LoadPage(a),
            Step::ShowAuth(a) => StepView::ShowAuth(a),
            Step::OpenAccount(a, b) => StepView::OpenAccount(a@, b@),
            Step::RefreshQuote => StepView::RefreshQuote,
            Step::RefreshModels => StepView::RefreshModels,
            Step::RefreshAssets => StepView::RefreshAssets,
            Step::ContinueResults => StepView::ContinueResults,
            Step::ContinuePicker => StepView::ContinuePicker,
            Step::Upload(a, b) => StepView::Upload(a@, b@),
            Step::UploadForTeam(a, b, c) => StepView::UploadForTeam(a@, b@, c@),
            Step::UploadPersonal(a, b) => StepView::UploadPersonal(a@, b@),
            Step::DownloadTask(a, b, c) => StepView::DownloadTask(a@, b@, c@),
            Step::DownloadAsset(a, b) => StepView::DownloadAsset(a@, b@),
            Step::Handoff(a, b) => StepView::Handoff(a@, import_views(b@)),
            Step::ImportNamed(a, b) => StepView::ImportNamed(a@, b@),
            Step::ImportPaths(a) => StepView::ImportPaths(import_views(a@)),
            Step::BeginExport(a, b) => StepView::BeginExport(item_views(a@), b@),
            Step::OpenFile(a) => StepView::OpenFile(a@),
            Step::OpenLibraryFolder => StepView::OpenLibraryFolder,
            Step::PickImports(a) => StepView::PickImports(a@),
            Step::PersonalPreview(a) => StepView::PersonalPreview(a@),
            Step::FinishPreview(a, b, c) => StepView::FinishPreview(a@, b@, c),
            Step::ApplyTemplate(a) => StepView::ApplyTemplate(a@),
            Step::RefillTask(a) => StepView::RefillTask(a@),
            Step::SaveHistory => StepView::SaveHistory,
            Step::SaveSnapshots => StepView::SaveSnapshots,
            Step::CloseEditor => StepView::CloseEditor,
            Step::CanvasNew(a) => StepView::CanvasNew(import_views(a@)),
            Step::CanvasCurrent(a) => StepView::CanvasCurrent(import_views(a@)),
            Step::CanvasOpen(a, b) => StepView::CanvasOpen(a@, import_views(b@)),
            Step::GalleryOpen(a) => StepView::GalleryOpen(a),
            Step::ClipCreateOpen(a) => StepView::ClipCreateOpen(a),
            Step::RefreshProjects => StepView::RefreshProjects,
            Step::SavePreferences => StepView::SavePreferences,
            Step::UpdateOptions => StepView::UpdateOptions,
            Step::UpdateMention => StepView::UpdateMention,
            Step::TeamChanged => StepView::TeamChanged,
            Step::SyncPicker => StepView::SyncPicker,
            Step::ClearChoice => StepView::ClearChoice,
            Step::SaveTeamTask(a) => StepView::SaveTeamTask(a@),
            Step::OpenPreview(a, b) => StepView::OpenPreview(a@, b@),
            Step::PersonalReference(a) => StepView::PersonalReference(a@),
            Step::CloseClipProject => StepView::CloseClipProject,
            Step::OpenRecentClip(a) => StepView::OpenRecentClip(a@),
            Step::Members(a) => StepView::Members(entry_views(a@)),
            Step::Ledger(a) => StepView::Ledger(entry_views(a@)),
            Step::ClipSearch(a) => StepView::ClipSearch(a@),
            Step::CanvasSearch(a) => StepView::CanvasSearch(a@),
            Step::DrawClips => StepView::DrawClips,
            Step::CancelExport => StepView::CancelExport,
            Step::BrowseReferences(a) => StepView::BrowseReferences(views(a@)),
            Step::BrowseAssets => StepView::BrowseAssets,
            Step::BrowseReplacement(a, b) => StepView::BrowseReplacement(a@, views(b@)),
            Step::PickFolder => StepView::PickFolder,
            Step::CreatorMode(a) => StepView::CreatorMode(a),
            Step::TaskDelete(a) => StepView::TaskDelete(a),
            Step::UsePending => StepView::UsePending,
        }
    }
}

/// The views of a list of steps.
pub open spec fn step_views(v: Seq<Step>) -> Seq<StepView> {
    Seq::new(v.len(), |i: int| v[i]@)
}

/// `steps` with one more where a condition holds.
pub open spec fn step_if(steps: Seq<StepView>, condition: bool, step: StepView) -> Seq<StepView> {
    if condition {
        steps.push(step)
    } else {
        steps
    }
}

/// No steps.
pub fn none() -> (r: Vec<Step>)
    ensures
        step_views(r@) == Seq::<StepView>::empty(),
{
    let r: Vec<Step> = Vec::new();
    proof {
        assert(step_views(r@) =~= Seq::<StepView>::empty());
    }
    r
}

/// One step.
pub fn one(step: Step) -> (r: Vec<Step>)
    ensures
        step_views(r@) == seq![step@],
{
    let mut r: Vec<Step> = Vec::new();
    r.push(step);
    proof {
        assert(step_views(r@) =~= seq![step@]);
    }
    r
}

/// Adds a step.
pub fn then_do(steps: &mut Vec<Step>, step: Step)
    ensures
        step_views(final(steps)@) == step_views(old(steps)@).push(step@),
{
    let ghost before = steps@;
    let ghost view = step@;
    steps.push(step);
    proof {
        assert(step_views(steps@) =~= step_views(before).push(view));
    }
}

/// Adds the steps of another list.
pub fn then_all(steps: &mut Vec<Step>, more: Vec<Step>)
    ensures
        step_views(final(steps)@) == step_views(old(steps)@) + step_views(more@),
{
    let ghost before = steps@;
    let ghost added = more@;
    let mut rest: Vec<Step> = more;
    steps.append(&mut rest);
    proof {
        assert(step_views(steps@) =~= step_views(before) + step_views(added));
    }
}

/// Shows an error.
pub fn fail(message: &str) -> (r: Vec<Step>)
    ensures
        step_views(r@) == seq![StepView::Error(message@)],
{
    one(Step::Error(message.to_owned()))
}

/// The step that starts a plain request.
pub open spec fn ask(
    name: Seq<char>,
    method: Seq<char>,
    path: Seq<char>,
    body: JsonModel,
) -> StepView {
    StepView::Job(name, crate::cloud::requests::plain_request(method, path, body))
}

/// Starts a plain request.
pub fn asking(name: &str, method: &str, path: &str, body: Json) -> (r: Step)
    ensures
        r@ == ask(name@, method@, path@, body@),
{
    Step::Job(name.to_owned(), crate::cloud::requests::request(method, path, body))
}

/// Asks for a document.
pub open spec fn fetch(name: Seq<char>, path: Seq<char>) -> StepView {
    ask(name, "GET"@, path, JsonModel::Null)
}

pub fn fetching(name: &str, path: &str) -> (r: Step)
    ensures
        r@ == fetch(name@, path@),
{
    asking(name, "GET", path, Json::Null)
}

} // verus!
