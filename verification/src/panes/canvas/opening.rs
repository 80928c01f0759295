//! Opening, importing, saving and exporting: what the canvas decides around
//! the work on files.

use crate::panes::canvas::codec::{can_resize, is_scaled, resized};
use crate::panes::canvas::edits::{id_of, last_layer, pixels_of, topmost_layer};
use crate::panes::canvas::frame::{
    centre_on_canvas, centred_view, checked_frame_bytes, frame_bytes, size_fault,
    transparent_view, validate_canvas_dimensions, Frame, FrameView,
};
use crate::panes::canvas::history::{bump, bumped, no_history, History};
use crate::panes::canvas::layers::is_addressable;
use crate::panes::canvas::package::{bare_name, export_name, save_name};
use crate::panes::canvas::painting::{is_complete, stroke_released};
use crate::panes::canvas::pane::{has_changes, CanvasPane, PaneView, Point};
use crate::panes::canvas::store::{after, empty_store, next_number, PixelStore, StoreView};
use crate::panes::canvas::tree::{blank, Document, DocumentView};
use crate::paths::{file_name, file_name_of, file_stem, stem_of};
use crate::text::{cat, cat3, opt, same, verdict, views};
use std::collections::HashMap;
use vstd::prelude::*;
use vstd::string::*;

verus! {

/// What the canvas asks the program around it to do.
pub enum CanvasStep {
    /// The view is published again.
    SyncView,
    /// The document is composed and shown.
    Render,
    /// The view starts over with what was opened.
    FitView,
    /// The pixels of an identity go to the device; the flag marks a mask.
    Upload(u64, bool),
    /// The stroke goes on at a place.
    Paint(Point),
    /// Something is told; the flag marks an error.
    Notify(String, bool),
    /// A handoff to the canvas is over.
    Report(bool, String),
    /// The remembered projects changed.
    RegistryChanged,
    /// A project is remembered.
    Remember(String),
    /// A file or a project is read and opened.
    Open(String),
    /// Pictures are read and handed over.
    Handoff(Vec<String>),
    /// The document is composed and written under a name; the flag says that
    /// it goes to the library.
    Export(String, bool),
    /// An exported picture is taken into the library.
    Register(String),
    /// The document is saved to a path.
    SaveTo(String),
    /// The document is saved to a path that is asked for; a name is proposed.
    AskSave(String),
    /// The document is saved to its path, or to a new one.
    SaveFirst,
    /// The document is saved in the background after some milliseconds.
    AutoSave(u64),
}

#[verifier::ext_equal]
pub enum CanvasStepView {
    SyncView,
    Render,
    FitView,
    Upload(u64, bool),
    Paint(Point),
    Notify(Seq<char>, bool),
    Report(bool, Seq<char>),
    RegistryChanged,
    Remember(Seq<char>),
    Open(Seq<char>),
    Handoff(Seq<Seq<char>>),
    Export(Seq<char>, bool),
    Register(Seq<char>),
    SaveTo(Seq<char>),
    AskSave(Seq<char>),
    SaveFirst,
    AutoSave(u64),
}

impl View for CanvasStep {
    type V = CanvasStepView;

    open spec fn view(&self) -> CanvasStepView {
        match *self {
            CanvasStep::SyncView => CanvasStepView::SyncView,
            CanvasStep::Render => CanvasStepView::Render,
            CanvasStep::FitView => CanvasStepView::FitView,
            CanvasStep::Upload(id, mask) => CanvasStepView::Upload(id, mask),
            CanvasStep::Paint(at) => CanvasStepView::Paint(at),
            CanvasStep::Notify(s, error) => CanvasStepView::Notify(s@, error),
            CanvasStep::Report(success, s) => CanvasStepView::Report(success, s@),
            CanvasStep::RegistryChanged => CanvasStepView::RegistryChanged,
            CanvasStep::Remember(s) => CanvasStepView::Remember(s@),
            CanvasStep::Open(s) => CanvasStepView::Open(s@),
            CanvasStep::Handoff(v) => CanvasStepView::Handoff(views(v@)),
            CanvasStep::Export(s, library) => CanvasStepView::Export(s@, library),
            CanvasStep::Register(s) => CanvasStepView::Register(s@),
            CanvasStep::SaveTo(s) => CanvasStepView::SaveTo(s@),
            CanvasStep::AskSave(s) => CanvasStepView::AskSave(s@),
            CanvasStep::SaveFirst => CanvasStepView::SaveFirst,
            CanvasStep::AutoSave(ms) => CanvasStepView::AutoSave(ms),
        }
    }
}

/// The views of steps.
pub open spec fn steps_view(v: Seq<CanvasStep>) -> Seq<CanvasStepView> {
    Seq::new(v.len(), |i: int| v[i]@)
}

/// No steps.
pub fn no_steps() -> (r: Vec<CanvasStep>)
    ensures
        steps_view(r@) == Seq::<CanvasStepView>::empty(),
{
    let r: Vec<CanvasStep> = Vec::new();
    proof {
        assert(steps_view(r@) =~= Seq::<CanvasStepView>::empty());
    }
    r
}

/// One more step.
pub fn then_step(steps: Vec<CanvasStep>, step: CanvasStep) -> (r: Vec<CanvasStep>)
    ensures
        steps_view(r@) == steps_view(steps@).push(step@),
{
    let mut out: Vec<CanvasStep> = steps;
    let ghost before = out@;
    out.push(step);
    proof {
        assert(steps_view(out@) =~= steps_view(before).push(step@));
    }
    out
}

/// One step.
pub fn one_step(step: CanvasStep) -> (r: Vec<CanvasStep>)
    ensures
        steps_view(r@) == seq![step@],
{
    let r: Vec<CanvasStep> = then_step(no_steps(), step);
    proof {
        assert(steps_view(r@) =~= seq![step@]);
    }
    r
}

/// Steps after steps.
pub fn then_steps(steps: Vec<CanvasStep>, more: Vec<CanvasStep>) -> (r: Vec<CanvasStep>)
    ensures
        steps_view(r@) == steps_view(steps@) + steps_view(more@),
{
    let mut out: Vec<CanvasStep> = steps;
    let mut rest: Vec<CanvasStep> = more;
    let ghost a = out@;
    let ghost b = rest@;
    out.append(&mut rest);
    proof {
        assert(steps_view(out@) =~= steps_view(a) + steps_view(b));
    }
    out
}

/// A picture that is imported: whole, and fitted to the canvas.
pub struct Picture {
    pub whole: Frame,
    pub fitted: Frame,
}

/// A file that is imported: its path, and its picture or why it has none.
pub struct Incoming {
    pub path: String,
    pub picture: Result<Picture, String>,
}

#[verifier::ext_equal]
pub struct IncomingView {
    pub path: Seq<char>,
    pub picture: Result<(FrameView, FrameView), Seq<char>>,
}

impl View for Incoming {
    type V = IncomingView;

    open spec fn view(&self) -> IncomingView {
        IncomingView {
            path: self.path@,
            picture: match self.picture {
                Ok(p) => Ok((p.whole@, p.fitted@)),
                Err(e) => Err(e@),
            },
        }
    }
}

/// The views of files that are imported.
pub open spec fn incoming_views(v: Seq<Incoming>) -> Seq<IncomingView> {
    Seq::new(v.len(), |i: int| v[i]@)
}

/// A file that is imported, its picture fitted to a size.
pub fn prepare_import(path: String, read: Result<Frame, String>, size: (u32, u32)) -> (r: Incoming)
    requires
        read matches Ok(frame) ==> frame@.is_whole() && frame.width > 0 && frame.height > 0
            && (size != (frame.width, frame.height) ==> can_resize((frame.width, frame.height), size)),
        size.0 > 0,
        size.1 > 0,
    ensures
        r.path@ == path@,
        match (read, r.picture) {
            (Ok(frame), Ok(picture)) => picture.whole@ == frame@ && picture.fitted.width == size.0
                && picture.fitted.height == size.1 && picture.fitted@.is_whole() && (size == (
                frame.width,
                frame.height,
            ) ==> picture.fitted@ == frame@) && is_scaled(
                frame@.pixels,
                (frame.width, frame.height),
                picture.fitted@.pixels,
                size,
            ),
            (Err(a), Err(b)) => a@ == b@,
            _ => false,
        },
{
    Incoming {
        path,
        picture: match read {
            Ok(frame) => {
                let whole: Frame = frame.copy();
                Ok(Picture { whole, fitted: resized(frame, size) })
            },
            Err(e) => Err(e),
        },
    }
}

/// Why files cannot be imported: what is said of the first that has no
/// picture.
pub open spec fn import_fault(list: Seq<IncomingView>, from: int) -> Option<Seq<char>>
    decreases list.len() - from,
{
    if from < 0 || from >= list.len() {
        None
    } else {
        match list[from].picture {
            Err(e) => Some("无法导入 "@ + list[from].path + "："@ + e),
            Ok(_) => import_fault(list, from + 1),
        }
    }
}

fn find_fault(list: &Vec<Incoming>) -> (r: Option<String>)
    ensures
        opt(r) == import_fault(incoming_views(list@), 0),
{
    let ghost all = incoming_views(list@);
    let mut i: usize = 0;
    while i < list.len()
        invariant
            i <= list.len(),
            all == incoming_views(list@),
            import_fault(all, 0) == import_fault(all, i as int),
        decreases list.len() - i,
    {
        proof {
            assert(all[i as int] == list@[i as int]@);
        }
        if let Err(e) = &list[i].picture {
            return Some(
                cat3(cat("无法导入 ", list[i].path.as_str()).as_str(), "：", e.as_str()),
            );
        }
        i = i + 1;
    }
    None
}

/// Whether files can be imported, and what is told where one cannot.
pub open spec fn import_checked(list: Seq<IncomingView>) -> (bool, Seq<CanvasStepView>) {
    if list.len() == 0 {
        (false, Seq::empty())
    } else {
        match import_fault(list, 0) {
            Some(message) => (false, seq![CanvasStepView::Notify(message, true)]),
            None => (true, Seq::empty()),
        }
    }
}

/// Whether files can be imported, and what is told where one cannot.
pub fn validate_import_paths(list: &Vec<Incoming>) -> (r: (bool, Vec<CanvasStep>))
    ensures
        (r.0, steps_view(r.1@)) == import_checked(incoming_views(list@)),
{
    if list.len() == 0 {
        return (false, no_steps());
    }
    match find_fault(list) {
        Some(message) => (false, one_step(CanvasStep::Notify(message, true))),
        None => (true, no_steps()),
    }
}

/// A text, or nothing where there is none.
pub open spec fn or_empty(s: Option<Seq<char>>) -> Seq<char> {
    match s {
        Some(t) => t,
        None => ""@,
    }
}

fn text_or_empty(s: Option<String>) -> (r: String)
    ensures
        r@ == or_empty(opt(s)),
{
    match s {
        Some(t) => t,
        None => "".to_owned(),
    }
}

/// The canvas with a picture opened: a document of one layer.
pub open spec fn image_opened(p: PaneView, path: Seq<char>, frame: FrameView) -> PaneView {
    PaneView {
        document: Some(
            blank(frame.width, frame.height).with_layer(or_empty(stem_of(path)), 1),
        ),
        store: empty_store().with(frame, p.versions),
        versions: after(p.versions),
        layer: Some(1),
        active: Some(1),
        selection: None,
        marquee: None,
        history: no_history(),
        revision: bumped(p.revision),
        saved_revision: 0,
        document_generation: bumped(p.document_generation),
        autosave_inflight: None,
        pending_open: None,
        open_confirm: false,
        project_path: None,
        name: or_empty(file_name_of(path)),
        failed: false,
        pixel_revisions: Map::empty(),
        ..p
    }
}

/// The canvas after something could not be opened: it is told once.
pub open spec fn open_failed(p: PaneView, error: Seq<char>) -> (PaneView, Seq<CanvasStepView>) {
    if p.failed {
        (p, Seq::empty())
    } else {
        (
            PaneView { failed: true, ..p },
            seq![CanvasStepView::Notify("Could not open "@ + error, true)],
        )
    }
}

/// The canvas after a picture was read.
pub open spec fn image_read(p: PaneView, path: Seq<char>, read: Result<FrameView, Seq<char>>) -> (
    PaneView,
    Seq<CanvasStepView>,
) {
    match read {
        Ok(frame) => (
            image_opened(p, path, frame),
            seq![CanvasStepView::FitView, CanvasStepView::Render],
        ),
        Err(e) => open_failed(p, e),
    }
}

/// The fitted picture fits the canvas.
pub open spec fn has_room(d: DocumentView, fitted: FrameView) -> bool {
    fitted.is_whole() && fitted.width <= d.width && fitted.height <= d.height
}

/// The canvas with a picture as one more layer, in the middle.
pub open spec fn layer_imported(p: PaneView, path: Seq<char>, fitted: FrameView) -> PaneView {
    match p.document {
        Some(d) => if is_addressable(d) {
            let frame = if has_room(d, fitted) {
                centred_view((d.width, d.height), fitted)
            } else {
                transparent_view(d.width, d.height)
            };
            PaneView {
                document: Some(d.with_layer(or_empty(stem_of(path)), p.store.next)),
                store: p.store.with(frame, p.versions),
                versions: after(p.versions),
                active: Some(d.next),
                layer: Some(p.store.next),
                ..p
            }
        } else {
            p
        },
        None => p,
    }
}

/// The canvas with the first files of a list as layers, from a place on.
pub open spec fn layers_imported(p: PaneView, list: Seq<IncomingView>, from: int, to: int) -> PaneView
    decreases to - from,
{
    if to <= from {
        p
    } else {
        let before = layers_imported(p, list, from, to - 1);
        match list[to - 1].picture {
            Ok((_, fitted)) => layer_imported(before, list[to - 1].path, fitted),
            Err(_) => before,
        }
    }
}

/// The canvas after files were imported, what is to be done, and whether it
/// worked. Where nothing is open the first is opened.
pub open spec fn files_imported(p: PaneView, list: Seq<IncomingView>) -> (
    PaneView,
    Seq<CanvasStepView>,
    bool,
) {
    let (fit, told) = import_checked(list);
    if !fit {
        (p, told, false)
    } else {
        let opens = p.document is None;
        let open = if opens {
            match list[0].picture {
                Ok((whole, _)) => image_opened(p, list[0].path, whole),
                Err(_) => p,
            }
        } else {
            p
        };
        (
            layers_imported(
                open,
                list,
                if opens {
                    1
                } else {
                    0
                },
                list.len() as int,
            ),
            (if opens {
                seq![CanvasStepView::FitView, CanvasStepView::Render]
            } else {
                Seq::empty()
            }).push(CanvasStepView::Render),
            true,
        )
    }
}

/// A project that was read: its document, its bitmaps, and its name.
pub struct Project {
    pub document: Document,
    pub bitmaps: Vec<(u64, Frame)>,
    pub name: String,
}

#[verifier::ext_equal]
pub struct ProjectView {
    pub document: DocumentView,
    pub bitmaps: Seq<(u64, FrameView)>,
    pub name: Seq<char>,
}

impl View for Project {
    type V = ProjectView;

    open spec fn view(&self) -> ProjectView {
        ProjectView {
            document: self.document@,
            bitmaps: Seq::new(
                self.bitmaps@.len(),
                |i: int| (self.bitmaps@[i].0, self.bitmaps@[i].1@),
            ),
            name: self.name@,
        }
    }
}

/// The store of the bitmaps of a project.
pub open spec fn project_store(bitmaps: Seq<(u64, FrameView)>, version: u64) -> StoreView
    decreases bitmaps.len(),
{
    if bitmaps.len() == 0 {
        empty_store()
    } else {
        project_store(bitmaps.drop_last(), version).restored(
            bitmaps.last().0,
            bitmaps.last().1,
            version,
        )
    }
}

/// The canvas with a project opened.
pub open spec fn project_opened(p: PaneView, path: Seq<char>, project: ProjectView) -> PaneView {
    let d = project.document;
    let top = last_layer(d.children, d.children.len() as int);
    PaneView {
        document: Some(d),
        store: project_store(project.bitmaps, p.versions),
        versions: after(p.versions),
        active: id_of(top),
        layer: pixels_of(top),
        selection: None,
        marquee: None,
        history: no_history(),
        revision: bumped(p.revision),
        saved_revision: bumped(p.revision),
        document_generation: bumped(p.document_generation),
        autosave_inflight: None,
        pending_open: None,
        open_confirm: false,
        project_path: Some(path),
        name: project.name,
        failed: false,
        pixel_revisions: Map::empty(),
        ..p
    }
}

/// The canvas after a project was read: what waits for it is handed over.
pub open spec fn project_read(p: PaneView, path: Seq<char>, read: Result<ProjectView, Seq<char>>) -> (
    PaneView,
    Seq<CanvasStepView>,
) {
    let waiting = p.pending_handoff_paths;
    let free = PaneView { pending_handoff_paths: None, ..p };
    match read {
        Ok(project) => (
            project_opened(free, path, project),
            seq![
                CanvasStepView::FitView,
                CanvasStepView::Render,
                CanvasStepView::Remember(path),
                CanvasStepView::RegistryChanged,
            ] + (match waiting {
                Some(paths) => seq![CanvasStepView::Handoff(paths)],
                None => Seq::empty(),
            }),
        ),
        Err(e) => {
            let (after, told) = open_failed(free, e);
            (
                after,
                (if waiting is Some {
                    seq![CanvasStepView::Report(false, e)]
                } else {
                    Seq::empty()
                }) + told,
            )
        },
    }
}

/// The canvas after something was asked to be opened: changes come first.
pub open spec fn open_requested(p: PaneView, path: Seq<char>) -> (PaneView, Seq<CanvasStepView>) {
    let over = stroke_released(p);
    if has_changes(over) {
        (PaneView { pending_open: Some(path), open_confirm: true, ..over }, Seq::empty())
    } else {
        (over, seq![CanvasStepView::Open(path)])
    }
}

/// How a save that was asked for went, by whether the package was written: one
/// that another has overtaken failed.
pub fn save_comp(written: Result<bool, String>) -> (r: Result<(), String>)
    ensures
        verdict(r) == match written {
            Ok(true) => Ok(()),
            Ok(false) => Err("save: a newer revision superseded this save"@),
            Err(e) => Err(e@),
        },
{
    match written {
        Ok(true) => Ok(()),
        Ok(false) => Err("save: a newer revision superseded this save".to_owned()),
        Err(e) => Err(e),
    }
}

/// How a save went: where to, whether the package was written, and whether the
/// project was remembered.
pub struct SaveReport {
    pub path: String,
    pub written: Result<(), String>,
    pub remembered: Result<(), String>,
}

#[verifier::ext_equal]
pub struct SaveView {
    pub path: Seq<char>,
    pub written: Result<(), Seq<char>>,
    pub remembered: Result<(), Seq<char>>,
}

impl View for SaveReport {
    type V = SaveView;

    open spec fn view(&self) -> SaveView {
        SaveView {
            path: self.path@,
            written: verdict(self.written),
            remembered: verdict(self.remembered),
        }
    }
}

/// The canvas after a save, and what the save came to.
pub open spec fn pane_saved(p: PaneView, report: SaveView) -> (PaneView, Result<(), Seq<char>>) {
    match report.written {
        Err(e) => (p, Err(e)),
        Ok(()) => (
            PaneView { saved_revision: p.revision, project_path: Some(report.path), ..p },
            report.remembered,
        ),
    }
}

/// A new canvas in place of what is open.
pub open spec fn pane_blanked(p: PaneView) -> PaneView {
    PaneView {
        document: Some(blank(1920, 1080).with_layer("图层 1"@, 1)),
        store: empty_store().with(transparent_view(1920, 1080), p.versions),
        versions: after(p.versions),
        layer: Some(1),
        active: Some(1),
        selection: None,
        marquee: None,
        history: no_history(),
        project_path: None,
        name: "未命名画布"@,
        revision: bumped(p.revision),
        document_generation: bumped(p.document_generation),
        autosave_inflight: None,
        failed: false,
        ..p
    }
}

/// The canvas after a new one was asked for, what is to be done, and whether
/// it was made. Changes are saved first.
pub open spec fn blank_asked(p: PaneView, report: Option<SaveView>) -> (
    PaneView,
    Seq<CanvasStepView>,
    bool,
) {
    let made = seq![CanvasStepView::FitView, CanvasStepView::Render];
    if has_changes(p) {
        match report {
            None => (p, seq![CanvasStepView::SaveFirst], false),
            Some(report) => {
                let (saved, outcome) = pane_saved(p, report);
                match outcome {
                    Err(e) => (
                        saved,
                        seq![CanvasStepView::Notify("画布保存失败："@ + e, true)],
                        false,
                    ),
                    Ok(()) => (
                        pane_blanked(saved),
                        seq![CanvasStepView::RegistryChanged] + made,
                        true,
                    ),
                }
            },
        }
    } else {
        (pane_blanked(p), made, true)
    }
}

/// What is told where the import of a handoff failed.
pub open spec fn handoff_detail(success: bool) -> Seq<char> {
    if success {
        ""@
    } else {
        "画布素材导入失败，请重试"@
    }
}

impl CanvasPane {
    /// Opens a picture.
    pub fn open_image(&mut self, path: &str, frame: Frame)
        ensures
            final(self)@ == image_opened(old(self)@, path@, frame@),
    {
        broadcast use vstd::std_specs::hash::group_hash_axioms;

        let mut document: Document = Document::new(frame.width, frame.height);
        self.store = PixelStore::new();
        self.pixel_revisions = HashMap::new();
        let pixels: u64 = self.store.put(frame, self.versions);
        self.versions = next_number(self.versions);
        let base: u64 = document.new_layer(text_or_empty(file_stem(path)), pixels);
        self.document = Some(document);
        self.layer = Some(pixels);
        self.active = Some(base);
        self.selection = None;
        self.marquee = None;
        self.history = History::new();
        self.revision = bump(self.revision);
        self.saved_revision = 0;
        self.document_generation = bump(self.document_generation);
        self.autosave_inflight = None;
        self.pending_open = None;
        self.open_confirm = false;
        self.project_path = None;
        self.name = text_or_empty(file_name(path));
        self.failed = false;
    }

    fn fail_open(&mut self, error: &str) -> (r: Vec<CanvasStep>)
        ensures
            (final(self)@, steps_view(r@)) == open_failed(old(self)@, error@),
    {
        if self.failed {
            return no_steps();
        }
        self.failed = true;
        one_step(CanvasStep::Notify(cat("Could not open ", error), true))
    }

    /// A picture was read.
    pub fn image_ready(&mut self, path: &str, read: Result<Frame, String>) -> (r: Vec<CanvasStep>)
        ensures
            (final(self)@, steps_view(r@)) == image_read(
                old(self)@,
                path@,
                crate::panes::canvas::codec::frame_outcome(read),
            ),
    {
        match read {
            Ok(frame) => {
                self.open_image(path, frame);
                let r: Vec<CanvasStep> = then_step(one_step(CanvasStep::FitView), CanvasStep::Render);
                proof {
                    assert(steps_view(r@) =~= seq![CanvasStepView::FitView, CanvasStepView::Render]);
                }
                r
            },
            Err(e) => self.fail_open(e.as_str()),
        }
    }

    fn import_layer(&mut self, path: &str, fitted: &Frame)
        ensures
            final(self)@ == layer_imported(old(self)@, path@, fitted@),
    {
        let mut document: Option<Document> = None;
        std::mem::swap(&mut document, &mut self.document);
        if let Some(mut d) = document {
            if checked_frame_bytes(d.width, d.height).is_some() {
                let frame: Frame = if is_complete(fitted) && fitted.width <= d.width
                    && fitted.height <= d.height {
                    centre_on_canvas(d.width, d.height, fitted)
                } else {
                    Frame::transparent(d.width, d.height)
                };
                let pixels: u64 = self.store.put(frame, self.versions);
                self.versions = next_number(self.versions);
                let id: u64 = d.new_layer(text_or_empty(file_stem(path)), pixels);
                self.active = Some(id);
                self.layer = Some(pixels);
            }
            self.document = Some(d);
        }
    }

    /// Imports pictures as layers; the flag says whether it worked.
    pub fn import_layers(&mut self, list: &Vec<Incoming>) -> (r: (Vec<CanvasStep>, bool))
        ensures
            (final(self)@, steps_view(r.0@), r.1) == files_imported(
                old(self)@,
                incoming_views(list@),
            ),
    {
        let ghost all = incoming_views(list@);
        let (fit, told): (bool, Vec<CanvasStep>) = validate_import_paths(list);
        if !fit {
            return (told, false);
        }
        let mut steps: Vec<CanvasStep> = no_steps();
        let mut from: usize = 0;
        proof {
            assert(all[0] == list@[0]@);
        }
        if self.document.is_none() {
            if let Ok(picture) = &list[0].picture {
                self.open_image(list[0].path.as_str(), picture.whole.copy());
            }
            steps = then_step(one_step(CanvasStep::FitView), CanvasStep::Render);
            proof {
                assert(steps_view(steps@) =~= seq![CanvasStepView::FitView, CanvasStepView::Render]);
            }
            from = 1;
        }
        let ghost open = self@;
        let mut i: usize = from;
        while i < list.len()
            invariant
                from <= i <= list.len(),
                all == incoming_views(list@),
                self@ == layers_imported(open, all, from as int, i as int),
            decreases list.len() - i,
        {
            proof {
                assert(all[i as int] == list@[i as int]@);
            }
            if let Ok(picture) = &list[i].picture {
                self.import_layer(list[i].path.as_str(), &picture.fitted);
            }
            i = i + 1;
        }
        (then_step(steps, CanvasStep::Render), true)
    }

    /// Opens a project.
    pub fn open_project(&mut self, path: &str, project: Project)
        ensures
            final(self)@ == project_opened(old(self)@, path@, project@),
    {
        broadcast use vstd::std_specs::hash::group_hash_axioms;

        let ghost all = project@.bitmaps;
        let mut store: PixelStore = PixelStore::new();
        let mut i: usize = 0;
        proof {
            assert(all.take(0) =~= Seq::empty());
        }
        while i < project.bitmaps.len()
            invariant
                i <= project.bitmaps.len(),
                all == project@.bitmaps,
                store@ == project_store(all.take(i as int), self.versions),
            decreases project.bitmaps.len() - i,
        {
            proof {
                assert(all.take(i + 1).drop_last() =~= all.take(i as int));
                assert(all.take(i + 1).last() == (
                    project.bitmaps@[i as int].0,
                    project.bitmaps@[i as int].1@,
                ));
            }
            store.restore(project.bitmaps[i].0, project.bitmaps[i].1.copy(), self.versions);
            i = i + 1;
        }
        proof {
            assert(all.take(all.len() as int) =~= all);
        }
        let top: Option<(u64, u64)> = topmost_layer(&project.document.children);
        self.document = Some(project.document);
        self.store = store;
        self.versions = next_number(self.versions);
        match top {
            Some((id, pixels)) => {
                self.active = Some(id);
                self.layer = Some(pixels);
            },
            None => {
                self.active = None;
                self.layer = None;
            },
        }
        self.selection = None;
        self.marquee = None;
        self.history = History::new();
        self.revision = bump(self.revision);
        self.saved_revision = self.revision;
        self.document_generation = bump(self.document_generation);
        self.autosave_inflight = None;
        self.pending_open = None;
        self.open_confirm = false;
        self.project_path = Some(path.to_owned());
        self.name = project.name;
        self.failed = false;
        self.pixel_revisions = HashMap::new();
    }

    /// A project was read.
    pub fn project_ready(&mut self, path: &str, read: Result<Project, String>) -> (r: Vec<
        CanvasStep,
    >)
        ensures
            (final(self)@, steps_view(r@)) == project_read(
                old(self)@,
                path@,
                match read {
                    Ok(project) => Ok(project@),
                    Err(e) => Err(e@),
                },
            ),
    {
        let mut waiting: Option<Vec<String>> = None;
        std::mem::swap(&mut waiting, &mut self.pending_handoff_paths);
        match read {
            Ok(project) => {
                self.open_project(path, project);
                let opened: Vec<CanvasStep> = then_step(
                    then_step(
                        then_step(one_step(CanvasStep::FitView), CanvasStep::Render),
                        CanvasStep::Remember(path.to_owned()),
                    ),
                    CanvasStep::RegistryChanged,
                );
                proof {
                    assert(steps_view(opened@) =~= seq![
                        CanvasStepView::FitView,
                        CanvasStepView::Render,
                        CanvasStepView::Remember(path@),
                        CanvasStepView::RegistryChanged,
                    ]);
                }
                let more: Vec<CanvasStep> = match waiting {
                    Some(paths) => one_step(CanvasStep::Handoff(paths)),
                    None => no_steps(),
                };
                then_steps(opened, more)
            },
            Err(e) => {
                let told: Vec<CanvasStep> = self.fail_open(e.as_str());
                let reported: Vec<CanvasStep> = if waiting.is_some() {
                    one_step(CanvasStep::Report(false, e))
                } else {
                    no_steps()
                };
                then_steps(reported, told)
            },
        }
    }

    /// Something is asked to be opened.
    pub fn request_open(&mut self, path: &str) -> (r: Vec<CanvasStep>)
        ensures
            (final(self)@, steps_view(r@)) == open_requested(old(self)@, path@),
    {
        self.brush_release();
        if self.is_modified() {
            self.pending_open = Some(path.to_owned());
            self.open_confirm = true;
            return no_steps();
        }
        one_step(CanvasStep::Open(path.to_owned()))
    }

    /// A save is over.
    pub fn save_to_path(&mut self, report: SaveReport) -> (r: Result<(), String>)
        ensures
            (final(self)@, verdict(r)) == pane_saved(old(self)@, report@),
    {
        if let Err(e) = report.written {
            return Err(e);
        }
        self.saved_revision = self.revision;
        self.project_path = Some(report.path);
        report.remembered
    }

    fn make_blank(&mut self)
        ensures
            final(self)@ == pane_blanked(old(self)@),
    {
        proof {
            assert(frame_bytes(1920, 1080) == 8_294_400) by (nonlinear_arith);
        }
        let mut document: Document = Document::new(1920, 1080);
        self.store = PixelStore::new();
        let pixels: u64 = self.store.put(Frame::transparent(1920, 1080), self.versions);
        self.versions = next_number(self.versions);
        let layer: u64 = document.new_layer("图层 1".to_owned(), pixels);
        self.document = Some(document);
        self.layer = Some(pixels);
        self.active = Some(layer);
        self.selection = None;
        self.marquee = None;
        self.history = History::new();
        self.project_path = None;
        self.name = "未命名画布".to_owned();
        self.revision = bump(self.revision);
        self.document_generation = bump(self.document_generation);
        self.autosave_inflight = None;
        self.failed = false;
    }

    /// A new canvas is asked for; the flag says whether it was made.
    pub fn new_blank(&mut self, report: Option<SaveReport>) -> (r: (Vec<CanvasStep>, bool))
        ensures
            (final(self)@, steps_view(r.0@), r.1) == blank_asked(
                old(self)@,
                match report {
                    Some(s) => Some(s@),
                    None => None,
                },
            ),
    {
        let mut steps: Vec<CanvasStep> = no_steps();
        if self.is_modified() {
            match report {
                None => {
                    return (one_step(CanvasStep::SaveFirst), false);
                },
                Some(s) => {
                    if let Err(e) = self.save_to_path(s) {
                        return (
                            one_step(
                                CanvasStep::Notify(cat("画布保存失败：", e.as_str()), true),
                            ),
                            false,
                        );
                    }
                    steps = one_step(CanvasStep::RegistryChanged);
                },
            }
        }
        self.make_blank();
        let made: Vec<CanvasStep> = then_step(one_step(CanvasStep::FitView), CanvasStep::Render);
        proof {
            assert(steps_view(made@) =~= seq![CanvasStepView::FitView, CanvasStepView::Render]);
            assert(Seq::<CanvasStepView>::empty() + steps_view(made@) =~= steps_view(made@));
        }
        (then_steps(steps, made), true)
    }
}

/// What saving the document asks for: its path, or one that is asked for.
pub open spec fn save_steps(p: PaneView) -> Seq<CanvasStepView> {
    match (p.document, p.project_path) {
        (None, _) => Seq::empty(),
        (Some(_), Some(path)) => seq![CanvasStepView::SaveTo(path)],
        (Some(_), None) => save_as_steps(p),
    }
}

/// What saving the document elsewhere asks for.
pub open spec fn save_as_steps(p: PaneView) -> Seq<CanvasStepView> {
    if p.document is Some {
        seq![CanvasStepView::AskSave(bare_name(p.name) + ".comp"@)]
    } else {
        Seq::empty()
    }
}

/// The canvas after a save that the user asked for; where something waits to
/// be opened it is opened then.
pub open spec fn save_ended(p: PaneView, report: SaveView, opening: bool) -> (
    PaneView,
    Seq<CanvasStepView>,
) {
    let (saved, outcome) = pane_saved(p, report);
    match outcome {
        Err(e) => (saved, seq![CanvasStepView::Notify("Canvas failed: "@ + e, true)]),
        Ok(()) => if opening {
            (
                PaneView { open_confirm: false, pending_open: None, ..saved },
                seq![CanvasStepView::RegistryChanged] + (match saved.pending_open {
                    Some(path) => seq![CanvasStepView::Open(path)],
                    None => Seq::empty(),
                }),
            )
        } else {
            (saved, seq![CanvasStepView::RegistryChanged])
        },
    }
}

/// What exporting the document asks for.
pub open spec fn export_steps(p: PaneView, limit: Option<u32>, library: bool) -> Seq<CanvasStepView> {
    match p.document {
        None => Seq::empty(),
        Some(d) => match size_fault(d.width, d.height, limit) {
            Some(e) => seq![CanvasStepView::Notify("Canvas failed: "@ + e, true)],
            None => seq![CanvasStepView::Export(bare_name(p.name) + ".png"@, library)],
        },
    }
}

/// What is done after an export.
pub open spec fn export_ended(path: Seq<char>, library: bool, written: Result<(), Seq<char>>) -> Seq<
    CanvasStepView,
> {
    match written {
        Err(e) => seq![CanvasStepView::Notify("Canvas failed: "@ + e, true)],
        Ok(()) => if library {
            seq![CanvasStepView::Register(path)]
        } else {
            seq![CanvasStepView::Notify("图片已导出"@, false)]
        },
    }
}

/// The canvas after a failure to show it: it is told once.
pub open spec fn show_failed(p: PaneView, error: Seq<char>) -> (PaneView, Seq<CanvasStepView>) {
    if p.failed {
        (p, Seq::empty())
    } else {
        (
            PaneView { failed: true, ..p },
            seq![CanvasStepView::Notify("Canvas failed: "@ + error, true)],
        )
    }
}

/// Whether the canvas can be shown, and the canvas after it was asked.
pub open spec fn show_checked(p: PaneView, limit: Option<u32>) -> (PaneView, Seq<CanvasStepView>, bool) {
    match p.document {
        None => (p, Seq::empty(), false),
        Some(d) => match size_fault(d.width, d.height, limit) {
            Some(e) => (show_failed(p, e).0, show_failed(p, e).1, false),
            None => (p, Seq::empty(), true),
        },
    }
}

/// The canvas once a save in the background is under way.
pub open spec fn autosave_begun(p: PaneView, fresh: Seq<char>) -> Option<(PaneView, Seq<char>)> {
    if p.document is None || p.autosave_inflight is Some {
        None
    } else {
        let path = match p.project_path {
            Some(path) => path,
            None => fresh,
        };
        Some(
            (
                PaneView { project_path: Some(path), autosave_inflight: Some(p.revision), ..p },
                path,
            ),
        )
    }
}

/// The canvas after a save in the background. It counts where the same
/// document is still open at the same path, and marks the revision that it
/// wrote.
pub open spec fn autosave_ended(
    p: PaneView,
    generation: u64,
    path: Seq<char>,
    revision: u64,
    written: Result<bool, Seq<char>>,
) -> (PaneView, Seq<CanvasStepView>) {
    if p.document_generation != generation || p.project_path != Some(path) {
        (
            p,
            if written == Ok::<bool, Seq<char>>(true) {
                seq![CanvasStepView::RegistryChanged]
            } else {
                Seq::empty()
            },
        )
    } else {
        let free = PaneView { autosave_inflight: None, ..p };
        match written {
            Err(e) => (free, seq![CanvasStepView::Notify("画布自动保存失败："@ + e, true)]),
            Ok(done) => {
                let marked = if done && p.revision == revision {
                    PaneView { saved_revision: revision, ..free }
                } else {
                    free
                };
                (
                    marked,
                    (if done {
                        seq![CanvasStepView::RegistryChanged]
                    } else {
                        Seq::empty()
                    }) + (if has_changes(marked) {
                        seq![CanvasStepView::AutoSave(350)]
                    } else {
                        Seq::empty()
                    }),
                )
            },
        }
    }
}

impl CanvasPane {
    /// What saving the document asks for.
    pub fn save_current(&self) -> (r: Vec<CanvasStep>)
        ensures
            steps_view(r@) == save_steps(self@),
    {
        if self.document.is_none() {
            return no_steps();
        }
        match &self.project_path {
            Some(path) => one_step(CanvasStep::SaveTo(path.clone())),
            None => self.save_as(),
        }
    }

    /// What saving the document elsewhere asks for.
    pub fn save_as(&self) -> (r: Vec<CanvasStep>)
        ensures
            steps_view(r@) == save_as_steps(self@),
    {
        if self.document.is_none() {
            return no_steps();
        }
        one_step(CanvasStep::AskSave(save_name(self.name.as_str())))
    }

    /// A save that the user asked for is over.
    pub fn finish_save(&mut self, report: SaveReport, opening: bool) -> (r: Vec<CanvasStep>)
        ensures
            (final(self)@, steps_view(r@)) == save_ended(old(self)@, report@, opening),
    {
        if let Err(e) = self.save_to_path(report) {
            return one_step(CanvasStep::Notify(cat("Canvas failed: ", e.as_str()), true));
        }
        let steps: Vec<CanvasStep> = one_step(CanvasStep::RegistryChanged);
        if opening {
            self.open_confirm = false;
            let mut waiting: Option<String> = None;
            std::mem::swap(&mut waiting, &mut self.pending_open);
            let more: Vec<CanvasStep> = match waiting {
                Some(path) => one_step(CanvasStep::Open(path)),
                None => no_steps(),
            };
            return then_steps(steps, more);
        }
        steps
    }

    /// What exporting the document asks for.
    pub fn export_png(&self, limit: Option<u32>, library: bool) -> (r: Vec<CanvasStep>)
        ensures
            steps_view(r@) == export_steps(self@, limit, library),
    {
        match self.document_size() {
            None => no_steps(),
            Some((width, height)) => match validate_canvas_dimensions(width, height, limit) {
                Err(e) => one_step(CanvasStep::Notify(cat("Canvas failed: ", e.as_str()), true)),
                Ok(()) => one_step(
                    CanvasStep::Export(export_name(self.name.as_str()), library),
                ),
            },
        }
    }

    /// A failure to show the canvas.
    pub fn fail_show(&mut self, error: &str) -> (r: Vec<CanvasStep>)
        ensures
            (final(self)@, steps_view(r@)) == show_failed(old(self)@, error@),
    {
        if self.failed {
            return no_steps();
        }
        self.failed = true;
        one_step(CanvasStep::Notify(cat("Canvas failed: ", error), true))
    }

    /// Whether the canvas can be shown on a device.
    pub fn render(&mut self, limit: Option<u32>) -> (r: (Vec<CanvasStep>, bool))
        ensures
            (final(self)@, steps_view(r.0@), r.1) == show_checked(old(self)@, limit),
    {
        match self.document_size() {
            None => (no_steps(), false),
            Some((width, height)) => match validate_canvas_dimensions(width, height, limit) {
                Err(e) => (self.fail_show(e.as_str()), false),
                Ok(()) => (no_steps(), true),
            },
        }
    }

    /// Whether a save in the background that was put off is still due: the
    /// document was not changed since, nor another opened where that was noted,
    /// and has changes.
    pub fn is_save_due(&self, generation: Option<u64>, revision: u64) -> (r: bool)
        ensures
            r == (self@.revision == revision && has_changes(self@) && (generation matches Some(g) ==> g
                == self@.document_generation)),
    {
        let same_document: bool = match generation {
            Some(g) => self.document_generation == g,
            None => true,
        };
        same_document && self.revision == revision && self.is_modified()
    }

    /// Begins a save in the background; the result is the path that it goes
    /// to, `fresh` where the document has none.
    pub fn start_auto_save(&mut self, fresh: &str) -> (r: Option<String>)
        ensures
            match (r, autosave_begun(old(self)@, fresh@)) {
                (Some(path), Some((after, chosen))) => final(self)@ == after && path@ == chosen,
                (None, None) => final(self)@ == old(self)@,
                _ => false,
            },
    {
        if self.document.is_none() || self.autosave_inflight.is_some() {
            return None;
        }
        let path: String = match &self.project_path {
            Some(path) => path.clone(),
            None => fresh.to_owned(),
        };
        self.project_path = Some(path.clone());
        self.autosave_inflight = Some(self.revision);
        Some(path)
    }

    /// A save in the background is over.
    pub fn finish_auto_save(
        &mut self,
        generation: u64,
        path: &str,
        revision: u64,
        written: Result<bool, String>,
    ) -> (r: Vec<CanvasStep>)
        ensures
            (final(self)@, steps_view(r@)) == autosave_ended(
                old(self)@,
                generation,
                path@,
                revision,
                match written {
                    Ok(done) => Ok(done),
                    Err(e) => Err(e@),
                },
            ),
    {
        let here: bool = match &self.project_path {
            Some(own) => same(own.as_str(), path),
            None => false,
        };
        if self.document_generation != generation || !here {
            return match written {
                Ok(true) => one_step(CanvasStep::RegistryChanged),
                _ => no_steps(),
            };
        }
        self.autosave_inflight = None;
        match written {
            Err(e) => one_step(CanvasStep::Notify(cat("画布自动保存失败：", e.as_str()), true)),
            Ok(done) => {
                if done && self.revision == revision {
                    self.saved_revision = revision;
                }
                let told: Vec<CanvasStep> = if done {
                    one_step(CanvasStep::RegistryChanged)
                } else {
                    no_steps()
                };
                let more: Vec<CanvasStep> = if self.is_modified() {
                    one_step(CanvasStep::AutoSave(350))
                } else {
                    no_steps()
                };
                then_steps(told, more)
            },
        }
    }
}

/// What is done after an export.
pub fn finish_export(path: &str, library: bool, written: Result<(), String>) -> (r: Vec<CanvasStep>)
    ensures
        steps_view(r@) == export_ended(path@, library, verdict(written)),
{
    match written {
        Err(e) => one_step(CanvasStep::Notify(cat("Canvas failed: ", e.as_str()), true)),
        Ok(()) => if library {
            one_step(CanvasStep::Register(path.to_owned()))
        } else {
            one_step(CanvasStep::Notify("图片已导出".to_owned(), false))
        },
    }
}

/// A save that failed to write leaves the canvas as it was: its path, and its
/// changes as not saved.
pub proof fn failed_saves_change_nothing(p: PaneView, report: SaveView)
    requires
        report.written is Err,
    ensures
        pane_saved(p, report).0 == p,
        pane_saved(p, report).1 is Err,
{
}

/// A save that was written leaves no changes, and the document at its path.
pub proof fn written_saves_settle_changes(p: PaneView, report: SaveView)
    requires
        report.written is Ok,
    ensures
        !has_changes(pane_saved(p, report).0),
        pane_saved(p, report).0.project_path == Some(report.path),
{
}

/// A save in the background that ends when the document was changed again
/// leaves the changes as not saved, and asks for another.
pub proof fn later_changes_stay_unsaved(p: PaneView, path: Seq<char>, revision: u64)
    requires
        has_changes(p),
        p.revision != revision,
        p.project_path == Some(path),
    ensures
        ({
            let (after, steps) = autosave_ended(p, p.document_generation, path, revision, Ok(true));
            has_changes(after) && steps.contains(CanvasStepView::AutoSave(350))
        }),
{
    let (after, steps) = autosave_ended(p, p.document_generation, path, revision, Ok(true));
    assert(steps[1] == CanvasStepView::AutoSave(350));
}

/// What is opened has no changes to undo, and nothing of what was open before
/// stays in its store.
pub proof fn opened_pictures_start_over(p: PaneView, path: Seq<char>, frame: FrameView)
    ensures
        ({
            let after = image_opened(p, path, frame);
            after.store.bitmaps.len() == 1 && after.store.bitmaps[0].frame == frame
                && after.history == no_history() && after.document is Some
                && after.document->0.children.len() == 1 && after.document->0.width == frame.width
                && after.document->0.height == frame.height
        }),
{
}

/// While there are changes nothing is opened: it waits until they are saved or
/// let go.
pub proof fn changes_are_asked_about(p: PaneView, path: Seq<char>)
    requires
        has_changes(stroke_released(p)),
    ensures
        open_requested(p, path).1.len() == 0,
        open_requested(p, path).0.open_confirm,
        open_requested(p, path).0.pending_open == Some(path),
        open_requested(p, path).0.document == stroke_released(p).document,
{
}

} // verus!
