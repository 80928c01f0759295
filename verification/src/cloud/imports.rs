//! Files that go into a clip project or onto a canvas.

use crate::cloud::rows::{blank, blank_item, row_views, CloudItem, ItemRow};
use crate::cloud::steps::{
    fail, import_views, none, one, step_if, step_views, then_do, Import, ImportView, Step, StepView,
};
use crate::collections::{TextMap, TextSet};
use crate::json::{Json, JsonModel};
use crate::paths::{extension, extension_of, file_stem, stem_of};
use crate::sort::{arrange, key_views, name_key, order_of, time_key, KeyView, SortKey};
use crate::text::{
    ascii_lowercase, cat, cat3, contains, contains_text, decimal, has_text, lowercase, opt,
    prefix_rest, same, strip_prefix, to_ascii_lowercase, to_decimal, to_lowercase, trim, trimmed,
    views,
};
use vstd::prelude::*;
use vstd::string::*;

verus! {

/// The queue with a file at its end, where it does not wait already.
pub open spec fn import_enqueued(queue: Seq<Seq<char>>, path: Seq<char>) -> Seq<Seq<char>> {
    if queue.contains(path) {
        queue
    } else {
        queue.push(path)
    }
}

/// Lets a file wait for a project; the result says whether it is new.
pub fn enqueue_pending_import(queue: &mut Vec<String>, path: String) -> (r: bool)
    ensures
        r == !views(old(queue)@).contains(path@),
        views(final(queue)@) == import_enqueued(views(old(queue)@), path@),
{
    if has_text(queue, path.as_str()) {
        return false;
    }
    let ghost before = views(queue@);
    let ghost added = path@;
    queue.push(path);
    proof {
        assert(views(queue@) =~= before.push(added));
    }
    true
}

/// Takes all files out of the queue.
pub fn resume_pending_imports(queue: &mut Vec<String>) -> (r: Vec<String>)
    ensures
        r@ == old(queue)@,
        final(queue)@.len() == 0,
{
    let mut taken: Vec<String> = Vec::new();
    std::mem::swap(&mut taken, queue);
    taken
}

/// Drops all files of the queue; the result says how many there were.
pub fn cancel_pending_imports(queue: &mut Vec<String>) -> (r: usize)
    ensures
        r == old(queue)@.len(),
        final(queue)@.len() == 0,
{
    let count: usize = queue.len();
    queue.clear();
    count
}

/// Files that wait for the project they go to.
pub struct PendingHandoff {
    /// `canvas` or `clip`.
    pub kind: String,
    pub imports: Vec<Import>,
    /// Whether a new project is being made for them.
    pub awaiting_new_project: bool,
}

pub struct HandoffView {
    pub kind: Seq<char>,
    pub imports: Seq<ImportView>,
    pub awaiting_new_project: bool,
}

impl View for PendingHandoff {
    type V = HandoffView;

    open spec fn view(&self) -> HandoffView {
        HandoffView {
            kind: self.kind@,
            imports: import_views(self.imports@),
            awaiting_new_project: self.awaiting_new_project,
        }
    }
}

/// The view of an optional handoff.
pub open spec fn opt_handoff(h: Option<PendingHandoff>) -> Option<HandoffView> {
    match h {
        Some(p) => Some(p@),
        None => None,
    }
}

/// Files on their way into projects.
pub struct Transfers {
    /// Files that wait until a clip project is open.
    pub pending: Vec<String>,
    /// The names that waiting files are shown under.
    pub names: TextMap<String>,
    /// How many files are shown as waiting.
    pub count: i32,
    pub handoff: Option<PendingHandoff>,
    /// The page that the handoff came from.
    pub source_page: i32,
    pub handoff_kind: String,
    pub handoff_count: i32,
    pub targets: Vec<CloudItem>,
    pub selected_id: String,
    pub open: bool,
}

pub struct TransfersView {
    pub pending: Seq<Seq<char>>,
    pub names: Map<Seq<char>, Seq<char>>,
    pub count: i32,
    pub handoff: Option<HandoffView>,
    pub source_page: i32,
    pub handoff_kind: Seq<char>,
    pub handoff_count: i32,
    pub targets: Seq<ItemRow>,
    pub selected_id: Seq<char>,
    pub open: bool,
}

impl View for Transfers {
    type V = TransfersView;

    open spec fn view(&self) -> TransfersView {
        TransfersView {
            pending: views(self.pending@),
            names: self.names@,
            count: self.count,
            handoff: opt_handoff(self.handoff),
            source_page: self.source_page,
            handoff_kind: self.handoff_kind@,
            handoff_count: self.handoff_count,
            targets: row_views(self.targets@),
            selected_id: self.selected_id@,
            open: self.open,
        }
    }
}

/// The transfers and the steps when a file goes into the open clip project, or
/// waits for one. A name of blanks counts as none.
pub open spec fn imported(
    transfers: TransfersView,
    project_open: bool,
    path: Seq<char>,
    name: Option<Seq<char>>,
) -> (TransfersView, Seq<StepView>) {
    let shown = if name is Some && trimmed(name->0).len() > 0 {
        name
    } else {
        None
    };
    if project_open {
        (
            transfers,
            seq![StepView::ImportPaths(seq![ImportView { path, name: shown }])],
        )
    } else {
        let pending = import_enqueued(transfers.pending, path);
        (
            TransfersView {
                pending,
                names: match shown {
                    Some(n) => transfers.names.insert(path, n),
                    None => transfers.names,
                },
                count: pending.len() as i32,
                ..transfers
            },
            seq![StepView::Page(0), StepView::Notice(""@)],
        )
    }
}

/// A file goes into the open clip project, or waits for one.
pub fn import_or_queue_named(
    transfers: &mut Transfers,
    project_open: bool,
    path: String,
    name: Option<String>,
) -> (r: Vec<Step>)
    ensures
        (final(transfers)@, step_views(r@)) == imported(
            old(transfers)@,
            project_open,
            path@,
            opt(name),
        ),
{
    let shown: Option<String> = match name {
        Some(n) => if trim(n.as_str()).as_str().is_empty() {
            None
        } else {
            Some(n)
        },
        None => None,
    };
    let ghost p = path@;
    let ghost n = opt(shown);
    if project_open {
        let mut imports: Vec<Import> = Vec::new();
        imports.push(Import { path, name: shown });
        proof {
            assert(import_views(imports@) =~= seq![ImportView { path: p, name: n }]);
        }
        return one(Step::ImportPaths(imports));
    }
    enqueue_pending_import(&mut transfers.pending, path.clone());
    if let Some(label) = shown {
        transfers.names.insert(path.as_str(), label);
    }
    proof {
        assert(views(transfers.pending@).len() == transfers.pending@.len());
    }
    transfers.count = transfers.pending.len() as i32;
    let mut steps: Vec<Step> = one(Step::Page(0));
    then_do(&mut steps, Step::Notice("".to_owned()));
    proof {
        assert(step_views(steps@) =~= seq![StepView::Page(0), StepView::Notice(""@)]);
    }
    steps
}

/// The files that are imported, with the steps around it.
pub open spec fn import_steps(imports: Seq<ImportView>) -> Seq<StepView> {
    if imports.len() == 0 {
        Seq::empty()
    } else {
        seq![StepView::Page(0), StepView::Notice(""@), StepView::ImportPaths(imports)]
    }
}

/// Imports files into the open clip project.
pub fn import_named_paths(imports: Vec<Import>) -> (r: Vec<Step>)
    ensures
        step_views(r@) == import_steps(import_views(imports@)),
{
    proof {
        assert(import_views(imports@).len() == imports@.len());
    }
    if imports.len() == 0 {
        return none();
    }
    let ghost view = import_views(imports@);
    let mut steps: Vec<Step> = one(Step::Page(0));
    then_do(&mut steps, Step::Notice("".to_owned()));
    then_do(&mut steps, Step::ImportPaths(imports));
    proof {
        assert(step_views(steps@) =~= import_steps(view));
    }
    steps
}

/// Imports files without names into the open clip project.
pub fn import_paths(paths: &Vec<String>) -> (r: Vec<Step>)
    ensures
        step_views(r@) == import_steps(crate::cloud::results::plain_imports(views(paths@))),
{
    import_named_paths(crate::cloud::results::from_paths(paths))
}

/// The files of a handoff as files of a clip project.
pub fn clip_imports(imports: &Vec<Import>) -> (r: Vec<Import>)
    ensures
        import_views(r@) == import_views(imports@),
{
    let mut out: Vec<Import> = Vec::new();
    let mut i: usize = 0;
    while i < imports.len()
        invariant
            i <= imports.len(),
            out@.len() == i,
            forall|j: int| 0 <= j < i ==> (#[trigger] out@[j])@ == imports@[j]@,
        decreases imports.len() - i,
    {
        let name: Option<String> = match &imports[i].name {
            Some(n) => Some(n.clone()),
            None => None,
        };
        out.push(Import { path: imports[i].path.clone(), name });
        i = i + 1;
    }
    proof {
        assert(import_views(out@) =~= import_views(imports@));
    }
    out
}

/// Waiting files with the names they are shown under.
pub open spec fn with_names(
    paths: Seq<Seq<char>>,
    names: Map<Seq<char>, Seq<char>>,
) -> Seq<ImportView> {
    Seq::new(
        paths.len(),
        |i: int|
            ImportView {
                path: paths[i],
                name: if names.contains_key(paths[i]) {
                    Some(names[paths[i]])
                } else {
                    None
                },
            },
    )
}

fn add_names(paths: &Vec<String>, names: &TextMap<String>) -> (r: Vec<Import>)
    ensures
        import_views(r@) == with_names(views(paths@), names@),
{
    let mut out: Vec<Import> = Vec::new();
    let mut i: usize = 0;
    while i < paths.len()
        invariant
            i <= paths.len(),
            out@.len() == i,
            forall|j: int|
                0 <= j < i ==> (#[trigger] out@[j])@ == with_names(views(paths@), names@)[j],
        decreases paths.len() - i,
    {
        let name: Option<String> = match names.get(paths[i].as_str()) {
            Some(n) => Some(n.clone()),
            None => None,
        };
        out.push(Import { path: paths[i].clone(), name });
        i = i + 1;
    }
    proof {
        assert(import_views(out@) =~= with_names(views(paths@), names@));
    }
    out
}

/// Whether the handoff waits for a new clip project.
pub open spec fn waits_for_clip(transfers: TransfersView) -> bool {
    transfers.handoff matches Some(h) && h.kind == "clip"@ && h.awaiting_new_project
}

fn is_waiting_for_clip(transfers: &Transfers) -> (r: bool)
    ensures
        r == waits_for_clip(transfers@),
{
    match &transfers.handoff {
        Some(h) => same(h.kind.as_str(), "clip") && h.awaiting_new_project,
        None => false,
    }
}

/// The transfers and the steps when a clip project is open: the files that
/// waited are imported, and then those of the handoff that a new project was
/// made for.
pub open spec fn project_opened(transfers: TransfersView) -> (TransfersView, Seq<StepView>) {
    let waited = with_names(transfers.pending, transfers.names);
    let handed = waits_for_clip(transfers);
    (
        TransfersView {
            pending: Seq::empty(),
            names: Map::empty(),
            count: 0,
            handoff: if handed {
                None
            } else {
                transfers.handoff
            },
            ..transfers
        },
        import_steps(
            if handed {
                waited + transfers.handoff->0.imports
            } else {
                waited
            },
        ),
    )
}

/// A clip project is open.
pub fn project_ready(transfers: &mut Transfers) -> (r: Vec<Step>)
    ensures
        (final(transfers)@, step_views(r@)) == project_opened(old(transfers)@),
{
    let ghost before = transfers@;
    let handed: bool = is_waiting_for_clip(transfers);
    let paths: Vec<String> = resume_pending_imports(&mut transfers.pending);
    let mut imports: Vec<Import> = add_names(&paths, &transfers.names);
    transfers.names.clear();
    transfers.count = 0;
    proof {
        assert(views(transfers.pending@) =~= Seq::empty());
        assert(views(paths@) =~= before.pending);
    }
    if handed {
        let mut taken: Option<PendingHandoff> = None;
        std::mem::swap(&mut taken, &mut transfers.handoff);
        if let Some(h) = taken {
            let ghost head = import_views(imports@);
            let mut more: Vec<Import> = h.imports;
            let ghost tail = import_views(more@);
            imports.append(&mut more);
            proof {
                assert(import_views(imports@) =~= head + tail);
            }
        }
    }
    import_named_paths(imports)
}

/// The transfers and the steps when the user gives up to make a clip project.
pub open spec fn import_cancelled(transfers: TransfersView) -> (TransfersView, Seq<StepView>) {
    let handed = waits_for_clip(transfers);
    let dropped = transfers.pending.len() + if handed {
        transfers.handoff->0.imports.len()
    } else {
        0
    };
    (
        TransfersView {
            pending: Seq::empty(),
            names: Map::empty(),
            count: 0,
            handoff: if handed {
                None
            } else {
                transfers.handoff
            },
            ..transfers
        },
        step_if(Seq::empty(), dropped > 0, StepView::Notice(""@)),
    )
}

pub fn cancel_project_import(transfers: &mut Transfers) -> (r: Vec<Step>)
    ensures
        (final(transfers)@, step_views(r@)) == import_cancelled(old(transfers)@),
{
    let ghost before = transfers@;
    let handed: bool = is_waiting_for_clip(transfers);
    let mut dropped: bool = cancel_pending_imports(&mut transfers.pending) > 0;
    transfers.names.clear();
    transfers.count = 0;
    proof {
        assert(views(transfers.pending@) =~= Seq::empty());
    }
    if handed {
        let mut taken: Option<PendingHandoff> = None;
        std::mem::swap(&mut taken, &mut transfers.handoff);
        if let Some(h) = taken {
            proof {
                assert(import_views(h.imports@).len() == h.imports@.len());
            }
            dropped = dropped || h.imports.len() > 0;
        }
    }
    let mut steps: Vec<Step> = none();
    if dropped {
        then_do(&mut steps, Step::Notice("".to_owned()));
    }
    steps
}

/// The name of a canvas project: that of its manifest, or that of its folder.
pub open spec fn canvas_name(path: Seq<char>, manifest: JsonModel) -> Seq<char> {
    match manifest.at("name"@).as_text() {
        Some(name) => if name.len() > 0 {
            name
        } else {
            folder_name(path)
        },
        None => folder_name(path),
    }
}

pub open spec fn folder_name(path: Seq<char>) -> Seq<char> {
    match stem_of(path) {
        Some(stem) => stem,
        None => "画布项目"@,
    }
}

fn name_canvas(path: &str, manifest: &Json) -> (r: String)
    ensures
        r@ == canvas_name(path@, manifest@),
{
    if let Some(name) = manifest.at("name").as_text() {
        if !name.as_str().is_empty() {
            return name;
        }
    }
    match file_stem(path) {
        Some(stem) => stem,
        None => "画布项目".to_owned(),
    }
}

/// The size of a canvas project.
pub open spec fn canvas_size(manifest: JsonModel) -> Seq<char> {
    decimal(crate::cloud::personal::number_at(manifest, "width"@) as nat) + " × "@ + decimal(
        crate::cloud::personal::number_at(manifest, "height"@) as nat,
    )
}

fn size_canvas(manifest: &Json) -> (r: String)
    ensures
        r@ == canvas_size(manifest@),
{
    cat3(
        to_decimal(crate::cloud::personal::get_number(manifest, "width")).as_str(),
        " × ",
        to_decimal(crate::cloud::personal::get_number(manifest, "height")).as_str(),
    )
}

/// A canvas project on disk.
pub struct CanvasProject {
    pub path: String,
    pub manifest: Json,
    /// When the manifest was written, in thousandths of a second.
    pub updated: u64,
    /// That time as it is shown.
    pub updated_label: String,
}

/// The row of a canvas project.
pub open spec fn project_row(p: CanvasProject) -> ItemRow {
    ItemRow {
        id: p.path@,
        name: canvas_name(p.path@, p.manifest@),
        detail: canvas_size(p.manifest@),
        date_label: p.updated_label@,
        ready: true,
        preview: crate::paths::joined_path(p.path@, "preview.png"@),
        ..blank()
    }
}

fn show_project(p: &CanvasProject) -> (r: CloudItem)
    ensures
        r@ == project_row(*p),
{
    CloudItem {
        id: p.path.clone(),
        name: name_canvas(p.path.as_str(), &p.manifest),
        detail: size_canvas(&p.manifest),
        date_label: p.updated_label.clone(),
        ready: true,
        preview: crate::paths::join_path(p.path.as_str(), "preview.png"),
        ..blank_item()
    }
}

/// Whether a search finds a project.
pub open spec fn is_found(search: Seq<char>, p: CanvasProject) -> bool {
    let query = lowercase(trimmed(search));
    query.len() == 0 || contains_text(lowercase(canvas_name(p.path@, p.manifest@)), query)
}

/// The places of the first `n` projects that a search finds.
pub open spec fn found_places(search: Seq<char>, projects: Seq<CanvasProject>, n: nat) -> Seq<usize>
    decreases n,
{
    if n == 0 {
        Seq::empty()
    } else {
        let before = found_places(search, projects, (n - 1) as nat);
        if is_found(search, projects[n - 1]) {
            before.push((n - 1) as usize)
        } else {
            before
        }
    }
}

/// What a project is sorted by: its name, or the time of its last change.
pub open spec fn project_key(sort: i32, p: CanvasProject) -> KeyView {
    if sort == 1 {
        KeyView {
            group: 0,
            name: lowercase(canvas_name(p.path@, p.manifest@)),
            time: 0,
            id: ""@,
        }
    } else {
        KeyView { group: 0, name: ""@, time: p.updated, id: ""@ }
    }
}

/// The rows of the canvas projects that a search finds, in their order.
pub open spec fn project_rows(search: Seq<char>, sort: i32, projects: Seq<CanvasProject>) -> Seq<
    ItemRow,
> {
    let places = found_places(search, projects, projects.len());
    let order = order_of(
        Seq::new(places.len(), |i: int| project_key(sort, projects[places[i] as int])),
    );
    Seq::new(order.len(), |i: int| project_row(projects[places[order[i] as int] as int]))
}

fn find_projects(search: &str, projects: &Vec<CanvasProject>) -> (r: Vec<usize>)
    ensures
        r@ == found_places(search@, projects@, projects@.len()),
        forall|i: int| 0 <= i < r@.len() ==> #[trigger] r@[i] < projects.len(),
{
    let query: String = to_lowercase(trim(search).as_str());
    let mut out: Vec<usize> = Vec::new();
    let mut i: usize = 0;
    while i < projects.len()
        invariant
            i <= projects.len(),
            query@ == lowercase(trimmed(search@)),
            out@ == found_places(search@, projects@, i as nat),
            forall|j: int| 0 <= j < out@.len() ==> #[trigger] out@[j] < i,
        decreases projects.len() - i,
    {
        let name: String = to_lowercase(
            name_canvas(projects[i].path.as_str(), &projects[i].manifest).as_str(),
        );
        if query.as_str().is_empty() || contains(name.as_str(), query.as_str()) {
            out.push(i);
        }
        i = i + 1;
    }
    out
}

/// The rows of the canvas projects.
pub fn render_canvas_projects(search: &str, sort: i32, projects: &Vec<CanvasProject>) -> (r: Vec<
    CloudItem,
>)
    ensures
        row_views(r@) == project_rows(search@, sort, projects@),
{
    let places: Vec<usize> = find_projects(search, projects);
    let mut keys: Vec<SortKey> = Vec::new();
    let mut i: usize = 0;
    while i < places.len()
        invariant
            i <= places.len(),
            forall|j: int| 0 <= j < places@.len() ==> #[trigger] places@[j] < projects.len(),
            keys@.len() == i,
            forall|j: int|
                0 <= j < i ==> (#[trigger] keys@[j])@ == project_key(
                    sort,
                    projects@[places@[j] as int],
                ),
        decreases places.len() - i,
    {
        let p: &CanvasProject = &projects[places[i]];
        if sort == 1 {
            keys.push(
                name_key(to_lowercase(name_canvas(p.path.as_str(), &p.manifest).as_str())),
            );
        } else {
            keys.push(time_key(p.updated));
        }
        i = i + 1;
    }
    proof {
        assert(key_views(keys@) =~= Seq::new(
            places@.len(),
            |i: int| project_key(sort, projects@[places@[i] as int]),
        ));
    }
    let order: Vec<usize> = arrange(&keys);
    let mut out: Vec<CloudItem> = Vec::new();
    let mut k: usize = 0;
    while k < order.len()
        invariant
            k <= order.len(),
            order@.len() == places@.len(),
            forall|j: int| 0 <= j < order@.len() ==> #[trigger] order@[j] < places@.len(),
            forall|j: int| 0 <= j < places@.len() ==> #[trigger] places@[j] < projects.len(),
            out@.len() == k,
            forall|j: int|
                0 <= j < k ==> (#[trigger] out@[j])@ == project_row(
                    projects@[places@[order@[j] as int] as int],
                ),
        decreases order.len() - k,
    {
        out.push(show_project(&projects[places[order[k]]]));
        k = k + 1;
    }
    proof {
        assert(row_views(out@) =~= project_rows(search@, sort, projects@));
    }
    out
}

/// A picture that a canvas can take.
pub open spec fn is_picture(path: Seq<char>) -> bool {
    match extension_of(path) {
        Some(e) => {
            let ending = ascii_lowercase(e);
            ending == "png"@ || ending == "jpg"@ || ending == "jpeg"@ || ending == "webp"@ || ending
                == "bmp"@
        },
        None => false,
    }
}

fn picture(path: &str) -> (r: bool)
    ensures
        r == is_picture(path@),
{
    match extension(path) {
        Some(e) => {
            let ending: String = to_ascii_lowercase(e.as_str());
            let s: &str = ending.as_str();
            same(s, "png") || same(s, "jpg") || same(s, "jpeg") || same(s, "webp") || same(s, "bmp")
        },
        None => false,
    }
}

/// A clip project that was open lately.
pub struct RecentClip {
    pub path: String,
    pub name: String,
    pub detail: String,
    pub poster: String,
}

/// A canvas project that was open lately, with its manifest where it can be
/// read.
pub struct RecentCanvas {
    pub path: String,
    pub manifest: Option<Json>,
}

/// How many projects of late are offered.
pub const MAX_RECENT: usize = 8;

/// Where files can go to.
pub struct Destinations {
    /// The name of the open canvas, where one is open.
    pub canvas: Option<String>,
    pub canvases: Vec<RecentCanvas>,
    /// The name of the open clip project, where one is open.
    pub clip: Option<String>,
    pub clips: Vec<RecentClip>,
}

/// The row that stands for a new project.
pub open spec fn new_target(kind: Seq<char>) -> ItemRow {
    ItemRow {
        id: "new"@,
        name: if kind == "canvas"@ {
            "新建画布"@
        } else {
            "新建剪辑项目"@
        },
        detail: "创建新工程并加入素材"@,
        ready: true,
        ..blank()
    }
}

/// The row that stands for the open project.
pub open spec fn current_target(kind: Seq<char>, name: Seq<char>) -> ItemRow {
    ItemRow {
        id: "current"@,
        name: if kind == "canvas"@ {
            "当前画布"@
        } else {
            "当前剪辑项目"@
        },
        detail: name,
        ready: true,
        ..blank()
    }
}

pub open spec fn canvas_target(path: Seq<char>, manifest: JsonModel) -> ItemRow {
    ItemRow {
        id: "recent:"@ + path,
        name: canvas_name(path, manifest),
        detail: canvas_size(manifest),
        preview: crate::paths::joined_path(path, "preview.png"@),
        ready: true,
        ..blank()
    }
}

/// `first`, then the rows of those of the first `n` canvases whose manifest can
/// be read.
pub open spec fn canvas_targets(
    first: Seq<ItemRow>,
    list: Seq<RecentCanvas>,
    n: nat,
) -> Seq<ItemRow>
    decreases n,
{
    if n == 0 {
        first
    } else {
        let before = canvas_targets(first, list, (n - 1) as nat);
        match list[n - 1].manifest {
            Some(manifest) => before.push(canvas_target(list[n - 1].path@, manifest@)),
            None => before,
        }
    }
}

/// How many of `n` projects are offered.
pub open spec fn offered_count(n: nat) -> nat {
    if n < MAX_RECENT {
        n
    } else {
        MAX_RECENT as nat
    }
}

pub open spec fn clip_target(p: RecentClip) -> ItemRow {
    ItemRow {
        id: "recent:"@ + p.path@,
        name: p.name@,
        detail: p.detail@,
        preview: p.poster@,
        ready: true,
        ..blank()
    }
}

/// The rows of the projects that files can go to: a new one, the open one, and
/// those that were open lately.
pub open spec fn targets_of(kind: Seq<char>, d: Destinations) -> Seq<ItemRow> {
    let first = seq![new_target(kind)];
    let current = if kind == "canvas"@ {
        opt(d.canvas)
    } else {
        opt(d.clip)
    };
    let open = match current {
        Some(name) => first.push(current_target(kind, name)),
        None => first,
    };
    if kind == "canvas"@ {
        canvas_targets(open, d.canvases@, offered_count(d.canvases@.len()))
    } else {
        open + Seq::new(offered_count(d.clips@.len()), |i: int| clip_target(d.clips@[i]))
    }
}

fn add_canvases(rows: &mut Vec<CloudItem>, list: &Vec<RecentCanvas>)
    ensures
        row_views(final(rows)@) == canvas_targets(
            row_views(old(rows)@),
            list@,
            offered_count(list@.len()),
        ),
{
    let ghost first = row_views(rows@);
    let n: usize = if list.len() < MAX_RECENT {
        list.len()
    } else {
        MAX_RECENT
    };
    let mut i: usize = 0;
    while i < n
        invariant
            i <= n <= list.len(),
            row_views(rows@) == canvas_targets(first, list@, i as nat),
        decreases n - i,
    {
        if let Some(manifest) = &list[i].manifest {
            let ghost prior = rows@;
            let row: CloudItem = CloudItem {
                id: cat("recent:", list[i].path.as_str()),
                name: name_canvas(list[i].path.as_str(), manifest),
                detail: size_canvas(manifest),
                preview: crate::paths::join_path(list[i].path.as_str(), "preview.png"),
                ready: true,
                ..blank_item()
            };
            let ghost view = row@;
            rows.push(row);
            proof {
                assert(row_views(rows@) =~= row_views(prior).push(view));
            }
        }
        i = i + 1;
    }
}

fn add_clips(rows: &mut Vec<CloudItem>, list: &Vec<RecentClip>)
    ensures
        row_views(final(rows)@) == row_views(old(rows)@) + Seq::new(
            offered_count(list@.len()),
            |i: int| clip_target(list@[i]),
        ),
{
    let ghost before = row_views(rows@);
    let n: usize = if list.len() < MAX_RECENT {
        list.len()
    } else {
        MAX_RECENT
    };
    let ghost all = Seq::new(n as nat, |i: int| clip_target(list@[i]));
    let mut i: usize = 0;
    proof {
        assert(before + all.take(0) =~= before);
    }
    while i < n
        invariant
            i <= n <= list.len(),
            all == Seq::new(n as nat, |i: int| clip_target(list@[i])),
            row_views(rows@) == before + all.take(i as int),
        decreases n - i,
    {
        let ghost prior = rows@;
        let row: CloudItem = CloudItem {
            id: cat("recent:", list[i].path.as_str()),
            name: list[i].name.clone(),
            detail: list[i].detail.clone(),
            preview: list[i].poster.clone(),
            ready: true,
            ..blank_item()
        };
        let ghost view = row@;
        rows.push(row);
        proof {
            assert(view == all[i as int]);
            assert(row_views(rows@) =~= row_views(prior).push(view));
            assert(before + all.take(i + 1) =~= (before + all.take(i as int)).push(view));
        }
        i = i + 1;
    }
    proof {
        assert(all.take(all.len() as int) =~= all);
    }
}

fn list_targets(kind: &str, d: &Destinations) -> (r: Vec<CloudItem>)
    ensures
        row_views(r@) == targets_of(kind@, *d),
{
    let canvas: bool = same(kind, "canvas");
    let mut rows: Vec<CloudItem> = Vec::new();
    rows.push(
        CloudItem {
            id: "new".to_owned(),
            name: (if canvas {
                "新建画布"
            } else {
                "新建剪辑项目"
            }).to_owned(),
            detail: "创建新工程并加入素材".to_owned(),
            ready: true,
            ..blank_item()
        },
    );
    proof {
        assert(row_views(rows@) =~= seq![new_target(kind@)]);
    }
    let current: &Option<String> = if canvas {
        &d.canvas
    } else {
        &d.clip
    };
    if let Some(name) = current {
        let ghost prior = rows@;
        let row: CloudItem = CloudItem {
            id: "current".to_owned(),
            name: (if canvas {
                "当前画布"
            } else {
                "当前剪辑项目"
            }).to_owned(),
            detail: name.clone(),
            ready: true,
            ..blank_item()
        };
        let ghost view = row@;
        rows.push(row);
        proof {
            assert(row_views(rows@) =~= row_views(prior).push(view));
        }
    }
    if canvas {
        add_canvases(&mut rows, &d.canvases);
    } else {
        add_clips(&mut rows, &d.clips);
    }
    rows
}

/// Why files cannot be handed to a project.
pub open spec fn handoff_refused(
    kind: Seq<char>,
    imports: Seq<ImportView>,
    present: Set<Seq<char>>,
) -> Option<Seq<char>> {
    if imports.len() == 0 || exists|i: int|
        0 <= i < imports.len() && !present.contains((#[trigger] imports[i]).path) {
        Some("所选素材文件不可用，请刷新后重试"@)
    } else if kind == "canvas"@ && exists|i: int|
        0 <= i < imports.len() && !is_picture((#[trigger] imports[i]).path) {
        Some("画布只支持图片素材"@)
    } else {
        None
    }
}

fn check_handoff(kind: &str, imports: &Vec<Import>, present: &TextSet) -> (r: Option<String>)
    ensures
        opt(r) == handoff_refused(kind@, import_views(imports@), present@),
{
    let ghost all = import_views(imports@);
    if imports.len() == 0 {
        return Some("所选素材文件不可用，请刷新后重试".to_owned());
    }
    let mut i: usize = 0;
    while i < imports.len()
        invariant
            i <= imports.len(),
            all == import_views(imports@),
            forall|j: int| 0 <= j < i ==> present@.contains((#[trigger] all[j]).path),
        decreases imports.len() - i,
    {
        proof {
            assert(all[i as int] == imports@[i as int]@);
        }
        if !present.has(imports[i].path.as_str()) {
            return Some("所选素材文件不可用，请刷新后重试".to_owned());
        }
        i = i + 1;
    }
    if !same(kind, "canvas") {
        return None;
    }
    let mut k: usize = 0;
    while k < imports.len()
        invariant
            k <= imports.len(),
            imports.len() > 0,
            kind@ == "canvas"@,
            all == import_views(imports@),
            forall|j: int| 0 <= j < imports@.len() ==> present@.contains((#[trigger] all[j]).path),
            forall|j: int| 0 <= j < k ==> is_picture((#[trigger] all[j]).path),
        decreases imports.len() - k,
    {
        proof {
            assert(all[k as int] == imports@[k as int]@);
        }
        if !picture(imports[k].path.as_str()) {
            return Some("画布只支持图片素材".to_owned());
        }
        k = k + 1;
    }
    None
}

/// The transfers and the steps when files are handed to a project: the user is
/// asked which one.
pub open spec fn handoff_begun(
    transfers: TransfersView,
    kind: Seq<char>,
    imports: Seq<ImportView>,
    present: Set<Seq<char>>,
    destinations: Destinations,
    page: i32,
) -> (TransfersView, Seq<StepView>) {
    match handoff_refused(kind, imports, present) {
        Some(message) => (transfers, seq![StepView::Error(message)]),
        None => (
            TransfersView {
                source_page: page,
                handoff_kind: kind,
                handoff_count: imports.len() as i32,
                targets: targets_of(kind, destinations),
                selected_id: ""@,
                handoff: Some(HandoffView { kind, imports, awaiting_new_project: false }),
                open: true,
                ..transfers
            },
            Seq::empty(),
        ),
    }
}

/// Hands files to a project.
pub fn begin_handoff_with_imports(
    transfers: &mut Transfers,
    kind: &str,
    imports: Vec<Import>,
    present: &TextSet,
    destinations: &Destinations,
    page: i32,
) -> (r: Vec<Step>)
    ensures
        (final(transfers)@, step_views(r@)) == handoff_begun(
            old(transfers)@,
            kind@,
            import_views(imports@),
            present@,
            *destinations,
            page,
        ),
{
    if let Some(e) = check_handoff(kind, &imports, present) {
        return one(Step::Error(e));
    }
    proof {
        assert(import_views(imports@).len() == imports@.len());
    }
    transfers.source_page = page;
    transfers.handoff_kind = kind.to_owned();
    transfers.handoff_count = imports.len() as i32;
    transfers.targets = list_targets(kind, destinations);
    transfers.selected_id = "".to_owned();
    transfers.handoff = Some(
        PendingHandoff { kind: kind.to_owned(), imports, awaiting_new_project: false },
    );
    transfers.open = true;
    none()
}

/// Hands files without names of their own to a project.
pub fn begin_handoff(
    transfers: &mut Transfers,
    kind: &str,
    paths: &Vec<String>,
    present: &TextSet,
    destinations: &Destinations,
    page: i32,
) -> (r: Vec<Step>)
    ensures
        (final(transfers)@, step_views(r@)) == handoff_begun(
            old(transfers)@,
            kind@,
            crate::cloud::results::plain_imports(views(paths@)),
            present@,
            *destinations,
            page,
        ),
{
    begin_handoff_with_imports(
        transfers,
        kind,
        crate::cloud::results::from_paths(paths),
        present,
        destinations,
        page,
    )
}

/// Whether a row has this identity.
pub open spec fn has_target(targets: Seq<ItemRow>, id: Seq<char>) -> bool {
    exists|i: int| 0 <= i < targets.len() && (#[trigger] targets[i]).id == id
}

fn is_target(targets: &Vec<CloudItem>, id: &str) -> (r: bool)
    ensures
        r == has_target(row_views(targets@), id@),
{
    let mut i: usize = 0;
    while i < targets.len()
        invariant
            i <= targets.len(),
            forall|j: int| 0 <= j < i ==> (#[trigger] row_views(targets@)[j]).id != id@,
        decreases targets.len() - i,
    {
        if same(targets[i].id.as_str(), id) {
            proof {
                assert(row_views(targets@)[i as int].id == id@);
            }
            return true;
        }
        i = i + 1;
    }
    false
}

/// The transfers and the steps when files go to a canvas.
pub open spec fn canvas_chosen(
    transfers: TransfersView,
    imports: Seq<ImportView>,
    id: Seq<char>,
) -> (TransfersView, Seq<StepView>) {
    let shown = seq![StepView::GalleryOpen(false), StepView::Page(6)];
    (
        TransfersView { open: false, ..transfers },
        if id == "new"@ {
            shown.push(StepView::CanvasNew(imports))
        } else if id == "current"@ {
            shown.push(StepView::CanvasCurrent(imports))
        } else {
            match prefix_rest(id, "recent:"@) {
                Some(path) => shown.push(StepView::CanvasOpen(path, imports)),
                None => shown,
            }
        },
    )
}

fn choose_canvas(transfers: &mut Transfers, imports: Vec<Import>, id: &str) -> (r: Vec<Step>)
    ensures
        (final(transfers)@, step_views(r@)) == canvas_chosen(
            old(transfers)@,
            import_views(imports@),
            id@,
        ),
{
    transfers.open = false;
    let mut steps: Vec<Step> = one(Step::GalleryOpen(false));
    then_do(&mut steps, Step::Page(6));
    proof {
        assert(step_views(steps@) =~= seq![StepView::GalleryOpen(false), StepView::Page(6)]);
    }
    if same(id, "new") {
        then_do(&mut steps, Step::CanvasNew(imports));
    } else if same(id, "current") {
        then_do(&mut steps, Step::CanvasCurrent(imports));
    } else if let Some(path) = strip_prefix(id, "recent:") {
        then_do(&mut steps, Step::CanvasOpen(path, imports));
    }
    steps
}

/// The transfers and the steps when a project is chosen for the files. A clip
/// project that is open is closed first, unless it is the chosen one.
pub open spec fn target_chosen(transfers: TransfersView, clip_open: bool, id: Seq<char>) -> (
    TransfersView,
    Seq<StepView>,
) {
    match transfers.handoff {
        None => (TransfersView { open: false, ..transfers }, Seq::empty()),
        Some(h) => if !has_target(transfers.targets, id) {
            (transfers, seq![StepView::Error("目标工程不存在，请重新选择"@)])
        } else if h.kind == "canvas"@ {
            canvas_chosen(transfers, h.imports, id)
        } else if id != "current"@ && clip_open {
            (transfers, seq![StepView::CloseClipProject])
        } else {
            clip_chosen(transfers, h, id)
        },
    }
}

/// The transfers and the steps when no other clip project is open any more.
pub open spec fn clip_chosen(transfers: TransfersView, h: HandoffView, id: Seq<char>) -> (
    TransfersView,
    Seq<StepView>,
) {
    let done = TransfersView { handoff: None, open: false, ..transfers };
    if id == "new"@ {
        (
            TransfersView {
                handoff: Some(HandoffView { awaiting_new_project: true, ..h }),
                count: (transfers.pending.len() + h.imports.len()) as i32,
                open: false,
                ..transfers
            },
            seq![StepView::Page(0), StepView::ClipCreateOpen(true)],
        )
    } else if id == "current"@ {
        (done, import_steps(h.imports))
    } else {
        match prefix_rest(id, "recent:"@) {
            Some(path) => (transfers, seq![StepView::OpenRecentClip(path)]),
            None => (done, Seq::empty()),
        }
    }
}

fn choose_clip(transfers: &mut Transfers, id: &str) -> (r: Vec<Step>)
    requires
        old(transfers).handoff is Some,
    ensures
        (final(transfers)@, step_views(r@)) == clip_chosen(
            old(transfers)@,
            old(transfers)@.handoff->0,
            id@,
        ),
{
    let mut taken: Option<PendingHandoff> = None;
    std::mem::swap(&mut taken, &mut transfers.handoff);
    let h: PendingHandoff = match taken {
        Some(h) => h,
        None => return none(),
    };
    proof {
        assert(import_views(h.imports@).len() == h.imports@.len());
        assert(views(transfers.pending@).len() == transfers.pending@.len());
    }
    if same(id, "new") {
        let total: u128 = transfers.pending.len() as u128 + h.imports.len() as u128;
        transfers.count = total as i32;
        transfers.handoff = Some(
            PendingHandoff { kind: h.kind, imports: h.imports, awaiting_new_project: true },
        );
        transfers.open = false;
        let mut steps: Vec<Step> = one(Step::Page(0));
        then_do(&mut steps, Step::ClipCreateOpen(true));
        proof {
            assert(step_views(steps@) =~= seq![
                StepView::Page(0),
                StepView::ClipCreateOpen(true),
            ]);
        }
        return steps;
    }
    if !same(id, "current") {
        if let Some(path) = strip_prefix(id, "recent:") {
            transfers.handoff = Some(h);
            return one(Step::OpenRecentClip(path));
        }
        transfers.open = false;
        return none();
    }
    transfers.open = false;
    import_named_paths(h.imports)
}

/// A project is chosen for the files.
pub fn select_handoff(transfers: &mut Transfers, clip_open: bool, id: &str) -> (r: Vec<Step>)
    ensures
        (final(transfers)@, step_views(r@)) == target_chosen(old(transfers)@, clip_open, id@),
{
    let (canvas, imports) = match &transfers.handoff {
        None => {
            transfers.open = false;
            return none();
        },
        Some(h) => (same(h.kind.as_str(), "canvas"), clip_imports(&h.imports)),
    };
    if !is_target(&transfers.targets, id) {
        return fail("目标工程不存在，请重新选择");
    }
    if canvas {
        return choose_canvas(transfers, imports, id);
    }
    if !same(id, "current") && clip_open {
        return one(Step::CloseClipProject);
    }
    choose_clip(transfers, id)
}

/// The open clip project has been closed, or could not be, and the choice goes
/// on.
pub fn clip_project_closed(transfers: &mut Transfers, still_open: bool, id: &str) -> (r: Vec<Step>)
    ensures
        (final(transfers)@, step_views(r@)) == if still_open {
            (old(transfers)@, seq![StepView::Error("当前剪辑项目未能保存，请重试"@)])
        } else {
            target_chosen(old(transfers)@, false, id@)
        },
{
    if still_open {
        return fail("当前剪辑项目未能保存，请重试");
    }
    select_handoff(transfers, false, id)
}

/// The transfers and the steps when the chosen clip project has been opened,
/// or could not be.
pub open spec fn clip_opened(transfers: TransfersView, opened: bool) -> (
    TransfersView,
    Seq<StepView>,
) {
    if !opened {
        (
            transfers,
            seq![
                StepView::Error("剪辑项目未能打开，请重新选择"@),
                StepView::Page(transfers.source_page),
            ],
        )
    } else {
        (
            TransfersView { handoff: None, open: false, ..transfers },
            match transfers.handoff {
                Some(h) => import_steps(h.imports),
                None => Seq::empty(),
            },
        )
    }
}

pub fn recent_clip_opened(transfers: &mut Transfers, opened: bool) -> (r: Vec<Step>)
    ensures
        (final(transfers)@, step_views(r@)) == clip_opened(old(transfers)@, opened),
{
    if !opened {
        let mut steps: Vec<Step> = one(Step::Error("剪辑项目未能打开，请重新选择".to_owned()));
        then_do(&mut steps, Step::Page(transfers.source_page));
        proof {
            assert(step_views(steps@) =~= clip_opened(old(transfers)@, opened).1);
        }
        return steps;
    }
    let mut taken: Option<PendingHandoff> = None;
    std::mem::swap(&mut taken, &mut transfers.handoff);
    transfers.open = false;
    match taken {
        Some(h) => import_named_paths(h.imports),
        None => none(),
    }
}

/// The transfers and the steps when a handoff has failed: the user is asked
/// again.
pub open spec fn handoff_failed_of(transfers: TransfersView, message: Seq<char>) -> (
    TransfersView,
    Seq<StepView>,
) {
    if transfers.handoff is None {
        (transfers, Seq::empty())
    } else {
        (
            TransfersView { open: true, ..transfers },
            step_if(
                seq![StepView::Page(transfers.source_page)],
                message.len() > 0,
                StepView::Error(message),
            ),
        )
    }
}

pub fn handoff_failed(transfers: &mut Transfers, message: &str) -> (r: Vec<Step>)
    ensures
        (final(transfers)@, step_views(r@)) == handoff_failed_of(old(transfers)@, message@),
{
    if transfers.handoff.is_none() {
        return none();
    }
    transfers.open = true;
    let mut steps: Vec<Step> = one(Step::Page(transfers.source_page));
    if !message.is_empty() {
        then_do(&mut steps, Step::Error(message.to_owned()));
    }
    steps
}

/// The transfers and the steps when the user gives up to make the project that
/// the files wait for: they are asked again.
pub open spec fn creation_cancelled(transfers: TransfersView) -> (TransfersView, Seq<StepView>) {
    match transfers.handoff {
        Some(h) => if h.awaiting_new_project {
            (
                TransfersView {
                    handoff: Some(HandoffView { awaiting_new_project: false, ..h }),
                    count: transfers.pending.len() as i32,
                    open: true,
                    ..transfers
                },
                seq![StepView::Page(transfers.source_page)],
            )
        } else {
            (transfers, Seq::empty())
        },
        None => (transfers, Seq::empty()),
    }
}

pub fn cancel_creation(transfers: &mut Transfers) -> (r: Vec<Step>)
    ensures
        (final(transfers)@, step_views(r@)) == creation_cancelled(old(transfers)@),
{
    let waiting: bool = match &transfers.handoff {
        Some(h) => h.awaiting_new_project,
        None => false,
    };
    if !waiting {
        return none();
    }
    let mut taken: Option<PendingHandoff> = None;
    std::mem::swap(&mut taken, &mut transfers.handoff);
    if let Some(h) = taken {
        transfers.handoff = Some(
            PendingHandoff { kind: h.kind, imports: h.imports, awaiting_new_project: false },
        );
    }
    proof {
        assert(views(transfers.pending@).len() == transfers.pending@.len());
    }
    transfers.count = transfers.pending.len() as i32;
    transfers.open = true;
    one(Step::Page(transfers.source_page))
}

/// The transfers when a handoff is over, or is given up.
pub fn end_handoff(transfers: &mut Transfers)
    ensures
        final(transfers)@ == (TransfersView { handoff: None, open: false, ..old(transfers)@ }),
{
    transfers.handoff = None;
    transfers.open = false;
}

/// Files that wait are imported once: after a project has opened nothing waits
/// any more, and opening another imports nothing.
pub proof fn waiting_files_are_imported_once(transfers: TransfersView)
    ensures
        project_opened(transfers).0.pending.len() == 0,
        project_opened(project_opened(transfers).0).1 == Seq::<StepView>::empty(),
{
    let after = project_opened(transfers).0;
    assert(with_names(after.pending, after.names) =~= Seq::empty());
}

/// Files that the user gave up are never imported.
pub proof fn cancelled_files_are_dropped(transfers: TransfersView)
    ensures
        import_cancelled(transfers).0.pending.len() == 0,
        !waits_for_clip(import_cancelled(transfers).0),
        project_opened(import_cancelled(transfers).0).1 == Seq::<StepView>::empty(),
{
    let after = import_cancelled(transfers).0;
    assert(with_names(after.pending, after.names) =~= Seq::empty());
}

/// A file waits at most once.
pub proof fn waiting_files_are_unique(queue: Seq<Seq<char>>, path: Seq<char>)
    requires
        queue.no_duplicates(),
    ensures
        import_enqueued(queue, path).no_duplicates(),
        import_enqueued(queue, path).contains(path),
        import_enqueued(import_enqueued(queue, path), path) == import_enqueued(queue, path),
{
    if !queue.contains(path) {
        assert(queue.push(path)[queue.len() as int] == path);
    }
}

} // verus!
