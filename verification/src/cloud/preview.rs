//! The large preview of a file.

use crate::cloud::configuration::server_task_snapshot;
use crate::cloud::intents::{Intents, IntentsView};
use crate::cloud::personal::{
    detail_of, personal_asset_detail, personal_asset_status, status_of,
};
use crate::cloud::picker::{flag, has_flag, here, is_here, medium, medium_of, Picker, PickerView};
use crate::cloud::references::{add_fault, place_of_client, reference_add_error};
use crate::cloud::results::{
    asset_fetched, download_asset_with_token, download_task_with_token, task_fetched,
};
use crate::cloud::rows::{blank, blank_item, CloudItem, ItemRow};
use crate::cloud::steps::{
    fail, import_views, none, one, step_views, then_do, Import, ImportView, Step, StepView,
};
use crate::cloud::studio::{Studio, StudioView};
use crate::cloud::tasks::{
    can_fetch, inputs_of, item_of, selected_task_index, task_has_downloadable_output, task_item,
    task_place, TaskList, TaskListView,
};
use crate::cloud::teams::{TeamPage, TeamView};
use crate::cloud::templates::{refill_inputs, refill_task};
use crate::collections::{TextMap, TextSet};
use crate::json::{models, Json, JsonModel};
use crate::lists::{find_text, first_where, text_is};
use crate::text::{opt, same};
use vstd::prelude::*;
use vstd::string::*;

verus! {

/// The large preview.
pub struct MediaPreview {
    /// The number of the preview; an answer that carries another is for an
    /// earlier one.
    pub token: u64,
    pub open: bool,
    pub source: String,
    pub item: CloudItem,
    pub loading: bool,
    pub error: String,
}

pub struct PreviewView {
    pub token: u64,
    pub open: bool,
    pub source: Seq<char>,
    pub item: ItemRow,
    pub loading: bool,
    pub error: Seq<char>,
}

impl View for MediaPreview {
    type V = PreviewView;

    open spec fn view(&self) -> PreviewView {
        PreviewView {
            token: self.token,
            open: self.open,
            source: self.source@,
            item: self.item@,
            loading: self.loading,
            error: self.error@,
        }
    }
}

/// The row of a file of the personal library in the preview.
pub open spec fn personal_item(asset: JsonModel, size: Seq<char>, present: Set<Seq<char>>) -> ItemRow {
    let path = asset.text("path"@);
    ItemRow {
        id: asset.text("id"@),
        name: asset.text("name"@),
        detail: detail_of(asset, size),
        status: status_of(asset, size),
        kind: asset.text("kind"@),
        preview: path,
        ready: flag(asset, "available"@) && present.contains(path),
        local: true,
        ..blank()
    }
}

pub fn personal_preview_item(asset: &Json, size: &str, present: &TextSet) -> (r: CloudItem)
    ensures
        r@ == personal_item(asset@, size@, present@),
{
    let path: String = asset.text("path");
    let ready: bool = has_flag(asset, "available") && present.has(path.as_str());
    CloudItem {
        id: asset.text("id"),
        name: asset.text("name"),
        detail: personal_asset_detail(asset, size),
        status: personal_asset_status(asset, size),
        kind: asset.text("kind"),
        preview: path,
        ready,
        local: true,
        ..blank_item()
    }
}

/// The row of a team file in the preview.
pub open spec fn team_item(
    asset: JsonModel,
    local: Map<Seq<char>, Seq<char>>,
    present: Set<Seq<char>>,
) -> ItemRow {
    let id = asset.text("id"@);
    let found = is_here(local, present, id) && local[id].len() > 0;
    ItemRow {
        id,
        name: asset.text("filename"@),
        detail: asset.text("uploader_email"@),
        kind: medium_of(asset.text("content_type"@)),
        preview: if is_here(local, present, id) {
            local[id]
        } else {
            ""@
        },
        ready: found,
        local: found,
        ..blank()
    }
}

pub fn team_preview_item(asset: &Json, local: &TextMap<String>, present: &TextSet) -> (r: CloudItem)
    ensures
        r@ == team_item(asset@, local@, present@),
{
    let id: String = asset.text("id");
    let path: String = match here(local, present, id.as_str()) {
        Some(path) => path,
        None => "".to_owned(),
    };
    let found: bool = !path.as_str().is_empty();
    proof {
        reveal_strlit("");
    }
    CloudItem {
        id,
        name: asset.text("filename"),
        detail: asset.text("uploader_email"),
        kind: medium(asset.text("content_type").as_str()),
        preview: path,
        ready: found,
        local: found,
        ..blank_item()
    }
}

/// The row of a reference in the preview.
pub open spec fn reference_item(v: JsonModel, present: Set<Seq<char>>) -> ItemRow {
    let status = v.text("status"@);
    let path = if v.text("local_path"@).len() > 0 {
        v.text("local_path"@)
    } else {
        v.text("preview_path"@)
    };
    ItemRow {
        id: v.text("client_id"@),
        name: v.text("display_name"@),
        detail: v.text("error"@),
        kind: v.text("kind"@),
        status: if status == "missing"@ {
            "缺少文件，可替换"@
        } else if status == "failed"@ {
            "上传失败"@
        } else {
            ""@
        },
        preview: path,
        ready: status == "ready"@ && present.contains(path),
        local: path.len() > 0,
        missing: status == "missing"@,
        ..blank()
    }
}

pub fn reference_preview_item(v: &Json, present: &TextSet) -> (r: CloudItem)
    ensures
        r@ == reference_item(v@, present@),
{
    let own: String = v.text("local_path");
    let path: String = if own.as_str().is_empty() {
        v.text("preview_path")
    } else {
        own
    };
    let status: &'static str = if v.text_is("status", "missing") {
        "缺少文件，可替换"
    } else if v.text_is("status", "failed") {
        "上传失败"
    } else {
        ""
    };
    let ready: bool = v.text_is("status", "ready") && present.has(path.as_str());
    let local: bool = !path.as_str().is_empty();
    CloudItem {
        id: v.text("client_id"),
        name: v.text("display_name"),
        detail: v.text("error"),
        kind: v.text("kind"),
        status: status.to_owned(),
        preview: path,
        ready,
        local,
        missing: v.text_is("status", "missing"),
        ..blank_item()
    }
}

/// The row of a task in the preview.
pub open spec fn task_preview(list: TaskListView, present: Set<Seq<char>>, task: JsonModel) -> ItemRow {
    let id = task.text("id"@);
    let found = is_here(list.local, present, id);
    ItemRow {
        refillable: inputs_of(list.snapshots, task) is Some,
        preview: if found {
            list.local[id]
        } else {
            ""@
        },
        local: found,
        ready: found,
        ..item_of(task)
    }
}

pub fn task_preview_item(list: &TaskList, present: &TextSet, task: &Json) -> (r: CloudItem)
    ensures
        r@ == task_preview(list@, present@, task@),
{
    let id: String = task.text("id");
    let mut item: CloudItem = task_item(task);
    item.refillable = list.snapshots.has(id.as_str()) || server_task_snapshot(task).is_ok();
    item.ready = false;
    if let Some(path) = here(&list.local, present, id.as_str()) {
        item.preview = path;
        item.local = true;
        item.ready = true;
    }
    item
}

/// The preview when a file is put into it: it gets a new number.
pub open spec fn preview_set(
    preview: PreviewView,
    source: Seq<char>,
    item: ItemRow,
    loading: bool,
    error: Seq<char>,
) -> PreviewView {
    PreviewView {
        token: preview.token.wrapping_add(1),
        open: true,
        source,
        item: ItemRow { selected: false, ..item },
        loading,
        error,
    }
}

/// Puts a file into the preview; the result is its number.
pub fn set_media_preview(
    preview: &mut MediaPreview,
    source: &str,
    item: CloudItem,
    loading: bool,
    error: &str,
) -> (r: u64)
    ensures
        final(preview)@ == preview_set(old(preview)@, source@, item@, loading, error@),
        r == final(preview)@.token,
{
    preview.token = preview.token.wrapping_add(1);
    let mut shown: CloudItem = item;
    shown.selected = false;
    preview.source = source.to_owned();
    preview.item = shown;
    preview.loading = loading;
    preview.error = error.to_owned();
    preview.open = true;
    preview.token
}

/// The preview and the steps when a file of the personal library is shown.
pub open spec fn personal_opened(
    preview: PreviewView,
    assets: Seq<JsonModel>,
    sizes: Seq<String>,
    present: Set<Seq<char>>,
    id: Seq<char>,
) -> (PreviewView, Seq<StepView>) {
    match first_where(assets, text_is("id"@, id)) {
        None => (preview, seq![StepView::Error("未找到该个人素材，请刷新后重试"@)]),
        Some(i) => {
            let item = personal_item(assets[i], sizes[i]@, present);
            (
                preview_set(
                    preview,
                    "personal"@,
                    item,
                    false,
                    if item.ready {
                        ""@
                    } else {
                        "本机文件已移动或丢失"@
                    },
                ),
                Seq::empty(),
            )
        },
    }
}

pub fn open_personal_media_preview(
    preview: &mut MediaPreview,
    assets: &Vec<Json>,
    sizes: &Vec<String>,
    present: &TextSet,
    id: &str,
) -> (r: Vec<Step>)
    requires
        sizes.len() == assets.len(),
    ensures
        (final(preview)@, step_views(r@)) == personal_opened(
            old(preview)@,
            models(assets@),
            sizes@,
            present@,
            id@,
        ),
{
    match find_text(assets, "id", id) {
        None => fail("未找到该个人素材，请刷新后重试"),
        Some(i) => {
            let item: CloudItem = personal_preview_item(&assets[i], sizes[i].as_str(), present);
            let error: &'static str = if item.ready {
                ""
            } else {
                "本机文件已移动或丢失"
            };
            set_media_preview(preview, "personal", item, false, error);
            none()
        },
    }
}

/// The preview and the steps when a team file is shown: one that is not on
/// this machine is fetched.
pub open spec fn team_opened(
    preview: PreviewView,
    list: TaskListView,
    picker: PickerView,
    page: TeamView,
    present: Set<Seq<char>>,
    id: Seq<char>,
) -> (PreviewView, Seq<StepView>) {
    match first_where(page.assets, text_is("id"@, id)) {
        None => (preview, seq![StepView::Error("未找到该团队素材，请刷新后重试"@)]),
        Some(i) => {
            let item = team_item(page.assets[i], list.local, present);
            let shown = preview_set(preview, "asset"@, item, !item.ready, ""@);
            (
                shown,
                if item.ready {
                    Seq::empty()
                } else {
                    asset_fetched(
                        list,
                        picker,
                        page,
                        present,
                        id,
                        "media-preview"@,
                        Some(shown.token),
                    ).1
                },
            )
        },
    }
}

pub fn open_team_media_preview(
    preview: &mut MediaPreview,
    list: &TaskList,
    picker: &mut Picker,
    page: &TeamPage,
    present: &TextSet,
    id: &str,
) -> (r: Vec<Step>)
    ensures
        final(picker)@ == old(picker)@,
        (final(preview)@, step_views(r@)) == team_opened(
            old(preview)@,
            list@,
            old(picker)@,
            page@,
            present@,
            id@,
        ),
{
    match find_text(&page.assets, "id", id) {
        None => fail("未找到该团队素材，请刷新后重试"),
        Some(i) => {
            let item: CloudItem = team_preview_item(&page.assets[i], &list.local, present);
            if item.ready {
                set_media_preview(preview, "asset", item, false, "");
                return none();
            }
            let token: u64 = set_media_preview(preview, "asset", item, true, "");
            proof {
                let intent = "media-preview"@;
                reveal_strlit("media-preview");
                reveal_strlit("picker-batch");
                assert(intent.len() != "picker-batch"@.len());
            }
            download_asset_with_token(list, picker, page, present, id, "media-preview", Some(token))
        },
    }
}

/// The preview and the steps when a reference is shown.
pub open spec fn reference_opened(
    preview: PreviewView,
    references: Seq<JsonModel>,
    present: Set<Seq<char>>,
    id: Seq<char>,
) -> (PreviewView, Seq<StepView>) {
    match place_of_client(references, id) {
        None => (preview, seq![StepView::Error("未找到该参考素材，请刷新后重试"@)]),
        Some(i) => {
            let item = reference_item(references[i], present);
            (
                preview_set(
                    preview,
                    "reference"@,
                    item,
                    false,
                    if item.ready {
                        ""@
                    } else if item.missing {
                        "本机文件缺失，请先替换参考素材"@
                    } else {
                        "参考素材尚未准备好"@
                    },
                ),
                Seq::empty(),
            )
        },
    }
}

pub fn open_reference_media_preview(
    preview: &mut MediaPreview,
    references: &Vec<Json>,
    present: &TextSet,
    id: &str,
) -> (r: Vec<Step>)
    ensures
        (final(preview)@, step_views(r@)) == reference_opened(
            old(preview)@,
            models(references@),
            present@,
            id@,
        ),
{
    match find_text(references, "client_id", id) {
        None => fail("未找到该参考素材，请刷新后重试"),
        Some(i) => {
            let item: CloudItem = reference_preview_item(&references[i], present);
            let error: &'static str = if item.ready {
                ""
            } else if item.missing {
                "本机文件缺失，请先替换参考素材"
            } else {
                "参考素材尚未准备好"
            };
            set_media_preview(preview, "reference", item, false, error);
            none()
        },
    }
}

/// The preview, the tasks and the steps when the result of a task is shown: a
/// failed task shows its error in the list, a result that is not on this
/// machine is fetched.
pub open spec fn task_opened(
    preview: PreviewView,
    list: TaskListView,
    present: Set<Seq<char>>,
    id: Seq<char>,
) -> (PreviewView, TaskListView, Seq<StepView>) {
    match first_where(list.tasks, text_is("id"@, id)) {
        None => (preview, list, seq![StepView::Error("未找到该生成结果，请刷新后重试"@)]),
        Some(i) => {
            let task = list.tasks[i];
            let item = task_preview(list, present, task);
            let loading = preview_set(preview, "task"@, item, true, ""@);
            if task.text("status"@) == "failed"@ {
                (
                    preview,
                    match task_place(list.tasks, id) {
                        Some(place) => TaskListView {
                            selected_task: place,
                            preview_open: true,
                            ..list
                        },
                        None => list,
                    },
                    Seq::empty(),
                )
            } else if item.ready {
                (preview_set(preview, "task"@, item, false, ""@), list, Seq::empty())
            } else if task.text("status"@) != "succeeded"@ || !can_fetch(task) {
                (
                    preview_set(
                        preview,
                        "task"@,
                        item,
                        false,
                        "生成结果文件不可用，请刷新后重试"@,
                    ),
                    list,
                    Seq::empty(),
                )
            } else {
                (
                    loading,
                    list,
                    task_fetched(
                        list,
                        present,
                        id,
                        "media-preview"@,
                        ""@,
                        Some(loading.token),
                    ),
                )
            }
        },
    }
}

pub fn open_task_media_preview(
    preview: &mut MediaPreview,
    list: &mut TaskList,
    present: &TextSet,
    id: &str,
) -> (r: Vec<Step>)
    ensures
        (final(preview)@, final(list)@, step_views(r@)) == task_opened(
            old(preview)@,
            old(list)@,
            present@,
            id@,
        ),
{
    let i: usize = match find_text(&list.tasks, "id", id) {
        Some(i) => i,
        None => return fail("未找到该生成结果，请刷新后重试"),
    };
    if list.tasks[i].text_is("status", "failed") {
        if let Some(place) = selected_task_index(&list.tasks, id) {
            list.selected_task = place;
            list.preview_open = true;
        }
        return none();
    }
    let item: CloudItem = task_preview_item(list, present, &list.tasks[i]);
    if item.ready {
        set_media_preview(preview, "task", item, false, "");
        return none();
    }
    if !list.tasks[i].text_is("status", "succeeded") || !task_has_downloadable_output(
        &list.tasks[i],
    ) {
        set_media_preview(preview, "task", item, false, "生成结果文件不可用，请刷新后重试");
        return none();
    }
    let token: u64 = set_media_preview(preview, "task", item, true, "");
    download_task_with_token(list, present, id, "media-preview", "", Some(token))
}

/// Whether an answer is for the file that the preview shows.
pub open spec fn is_current(preview: PreviewView, id: Seq<char>, token: Option<u64>) -> bool {
    token == Some(preview.token) && preview.open && preview.item.id == id
}

/// The preview when a file has arrived.
pub open spec fn preview_finished(
    preview: PreviewView,
    id: Seq<char>,
    path: Seq<char>,
    token: Option<u64>,
) -> PreviewView {
    if is_current(preview, id, token) {
        PreviewView {
            item: ItemRow { preview: path, ready: true, local: true, ..preview.item },
            loading: false,
            error: ""@,
            ..preview
        }
    } else {
        preview
    }
}

pub fn finish_media_preview(preview: &mut MediaPreview, id: &str, path: &str, token: Option<u64>)
    ensures
        final(preview)@ == preview_finished(old(preview)@, id@, path@, token),
{
    let current: bool = match token {
        Some(t) => t == preview.token,
        None => false,
    };
    if !current || !preview.open || !same(preview.item.id.as_str(), id) {
        return ;
    }
    preview.item.preview = path.to_owned();
    preview.item.ready = true;
    preview.item.local = true;
    preview.loading = false;
    preview.error = "".to_owned();
}

/// The preview when a file could not be fetched.
pub open spec fn preview_failed(
    preview: PreviewView,
    id: Seq<char>,
    token: u64,
    message: Seq<char>,
) -> PreviewView {
    if is_current(preview, id, Some(token)) {
        PreviewView { loading: false, error: message, ..preview }
    } else {
        preview
    }
}

pub fn fail_media_preview(preview: &mut MediaPreview, id: &str, token: u64, message: &str)
    ensures
        final(preview)@ == preview_failed(old(preview)@, id@, token, message@),
{
    if preview.token != token || !preview.open || !same(preview.item.id.as_str(), id) {
        return ;
    }
    preview.loading = false;
    preview.error = message.to_owned();
}

/// The file that the preview shows, on this machine.
pub open spec fn preview_file(
    preview: PreviewView,
    personal: Seq<JsonModel>,
    references: Seq<JsonModel>,
    local: Map<Seq<char>, Seq<char>>,
) -> Option<Seq<char>> {
    let id = preview.item.id;
    if preview.source == "personal"@ {
        match first_where(personal, text_is("id"@, id)) {
            Some(i) => Some(personal[i].text("path"@)),
            None => None,
        }
    } else if preview.source == "reference"@ {
        match place_of_client(references, id) {
            Some(i) => Some(references[i].text("local_path"@)),
            None => None,
        }
    } else if local.contains_key(id) {
        Some(local[id])
    } else {
        None
    }
}

fn find_file(
    preview: &MediaPreview,
    personal: &Vec<Json>,
    references: &Vec<Json>,
    local: &TextMap<String>,
) -> (r: Option<String>)
    ensures
        opt(r) == preview_file(preview@, models(personal@), models(references@), local@),
{
    let id: &str = preview.item.id.as_str();
    if same(preview.source.as_str(), "personal") {
        match find_text(personal, "id", id) {
            Some(i) => Some(personal[i].text("path")),
            None => None,
        }
    } else if same(preview.source.as_str(), "reference") {
        match find_text(references, "client_id", id) {
            Some(i) => Some(references[i].text("local_path")),
            None => None,
        }
    } else {
        match local.get(id) {
            Some(path) => Some(path.clone()),
            None => None,
        }
    }
}

/// The preview, the intents and the steps when the form is filled from the
/// task that the preview shows.
pub open spec fn preview_refilled(
    preview: PreviewView,
    intents: IntentsView,
    list: TaskListView,
    catalog: nat,
) -> (PreviewView, IntentsView, Seq<StepView>) {
    let id = preview.item.id;
    let closed = PreviewView { open: false, ..preview };
    if catalog == 0 {
        (
            closed,
            IntentsView { refill_id: Some(id), ..intents },
            seq![StepView::Error(""@), StepView::RefreshModels, StepView::Page(1)],
        )
    } else {
        match refill_inputs(list, id) {
            Err(e) => (
                PreviewView { error: e, ..preview },
                intents,
                seq![StepView::Error(""@)],
            ),
            Ok(_) => (
                closed,
                intents,
                seq![StepView::Error(""@), StepView::RefillTask(id), StepView::Page(1)],
            ),
        }
    }
}

fn refill_preview(
    preview: &mut MediaPreview,
    intents: &mut Intents,
    list: &TaskList,
    catalog: usize,
) -> (r: Vec<Step>)
    ensures
        (final(preview)@, final(intents)@, step_views(r@)) == preview_refilled(
            old(preview)@,
            old(intents)@,
            list@,
            catalog as nat,
        ),
{
    let id: String = preview.item.id.clone();
    let mut steps: Vec<Step> = one(Step::Error("".to_owned()));
    if catalog == 0 {
        intents.refill_id = Some(id);
        then_do(&mut steps, Step::RefreshModels);
    } else {
        match refill_task(list, id.as_str()) {
            Err(e) => {
                preview.error = e;
                return steps;
            },
            Ok(_) => {
                then_do(&mut steps, Step::RefillTask(id));
            },
        }
    }
    preview.open = false;
    then_do(&mut steps, Step::Page(1));
    proof {
        assert(step_views(steps@) =~= preview_refilled(
            old(preview)@,
            old(intents)@,
            list@,
            catalog as nat,
        ).2);
    }
    steps
}

/// The preview and the steps when the file that it shows, at `path`, is used.
pub open spec fn file_previewed(
    preview: PreviewView,
    studio: StudioView,
    action: Seq<char>,
    path: Seq<char>,
) -> (PreviewView, Seq<StepView>) {
    let cleared = seq![StepView::Error(""@)];
    let closed = PreviewView { open: false, ..preview };
    let item = preview.item;
    let fault = add_fault(
        studio.form.mode,
        studio.form.model_index,
        studio.catalog,
        studio.references,
        item.kind,
    );
    if action == "play"@ {
        (preview, cleared.push(StepView::OpenFile(path)))
    } else if action == "download"@ {
        (preview, cleared.push(StepView::Notice("素材已保存到本机"@)))
    } else if action == "reference"@ && preview.source != "reference"@ {
        if preview.source == "personal"@ && (!studio.signed_in || studio.catalog.models.len()
            == 0) {
            (closed, cleared.push(StepView::PersonalReference(item.id)))
        } else if fault is Some {
            (PreviewView { error: fault->0, ..preview }, cleared)
        } else {
            (
                closed,
                cleared.push(StepView::Upload(path, "generation_input"@)).push(
                    StepView::Page(1),
                ).push(StepView::GenerationStep(0)),
            )
        }
    } else if action == "import"@ {
        (closed, cleared.push(StepView::ImportNamed(path, item.name)))
    } else if action == "canvas"@ && item.kind == "image"@ {
        (
            closed,
            cleared.push(
                StepView::Handoff(
                    "canvas"@,
                    seq![ImportView { path, name: Some(item.name) }],
                ),
            ),
        )
    } else if action == "team"@ && preview.source == "task"@ {
        (closed, cleared.push(StepView::Page(1)).push(StepView::SaveTeamTask(item.id)))
    } else {
        (preview, cleared)
    }
}

fn use_previewed(preview: &mut MediaPreview, studio: &Studio, action: &str, path: String) -> (r: Vec<
    Step,
>)
    ensures
        (final(preview)@, step_views(r@)) == file_previewed(
            old(preview)@,
            studio@,
            action@,
            path@,
        ),
{
    let mut steps: Vec<Step> = one(Step::Error("".to_owned()));
    if same(action, "play") {
        then_do(&mut steps, Step::OpenFile(path));
    } else if same(action, "download") {
        then_do(&mut steps, Step::Notice("素材已保存到本机".to_owned()));
    } else if same(action, "reference") && !same(preview.source.as_str(), "reference") {
        if same(preview.source.as_str(), "personal") && (!studio.signed_in
            || studio.catalog.models.len() == 0) {
            then_do(&mut steps, Step::PersonalReference(preview.item.id.clone()));
            preview.open = false;
            return steps;
        }
        if let Some(e) = reference_add_error(
            studio.form.mode,
            studio.form.model_index,
            &studio.catalog,
            &studio.references,
            preview.item.kind.as_str(),
        ) {
            preview.error = e;
            return steps;
        }
        then_do(&mut steps, Step::Upload(path, "generation_input".to_owned()));
        then_do(&mut steps, Step::Page(1));
        then_do(&mut steps, Step::GenerationStep(0));
        preview.open = false;
    } else if same(action, "import") {
        then_do(&mut steps, Step::ImportNamed(path, preview.item.name.clone()));
        preview.open = false;
    } else if same(action, "canvas") && same(preview.item.kind.as_str(), "image") {
        let ghost p = path@;
        let mut imports: Vec<Import> = Vec::new();
        imports.push(Import { path, name: Some(preview.item.name.clone()) });
        proof {
            assert(import_views(imports@) =~= seq![
                ImportView { path: p, name: Some(preview.item.name@) },
            ]);
        }
        then_do(&mut steps, Step::Handoff("canvas".to_owned(), imports));
        preview.open = false;
    } else if same(action, "team") && same(preview.source.as_str(), "task") {
        then_do(&mut steps, Step::Page(1));
        then_do(&mut steps, Step::SaveTeamTask(preview.item.id.clone()));
        preview.open = false;
    }
    steps
}

/// The preview, the tasks and the steps when a file of a source is shown large.
pub open spec fn preview_opened(
    preview: PreviewView,
    list: TaskListView,
    picker: PickerView,
    page: TeamView,
    references: Seq<JsonModel>,
    personal: (Seq<JsonModel>, Seq<String>),
    present: Set<Seq<char>>,
    source: Seq<char>,
    id: Seq<char>,
) -> (PreviewView, TaskListView, Seq<StepView>) {
    if source == "personal"@ {
        let (after, steps) = personal_opened(preview, personal.0, personal.1, present, id);
        (after, list, steps)
    } else if source == "asset"@ {
        let (after, steps) = team_opened(preview, list, picker, page, present, id);
        (after, list, steps)
    } else if source == "reference"@ {
        let (after, steps) = reference_opened(preview, references, present, id);
        (after, list, steps)
    } else if source == "task"@ {
        task_opened(preview, list, present, id)
    } else {
        (preview, list, Seq::empty())
    }
}

/// Shows a file of a source large; `sizes` says how large the personal files
/// are.
pub fn open_media_preview(
    preview: &mut MediaPreview,
    list: &mut TaskList,
    picker: &mut Picker,
    page: &TeamPage,
    references: &Vec<Json>,
    personal: &Vec<Json>,
    sizes: &Vec<String>,
    present: &TextSet,
    source: &str,
    id: &str,
) -> (r: Vec<Step>)
    requires
        sizes.len() == personal.len(),
    ensures
        final(picker)@ == old(picker)@,
        (final(preview)@, final(list)@, step_views(r@)) == preview_opened(
            old(preview)@,
            old(list)@,
            old(picker)@,
            page@,
            models(references@),
            (models(personal@), sizes@),
            present@,
            source@,
            id@,
        ),
{
    if same(source, "personal") {
        open_personal_media_preview(preview, personal, sizes, present, id)
    } else if same(source, "asset") {
        open_team_media_preview(preview, list, picker, page, present, id)
    } else if same(source, "reference") {
        open_reference_media_preview(preview, references, present, id)
    } else if same(source, "task") {
        open_task_media_preview(preview, list, present, id)
    } else {
        none()
    }
}

/// The preview, the intents and the steps after an action in the preview.
pub open spec fn preview_acted(
    preview: PreviewView,
    intents: IntentsView,
    studio: StudioView,
    list: TaskListView,
    personal: Seq<JsonModel>,
    present: Set<Seq<char>>,
    action: Seq<char>,
) -> (PreviewView, IntentsView, Seq<StepView>) {
    let file = preview_file(preview, personal, studio.references, list.local);
    if !preview.open {
        (preview, intents, Seq::empty())
    } else if action == "retry"@ {
        (preview, intents, seq![StepView::OpenPreview(preview.source, preview.item.id)])
    } else if action == "refill"@ && preview.source == "task"@ {
        preview_refilled(preview, intents, list, studio.catalog.models.len())
    } else if !preview.item.ready || preview.loading {
        (preview, intents, seq![StepView::Error(""@)])
    } else if file is None || !present.contains(file->0) {
        (
            PreviewView { error: "本机文件已移动或丢失，请重试"@, ..preview },
            intents,
            seq![StepView::Error(""@)],
        )
    } else {
        let (after, steps) = file_previewed(preview, studio, action, file->0);
        (after, intents, steps)
    }
}

/// Does what a button of the preview stands for.
pub fn media_preview_action(
    preview: &mut MediaPreview,
    intents: &mut Intents,
    studio: &Studio,
    list: &TaskList,
    personal: &Vec<Json>,
    present: &TextSet,
    action: &str,
) -> (r: Vec<Step>)
    ensures
        (final(preview)@, final(intents)@, step_views(r@)) == preview_acted(
            old(preview)@,
            old(intents)@,
            studio@,
            list@,
            models(personal@),
            present@,
            action@,
        ),
{
    if !preview.open {
        return none();
    }
    if same(action, "retry") {
        return one(Step::OpenPreview(preview.source.clone(), preview.item.id.clone()));
    }
    if same(action, "refill") && same(preview.source.as_str(), "task") {
        return refill_preview(preview, intents, list, studio.catalog.models.len());
    }
    if !preview.item.ready || preview.loading {
        return one(Step::Error("".to_owned()));
    }
    let file: Option<String> = find_file(preview, personal, &studio.references, &list.local);
    match file {
        Some(path) => if present.has(path.as_str()) {
            use_previewed(preview, studio, action, path)
        } else {
            preview.error = "本机文件已移动或丢失，请重试".to_owned();
            one(Step::Error("".to_owned()))
        },
        None => {
            preview.error = "本机文件已移动或丢失，请重试".to_owned();
            one(Step::Error("".to_owned()))
        },
    }
}

/// An answer to an earlier preview changes nothing: neither a file that comes
/// late nor a late error reaches the file that is shown now.
pub proof fn late_answers_are_ignored(
    preview: PreviewView,
    source: Seq<char>,
    item: ItemRow,
    loading: bool,
    error: Seq<char>,
    id: Seq<char>,
    path: Seq<char>,
    message: Seq<char>,
)
    ensures
        ({
            let now = preview_set(preview, source, item, loading, error);
            &&& preview_finished(now, id, path, Some(preview.token)) == now
            &&& preview_failed(now, id, preview.token, message) == now
            &&& preview_finished(now, id, path, None) == now
        }),
{
}

} // verus!
