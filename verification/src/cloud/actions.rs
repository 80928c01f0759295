//! What the actions of the window do to the client.

use crate::cloud::auth::{
    code_asked, email_outcome, normal_email, normalized_auth_email, quiet, quieted, send_auth_code,
    submit_auth, submitted, switch_auth, switched, AuthForm, AuthView,
};
use crate::cloud::catalog::{options_updated, update_model_options, FormView};
use crate::cloud::client::{is_sound, Client, ClientView};
use crate::cloud::export_copy::{
    export_retried, retry_copy_export, text_list, text_models, ExportCopyJob, PanelView,
};
use crate::cloud::generation::QuoteView;
use crate::cloud::imports::{
    begin_handoff, cancel_creation, cancel_project_import, creation_cancelled, end_handoff,
    handoff_begun, handoff_failed, handoff_failed_of, import_cancelled, project_opened,
    project_ready, select_handoff, target_chosen, Destinations, TransfersView,
};
use crate::cloud::intents::{pair_views, IntentsView};
use crate::cloud::mentions::{
    cursor_of, mention_opened, mention_span, token_text, with_token, PromptView,
};
use crate::cloud::personal_actions::{
    library_job, personal_acted, personal_action, personal_job, single, ActionFacts, ActionView,
};
use crate::cloud::picker::{
    begin_asset_picker, clear_picker_selection, here, is_here, picker_begun, picker_confirm,
    picker_confirmed, picker_toggle, picker_toggled, picker_synced, sync_picker_selection,
    FactsView, PickerFacts, PickerView,
};
use crate::cloud::preview::{
    media_preview_action, open_reference_media_preview, open_task_media_preview,
    open_team_media_preview, preview_acted, reference_opened, task_opened, team_opened,
};
use crate::cloud::references::{
    add_fault, insert_mention, label_of_kind, number_of, place_of_client, prompt_without,
    ready_client, reference_add_error, remove_reference,
};
use crate::cloud::requests::{job_views, JobQueue, QueueView, RequestView};
use crate::cloud::results::{
    asset_fetched, chosen_tasks, download_asset, download_task, ids_of, keep_chosen, list_ids,
    plain_imports, results_refused, start_result_batch, task_fetched,
};
use crate::cloud::session::{navigate, navigation_steps};
use crate::cloud::steps::{
    ask, asking, fail, fetch, fetching, none, one, step_if, step_views, then_all, then_do, Panel,
    Step, StepView,
};
use crate::cloud::studio::{open_reference_mention, StudioView};
use crate::cloud::submissions::{generate_with, generation_asked};
use crate::cloud::tasks::{
    can_fetch, reference_source, selected_task_index, task_has_downloadable_output, task_place,
    task_reference_source, ResultBatchView, TaskListView,
};
use crate::cloud::teams::{
    assets_refreshed, members_request, refresh_assets, team_id, team_of, TeamView,
};
use crate::cloud::templates::{ask_refill, refill_asked, template_acted, template_action};
use crate::cloud::uploads::{
    reference_replaced, reference_retried, replace_reference_from_path, replacement_refused,
    retry_reference,
};
use crate::collections::{TextMap, TextSet};
use crate::generation_templates::{Library, LibraryView};
use crate::ids::{fresh_id, is_uuid};
use crate::json::{
    holds_object, models, opt_texts, read_text_items, read_text_member, reads_object, text_items,
    text_member, Json, JsonModel,
};
use crate::lists::{
    any, any_text, find_text, first_where, kept, kept_all, kept_step, text_is,
};
use crate::text::{
    byte_len, cat, cat3, has_prefix, parse_i32, parsed_i32, prefix_rest, same, signed_decimal,
    starts_with, strip_prefix, to_signed_decimal, trim, trimmed, views,
};
use vstd::prelude::*;
use vstd::string::*;

verus! {

/// What an action may have to be judged by.
pub struct Surroundings<'a> {
    /// The files that are there.
    pub present: &'a TextSet,
    /// Whether a clip project is open.
    pub clip_open: bool,
    /// Whether the canvas that an action names is one of the recent ones and
    /// is there.
    pub canvas_known: bool,
    pub destinations: &'a Destinations,
    pub library: &'a Library,
    /// The name that is typed for a new team.
    pub team_name: &'a str,
    /// The invitation that is typed.
    pub invite: &'a str,
}

pub struct SurroundingsView {
    pub present: Set<Seq<char>>,
    pub clip_open: bool,
    pub canvas_known: bool,
    pub destinations: Destinations,
    pub library: LibraryView,
    pub team_name: Seq<char>,
    pub invite: Seq<char>,
}

impl<'a> View for Surroundings<'a> {
    type V = SurroundingsView;

    open spec fn view(&self) -> SurroundingsView {
        SurroundingsView {
            present: self.present@,
            clip_open: self.clip_open,
            canvas_known: self.canvas_known,
            destinations: *self.destinations,
            library: self.library@,
            team_name: self.team_name@,
            invite: self.invite@,
        }
    }
}

/// What the picker and the results are judged by.
pub open spec fn facts_of(c: ClientView, present: Set<Seq<char>>) -> FactsView {
    FactsView {
        mode: c.studio.form.mode,
        model_index: c.studio.form.model_index,
        catalog: c.studio.catalog,
        references: c.studio.references,
        personal: c.personal.assets,
        page: c.team,
        local: c.tasks.local,
        present,
        folder: c.tasks.folder,
        signed_in: c.studio.signed_in,
    }
}

/// The client and the steps after an action on projects and handoffs.
pub open spec fn project_acted(
    c: ClientView,
    w: SurroundingsView,
    name: Seq<char>,
    id: Seq<char>,
) -> Option<(ClientView, Seq<StepView>)> {
    if name == "handoff-select"@ {
        let (transfers, steps) = target_chosen(c.transfers, w.clip_open, id);
        Some((ClientView { transfers, ..c }, steps))
    } else if name == "handoff-cancel"@ {
        Some(
            (
                ClientView {
                    transfers: TransfersView { handoff: None, open: false, ..c.transfers },
                    ..c
                },
                Seq::empty(),
            ),
        )
    } else if name == "handoff-complete"@ {
        Some(
            (
                ClientView {
                    transfers: TransfersView { handoff: None, open: false, ..c.transfers },
                    ..c
                },
                seq![StepView::Page(6), StepView::GalleryOpen(false)],
            ),
        )
    } else if name == "handoff-failed"@ {
        let (transfers, steps) = handoff_failed_of(c.transfers, id);
        Some((ClientView { transfers, ..c }, steps))
    } else if name == "handoff-create-cancel"@ {
        let (transfers, steps) = creation_cancelled(c.transfers);
        Some((ClientView { transfers, ..c }, steps))
    } else if name == "clip-project-search"@ {
        Some((c, seq![StepView::ClipSearch(id), StepView::DrawClips]))
    } else if name == "clip-project-sort"@ || name == "clip-project-view"@ {
        Some((c, seq![StepView::DrawClips]))
    } else if name == "canvas-project-search"@ {
        Some((c, seq![StepView::CanvasSearch(id), StepView::Draw(Panel::Projects)]))
    } else if name == "canvas-project-sort"@ || name == "canvas-project-view"@ {
        Some((c, seq![StepView::Draw(Panel::Projects)]))
    } else if name == "canvas-projects-refresh"@ {
        Some((c, seq![StepView::RefreshProjects]))
    } else if name == "canvas-new"@ {
        Some(
            (
                c,
                seq![
                    StepView::GalleryOpen(false),
                    StepView::Page(6),
                    StepView::CanvasNew(Seq::empty()),
                ],
            ),
        )
    } else if name == "canvas-open"@ {
        Some(
            (
                c,
                if w.canvas_known {
                    seq![
                        StepView::GalleryOpen(false),
                        StepView::Page(6),
                        StepView::CanvasOpen(id, Seq::empty()),
                    ]
                } else {
                    seq![
                        StepView::Error("画布项目不存在，请刷新后重试"@),
                        StepView::RefreshProjects,
                    ]
                },
            ),
        )
    } else if name == "canvas-drop-batch"@ {
        Some(files_dropped(c, w, text_items(id)))
    } else if name == "project-ready"@ {
        let (transfers, steps) = project_opened(c.transfers);
        Some((ClientView { transfers, ..c }, steps))
    } else if name == "cancel-project-import"@ {
        let (transfers, steps) = import_cancelled(c.transfers);
        Some((ClientView { transfers, ..c }, steps))
    } else {
        None
    }
}

/// The client and the steps when files are dropped on a canvas; `paths` is the
/// list of them, where it could be read.
pub open spec fn files_dropped(
    c: ClientView,
    w: SurroundingsView,
    paths: Option<Seq<Seq<char>>>,
) -> (ClientView, Seq<StepView>) {
    match paths {
        Some(list) => if list.len() > 0 {
            let (transfers, steps) = handoff_begun(
                c.transfers,
                "canvas"@,
                plain_imports(list),
                w.present,
                w.destinations,
                c.studio.page,
            );
            (ClientView { transfers, ..c }, steps)
        } else {
            (c, seq![StepView::Error("拖入的素材无效，请重新选择"@)])
        },
        None => (c, seq![StepView::Error("拖入的素材无效，请重新选择"@)]),
    }
}

/// Hands files that are dropped on a canvas over to a project.
pub fn drop_files(c: &mut Client, w: &Surroundings, paths: Option<Vec<String>>) -> (r: Vec<Step>)
    ensures
        (final(c)@, step_views(r@)) == files_dropped(old(c)@, w@, opt_texts(paths)),
{
    if let Some(list) = paths {
        proof {
            assert(views(list@).len() == list@.len());
        }
        if list.len() > 0 {
            return begin_handoff(
                &mut c.transfers,
                "canvas",
                &list,
                w.present,
                w.destinations,
                c.studio.page,
            );
        }
    }
    fail("拖入的素材无效，请重新选择")
}

fn act_on_project(c: &mut Client, w: &Surroundings, name: &str, id: &str) -> (r: Option<Vec<Step>>)
    ensures
        match project_acted(old(c)@, w@, name@, id@) {
            Some((after, steps)) => final(c)@ == after && r is Some && step_views(r->0@) == steps,
            None => final(c)@ == old(c)@ && r is None,
        },
{
    if same(name, "handoff-select") {
        Some(select_handoff(&mut c.transfers, w.clip_open, id))
    } else if same(name, "handoff-cancel") {
        end_handoff(&mut c.transfers);
        Some(none())
    } else if same(name, "handoff-complete") {
        end_handoff(&mut c.transfers);
        let mut steps: Vec<Step> = one(Step::Page(6));
        then_do(&mut steps, Step::GalleryOpen(false));
        Some(steps)
    } else if same(name, "handoff-failed") {
        Some(handoff_failed(&mut c.transfers, id))
    } else if same(name, "handoff-create-cancel") {
        Some(cancel_creation(&mut c.transfers))
    } else if same(name, "clip-project-search") {
        let mut steps: Vec<Step> = one(Step::ClipSearch(id.to_owned()));
        then_do(&mut steps, Step::DrawClips);
        Some(steps)
    } else if same(name, "clip-project-sort") || same(name, "clip-project-view") {
        Some(one(Step::DrawClips))
    } else if same(name, "canvas-project-search") {
        let mut steps: Vec<Step> = one(Step::CanvasSearch(id.to_owned()));
        then_do(&mut steps, Step::Draw(Panel::Projects));
        Some(steps)
    } else if same(name, "canvas-project-sort") || same(name, "canvas-project-view") {
        Some(one(Step::Draw(Panel::Projects)))
    } else if same(name, "canvas-projects-refresh") {
        Some(one(Step::RefreshProjects))
    } else if same(name, "canvas-new") {
        let mut steps: Vec<Step> = one(Step::GalleryOpen(false));
        then_do(&mut steps, Step::Page(6));
        let fresh: Step = Step::CanvasNew(Vec::new());
        proof {
            assert(fresh@ == StepView::CanvasNew(Seq::empty())) by {
                assert(crate::cloud::steps::import_views(fresh->CanvasNew_0@) =~= Seq::empty());
            }
        }
        then_do(&mut steps, fresh);
        Some(steps)
    } else if same(name, "canvas-open") {
        if w.canvas_known {
            let mut steps: Vec<Step> = one(Step::GalleryOpen(false));
            then_do(&mut steps, Step::Page(6));
            let open: Step = Step::CanvasOpen(id.to_owned(), Vec::new());
            proof {
                assert(open@ == StepView::CanvasOpen(id@, Seq::empty())) by {
                    assert(crate::cloud::steps::import_views(open->CanvasOpen_1@) =~= Seq::empty());
                }
            }
            then_do(&mut steps, open);
            Some(steps)
        } else {
            let mut steps: Vec<Step> = fail("画布项目不存在，请刷新后重试");
            then_do(&mut steps, Step::RefreshProjects);
            Some(steps)
        }
    } else if same(name, "canvas-drop-batch") {
        let paths: Option<Vec<String>> = read_text_items(id);
        Some(drop_files(c, w, paths))
    } else if same(name, "project-ready") {
        Some(project_ready(&mut c.transfers))
    } else if same(name, "cancel-project-import") {
        Some(cancel_project_import(&mut c.transfers))
    } else {
        None
    }
}

/// Whether a task has come to an end.
pub open spec fn has_ended(task: JsonModel) -> bool {
    ||| task.text("status"@) == "succeeded"@
    ||| task.text("status"@) == "failed"@
    ||| task.text("status"@) == "expired"@
}

pub open spec fn is_unfinished(ids: Seq<Seq<char>>) -> spec_fn(JsonModel) -> bool {
    |task: JsonModel| ids.contains(task.text("id"@)) && !has_ended(task)
}

fn any_unfinished(tasks: &Vec<Json>, ids: &Vec<String>) -> (r: bool)
    ensures
        r == any(models(tasks@), is_unfinished(views(ids@))),
{
    let ghost all = models(tasks@);
    let mut i: usize = 0;
    while i < tasks.len()
        invariant
            i <= tasks.len(),
            all == models(tasks@),
            forall|j: int| 0 <= j < i ==> !is_unfinished(views(ids@))(#[trigger] all[j]),
        decreases tasks.len() - i,
    {
        let id: String = tasks[i].text("id");
        proof {
            assert(all[i as int] == tasks@[i as int]@);
        }
        if crate::text::has_text(ids, id.as_str()) && !(tasks[i].text_is("status", "succeeded")
            || tasks[i].text_is("status", "failed") || tasks[i].text_is("status", "expired")) {
            proof {
                assert(is_unfinished(views(ids@))(all[i as int]));
            }
            return true;
        }
        i = i + 1;
    }
    false
}

/// The tasks and the steps when the chosen results are to be removed: the
/// dialog asks first, of results that have come to an end only.
pub open spec fn removal_asked(list: TaskListView) -> (TaskListView, Seq<StepView>) {
    let ids = ids_of(chosen_tasks(list));
    if ids.len() == 0 {
        (list, seq![StepView::Error("请先选择生成结果"@)])
    } else if any(list.tasks, is_unfinished(ids)) {
        (list, seq![StepView::Error("生成中的结果暂不能删除"@)])
    } else {
        (
            TaskListView { pending_delete: ids, ..list },
            seq![StepView::TaskDelete(Some(ids.len() as i32))],
        )
    }
}

fn ask_removal(list: &mut crate::cloud::tasks::TaskList) -> (r: Vec<Step>)
    ensures
        (final(list)@, step_views(r@)) == removal_asked(old(list)@),
{
    let chosen: Vec<Json> = keep_chosen(&list.tasks, &list.selected);
    let ids: Vec<String> = list_ids(&chosen);
    proof {
        assert(views(ids@).len() == ids@.len());
    }
    if ids.len() == 0 {
        return fail("请先选择生成结果");
    }
    if any_unfinished(&list.tasks, &ids) {
        return fail("生成中的结果暂不能删除");
    }
    let count: i32 = ids.len() as i32;
    list.pending_delete = ids;
    one(Step::TaskDelete(Some(count)))
}

/// The tasks and the steps when the removal is confirmed.
pub open spec fn removal_confirmed(list: TaskListView) -> (TaskListView, Seq<StepView>) {
    if list.pending_delete.len() == 0 {
        (list, Seq::empty())
    } else {
        (
            TaskListView { pending_delete: Seq::empty(), ..list },
            seq![
                StepView::TaskDelete(None),
                ask(
                    "tasks-trash"@,
                    "POST"@,
                    "/api/generation/tasks/trash"@,
                    single("ids"@, JsonModel::Array(text_models(list.pending_delete))),
                ),
            ],
        )
    }
}

fn single_member(key: &str, value: Json) -> (r: Json)
    ensures
        r@ == single(key@, value@),
{
    let ghost view = value@;
    let mut fields: Vec<(String, Json)> = Vec::new();
    fields.push((key.to_owned(), value));
    let r: Json = Json::from_members(fields);
    proof {
        assert(r@->Object_0 =~= single(key@, view)->Object_0);
    }
    r
}

fn confirm_removal(list: &mut crate::cloud::tasks::TaskList) -> (r: Vec<Step>)
    ensures
        (final(list)@, step_views(r@)) == removal_confirmed(old(list)@),
{
    proof {
        assert(views(list.pending_delete@).len() == list.pending_delete@.len());
    }
    if list.pending_delete.len() == 0 {
        return none();
    }
    let body: Json = single_member("ids", text_list(&list.pending_delete));
    list.pending_delete = Vec::new();
    proof {
        assert(views(list.pending_delete@) =~= Seq::empty());
    }
    let mut steps: Vec<Step> = one(Step::TaskDelete(None));
    then_do(
        &mut steps,
        asking("tasks-trash", "POST", "/api/generation/tasks/trash", body),
    );
    steps
}

/// The tasks and the steps when a result is shown large: one that is not here
/// is fetched once.
pub open spec fn task_shown(list: TaskListView, present: Set<Seq<char>>, id: Seq<char>) -> (
    TaskListView,
    Seq<StepView>,
) {
    let first = seq![StepView::Error(""@)];
    let placed = TaskListView {
        selected_task: match task_place(list.tasks, id) {
            Some(i) => i,
            None => (-1) as i32,
        },
        ..list
    };
    match first_where(list.tasks, text_is("id"@, id)) {
        None => (
            TaskListView { preview_open: false, ..placed },
            first.push(StepView::Error("未找到该生成结果，请刷新后重试"@)),
        ),
        Some(i) => if is_here(list.local, present, id) {
            (placed, first)
        } else if list.tasks[i].text("status"@) != "succeeded"@ {
            (
                placed,
                first.push(
                    StepView::Error("该生成结果尚未完成，且本机结果文件不可用"@),
                ),
            )
        } else if !can_fetch(list.tasks[i]) {
            (placed, first.push(StepView::Error("该生成结果文件不可用，请刷新后重试"@)))
        } else {
            let noted = TaskListView { attempts: list.attempts.insert(id), ..placed };
            let told = first.push(StepView::Notice("正在加载生成结果"@));
            (
                noted,
                if list.attempts.contains(id) {
                    told
                } else {
                    told + task_fetched(noted, present, id, "cache"@, ""@, None)
                },
            )
        },
    }
}

fn show_task(list: &mut crate::cloud::tasks::TaskList, present: &TextSet, id: &str) -> (r: Vec<Step>)
    ensures
        (final(list)@, step_views(r@)) == task_shown(old(list)@, present@, id@),
{
    let mut steps: Vec<Step> = one(Step::Error("".to_owned()));
    list.selected_task = match selected_task_index(&list.tasks, id) {
        Some(i) => i,
        None => -1,
    };
    match find_text(&list.tasks, "id", id) {
        None => {
            list.preview_open = false;
            then_do(
                &mut steps,
                Step::Error("未找到该生成结果，请刷新后重试".to_owned()),
            );
        },
        Some(i) => {
            let file: Option<String> = here(&list.local, present, id);
            if file.is_none() {
                if !list.tasks[i].text_is("status", "succeeded") {
                    then_do(
                        &mut steps,
                        Step::Error(
                            "该生成结果尚未完成，且本机结果文件不可用".to_owned(),
                        ),
                    );
                } else if !task_has_downloadable_output(&list.tasks[i]) {
                    then_do(
                        &mut steps,
                        Step::Error("该生成结果文件不可用，请刷新后重试".to_owned()),
                    );
                } else {
                    let fresh: bool = list.attempts.insert(id);
                    then_do(&mut steps, Step::Notice("正在加载生成结果".to_owned()));
                    if fresh {
                        let more: Vec<Step> = download_task(list, present, id, "cache", "");
                        then_all(&mut steps, more);
                    }
                }
            }
        },
    }
    steps
}

/// The tasks and the steps when a result is to become a reference.
pub open spec fn task_referenced(
    list: TaskListView,
    studio: StudioView,
    present: Set<Seq<char>>,
    id: Seq<char>,
) -> (TaskListView, Seq<StepView>) {
    let first = seq![StepView::Error(""@)];
    match first_where(list.tasks, text_is("id"@, id)) {
        None => (list, first.push(StepView::Error("未找到该生成结果，请刷新后重试"@))),
        Some(i) => {
            let task = list.tasks[i];
            let file = if is_here(list.local, present, id) {
                Some(list.local[id])
            } else {
                None
            };
            let fault = add_fault(
                studio.form.mode,
                studio.form.model_index,
                studio.catalog,
                studio.references,
                task.text("kind"@),
            );
            match reference_source(task, file) {
                Err(e) => (list, first.push(StepView::Error(e))),
                Ok(source) => if fault is Some {
                    (list, first.push(StepView::Error(fault->0)))
                } else if source is Some {
                    (
                        list,
                        first.push(StepView::GenerationStep(0)).push(
                            StepView::Upload(source->0, "generation_input"@),
                        ),
                    )
                } else if list.references.contains(id) {
                    (list, first.push(StepView::Notice("正在准备该结果，请稍候"@)))
                } else {
                    let noted = TaskListView { references: list.references.insert(id), ..list };
                    (
                        noted,
                        first.push(StepView::GenerationStep(0)) + task_fetched(
                            noted,
                            present,
                            id,
                            "reference"@,
                            ""@,
                            None,
                        ),
                    )
                },
            }
        },
    }
}

fn reference_task(c: &mut Client, present: &TextSet, id: &str) -> (r: Vec<Step>)
    ensures
        ({
            let (tasks, steps) = task_referenced(old(c)@.tasks, old(c)@.studio, present@, id@);
            final(c)@ == (ClientView { tasks, ..old(c)@ }) && step_views(r@) == steps
        }),
{
    let mut steps: Vec<Step> = one(Step::Error("".to_owned()));
    let i: usize = match find_text(&c.tasks.tasks, "id", id) {
        None => {
            then_do(
                &mut steps,
                Step::Error("未找到该生成结果，请刷新后重试".to_owned()),
            );
            return steps;
        },
        Some(i) => i,
    };
    let file: Option<String> = here(&c.tasks.local, present, id);
    let source: Option<String> = match task_reference_source(&c.tasks.tasks[i], file) {
        Err(e) => {
            then_do(&mut steps, Step::Error(e));
            return steps;
        },
        Ok(source) => source,
    };
    let kind: String = c.tasks.tasks[i].text("kind");
    if let Some(e) = reference_add_error(
        c.studio.form.mode,
        c.studio.form.model_index,
        &c.studio.catalog,
        &c.studio.references,
        kind.as_str(),
    ) {
        then_do(&mut steps, Step::Error(e));
        return steps;
    }
    if let Some(path) = source {
        then_do(&mut steps, Step::GenerationStep(0));
        then_do(&mut steps, Step::Upload(path, "generation_input".to_owned()));
        return steps;
    }
    if c.tasks.references.has(id) {
        then_do(&mut steps, Step::Notice("正在准备该结果，请稍候".to_owned()));
        return steps;
    }
    c.tasks.references.insert(id);
    then_do(&mut steps, Step::GenerationStep(0));
    let more: Vec<Step> = download_task(&c.tasks, present, id, "reference", "");
    then_all(&mut steps, more);
    steps
}

/// The tasks after a result is put into the choice or taken out of it.
pub open spec fn task_toggled(list: TaskListView, id: Seq<char>) -> TaskListView {
    TaskListView {
        selected: if list.selected.contains(id) {
            list.selected.remove(id)
        } else {
            list.selected.insert(id)
        },
        ..list
    }
}

/// The intent of an action that uses the chosen results.
pub open spec fn batch_intent(name: Seq<char>) -> Option<Seq<char>> {
    if name == "task-batch-reference"@ {
        Some("reference"@)
    } else if name == "task-batch-canvas"@ {
        Some("canvas"@)
    } else if name == "task-batch-clip"@ {
        Some("clip"@)
    } else if name == "task-batch-export"@ {
        Some("export"@)
    } else {
        None
    }
}

fn find_batch_intent(name: &str) -> (r: Option<&'static str>)
    ensures
        match r {
            Some(s) => batch_intent(name@) == Some(s@),
            None => batch_intent(name@) is None,
        },
{
    if same(name, "task-batch-reference") {
        Some("reference")
    } else if same(name, "task-batch-canvas") {
        Some("canvas")
    } else if same(name, "task-batch-clip") {
        Some("clip")
    } else if same(name, "task-batch-export") {
        Some("export")
    } else {
        None
    }
}

/// The tasks and the steps when the chosen results are to be used.
pub open spec fn batch_begun(c: ClientView, present: Set<Seq<char>>, intent: Seq<char>) -> (
    TaskListView,
    Seq<StepView>,
) {
    match results_refused(c.tasks, facts_of(c, present), intent) {
        Some(message) => (c.tasks, seq![StepView::Error(message)]),
        None => (
            TaskListView {
                batch: Some(ResultBatchView { intent, ids: ids_of(chosen_tasks(c.tasks)) }),
                ..c.tasks
            },
            seq![StepView::ContinueResults],
        ),
    }
}

fn begin_batch(c: &mut Client, present: &TextSet, intent: &str) -> (r: Vec<Step>)
    ensures
        ({
            let (tasks, steps) = batch_begun(old(c)@, present@, intent@);
            final(c)@ == (ClientView { tasks, ..old(c)@ }) && step_views(r@) == steps
        }),
{
    // The results bring their own files and folder.
    let local: TextMap<String> = TextMap::new();
    let facts: PickerFacts = PickerFacts {
        mode: c.studio.form.mode,
        model_index: c.studio.form.model_index,
        catalog: &c.studio.catalog,
        references: &c.studio.references,
        personal: &c.personal.assets,
        page: &c.team,
        local: &local,
        present,
        folder: "",
        signed_in: c.studio.signed_in,
    };
    start_result_batch(&mut c.tasks, &facts, intent)
}

/// The client and the steps after an action on results.
pub open spec fn task_acted(
    c: ClientView,
    present: Set<Seq<char>>,
    name: Seq<char>,
    id: Seq<char>,
) -> Option<(ClientView, Seq<StepView>)> {
    let list = c.tasks;
    if batch_intent(name) is Some {
        let (tasks, steps) = batch_begun(c, present, batch_intent(name)->0);
        Some((ClientView { tasks, ..c }, steps))
    } else if name == "task-selection-mode"@ {
        let tasks = TaskListView {
            selection_mode: !list.selection_mode,
            selected: if list.selection_mode {
                Set::empty()
            } else {
                list.selected
            },
            ..list
        };
        Some((ClientView { tasks, ..c }, seq![StepView::Draw(Panel::Tasks)]))
    } else if name == "task-select-toggle"@ {
        if any(list.tasks, text_is("id"@, id)) {
            Some(
                (
                    ClientView { tasks: task_toggled(list, id), ..c },
                    seq![StepView::Draw(Panel::Tasks)],
                ),
            )
        } else {
            Some((c, Seq::empty()))
        }
    } else if name == "task-batch-freeze-delete"@ {
        let (tasks, steps) = removal_asked(list);
        Some((ClientView { tasks, ..c }, steps))
    } else if name == "task-batch-cancel-delete"@ {
        Some(
            (
                ClientView { tasks: TaskListView { pending_delete: Seq::empty(), ..list }, ..c },
                seq![StepView::TaskDelete(None)],
            ),
        )
    } else if name == "task-batch-confirm-delete"@ {
        let (tasks, steps) = removal_confirmed(list);
        Some((ClientView { tasks, ..c }, steps))
    } else if name == "task-select"@ {
        let (tasks, steps) = task_shown(list, present, id);
        Some((ClientView { tasks, ..c }, steps))
    } else if name == "task-refill"@ {
        let (intents, steps) = refill_asked(c.intents, list, c.studio.catalog.models.len(), id);
        Some((ClientView { intents, ..c }, seq![StepView::Error(""@)] + steps))
    } else if name == "task-reference"@ {
        let (tasks, steps) = task_referenced(list, c.studio, present, id);
        Some((ClientView { tasks, ..c }, steps))
    } else if name == "task-preview"@ || name == "task-download"@ || name == "task-import"@ {
        Some((c, task_fetched(list, present, id, name.subrange(5, name.len() as int), ""@, None)))
    } else if name == "task-canvas"@ {
        Some(
            (
                c,
                match first_where(list.tasks, text_is("id"@, id)) {
                    Some(i) => if list.tasks[i].text("kind"@) == "image"@ {
                        task_fetched(list, present, id, "canvas"@, ""@, None)
                    } else {
                        seq![StepView::Error("只有图片生成结果可以打开到画布"@)]
                    },
                    None => seq![StepView::Error("只有图片生成结果可以打开到画布"@)],
                },
            ),
        )
    } else if name == "task-save-team"@ {
        let team = team_of(c.team);
        Some(
            (
                c,
                if team.len() == 0 {
                    seq![StepView::Error("请先选择要保存到的团队"@)]
                } else {
                    seq![StepView::Notice(""@)] + task_fetched(
                        list,
                        present,
                        id,
                        "save-team"@,
                        team,
                        None,
                    )
                },
            ),
        )
    } else {
        None
    }
}

fn toggle_task(list: &mut crate::cloud::tasks::TaskList, id: &str)
    ensures
        final(list)@ == task_toggled(old(list)@, id@),
{
    if list.selected.has(id) {
        list.selected.remove(id);
    } else {
        list.selected.insert(id);
    }
}

fn canvas_task(list: &crate::cloud::tasks::TaskList, present: &TextSet, id: &str) -> (r: Vec<Step>)
    ensures
        step_views(r@) == match first_where(list@.tasks, text_is("id"@, id@)) {
            Some(i) => if list@.tasks[i].text("kind"@) == "image"@ {
                task_fetched(list@, present@, id@, "canvas"@, ""@, None)
            } else {
                seq![StepView::Error("只有图片生成结果可以打开到画布"@)]
            },
            None => seq![StepView::Error("只有图片生成结果可以打开到画布"@)],
        },
{
    if let Some(i) = find_text(&list.tasks, "id", id) {
        if list.tasks[i].text_is("kind", "image") {
            return download_task(list, present, id, "canvas", "");
        }
    }
    fail("只有图片生成结果可以打开到画布")
}

fn act_on_task(c: &mut Client, present: &TextSet, name: &str, id: &str) -> (r: Option<Vec<Step>>)
    ensures
        match task_acted(old(c)@, present@, name@, id@) {
            Some((after, steps)) => final(c)@ == after && r is Some && step_views(r->0@) == steps,
            None => final(c)@ == old(c)@ && r is None,
        },
{
    if let Some(intent) = find_batch_intent(name) {
        return Some(begin_batch(c, present, intent));
    }
    if same(name, "task-selection-mode") {
        c.tasks.selection_mode = !c.tasks.selection_mode;
        if !c.tasks.selection_mode {
            c.tasks.selected.clear();
        }
        Some(one(Step::Draw(Panel::Tasks)))
    } else if same(name, "task-select-toggle") {
        if any_text(&c.tasks.tasks, "id", id) {
            toggle_task(&mut c.tasks, id);
            Some(one(Step::Draw(Panel::Tasks)))
        } else {
            Some(none())
        }
    } else if same(name, "task-batch-freeze-delete") {
        Some(ask_removal(&mut c.tasks))
    } else if same(name, "task-batch-cancel-delete") {
        c.tasks.pending_delete = Vec::new();
        proof {
            assert(views(c.tasks.pending_delete@) =~= Seq::empty());
        }
        Some(one(Step::TaskDelete(None)))
    } else if same(name, "task-batch-confirm-delete") {
        Some(confirm_removal(&mut c.tasks))
    } else if same(name, "task-select") {
        Some(show_task(&mut c.tasks, present, id))
    } else if same(name, "task-refill") {
        let count: usize = c.studio.catalog.models.len();
        proof {
            assert(models(c.studio.catalog.models@).len() == count);
        }
        let mut steps: Vec<Step> = one(Step::Error("".to_owned()));
        let more: Vec<Step> = ask_refill(&mut c.intents, &c.tasks, count, id);
        then_all(&mut steps, more);
        Some(steps)
    } else if same(name, "task-reference") {
        Some(reference_task(c, present, id))
    } else if same(name, "task-preview") {
        proof {
            reveal_strlit("task-preview");
            reveal_strlit("preview");
            assert("task-preview"@.subrange(5, 12) =~= "preview"@);
        }
        Some(download_task(&c.tasks, present, id, "preview", ""))
    } else if same(name, "task-download") {
        proof {
            reveal_strlit("task-download");
            reveal_strlit("download");
            assert("task-download"@.subrange(5, 13) =~= "download"@);
        }
        Some(download_task(&c.tasks, present, id, "download", ""))
    } else if same(name, "task-import") {
        proof {
            reveal_strlit("task-import");
            reveal_strlit("import");
            assert("task-import"@.subrange(5, 11) =~= "import"@);
        }
        Some(download_task(&c.tasks, present, id, "import", ""))
    } else if same(name, "task-canvas") {
        Some(canvas_task(&c.tasks, present, id))
    } else if same(name, "task-save-team") {
        let team: String = team_id(&c.team);
        if team.as_str().is_empty() {
            Some(fail("请先选择要保存到的团队"))
        } else {
            let mut steps: Vec<Step> = one(Step::Notice("".to_owned()));
            let more: Vec<Step> = download_task(&c.tasks, present, id, "save-team", team.as_str());
            then_all(&mut steps, more);
            Some(steps)
        }
    } else {
        None
    }
}

/// The client and the steps after an action on the account forms.
pub open spec fn auth_acted(c: ClientView, name: Seq<char>, id: Seq<char>) -> Option<
    (ClientView, Seq<StepView>),
> {
    let email = email_outcome(normal_email(c.auth.email));
    if name == "auth-open"@ {
        Some((c, seq![StepView::ShowAuth(parsed_i32(id))]))
    } else if name == "auth-close"@ {
        if c.auth.busy {
            Some((c, Seq::empty()))
        } else {
            Some(auth_closed(c))
        }
    } else if name == "auth-submit"@ {
        let (auth, steps) = submitted(c.auth, email);
        Some((ClientView { auth, ..c }, steps))
    } else if name == "auth-switch"@ {
        let mode = clamped(
            match parsed_i32(id) {
                Some(n) => n,
                None => 0,
            },
            4,
        );
        if c.auth.busy {
            Some((c, Seq::empty()))
        } else if mode == 0 && c.studio.signed_in && (c.auth.mode == 2 || c.auth.mode == 4) {
            Some(
                (
                    ClientView {
                        auth: AuthView { open: false, ..c.auth },
                        return_page: None,
                        ..c
                    },
                    seq![StepView::Page(4)],
                ),
            )
        } else {
            Some((ClientView { auth: switched(c.auth, mode), ..c }, quieted()))
        }
    } else if name == "auth-resend"@ {
        let (auth, steps) = code_asked(c.auth, c.auth.mode, email);
        Some((ClientView { auth, ..c }, steps))
    } else if name == "auth-verify-start"@ {
        match email {
            Err(message) => Some((c, seq![StepView::Error(message)])),
            Ok(_) => if c.auth.busy {
                Some((c, Seq::empty()))
            } else {
                let (auth, steps) = code_asked(switched(c.auth, 3), 3, email);
                Some((ClientView { auth, ..c }, quieted() + steps))
            },
        }
    } else if name == "change-password"@ {
        Some(
            (
                ClientView {
                    auth: AuthView {
                        open: true,
                        ..switched(AuthView { email: c.account.email, ..c.auth }, 2)
                    },
                    ..c
                },
                quieted(),
            ),
        )
    } else {
        None
    }
}

/// `n` held between 0 and `most`.
pub open spec fn clamped(n: i32, most: i32) -> i32 {
    if n < 0 {
        0
    } else if n > most {
        most
    } else {
        n
    }
}

fn clamp(n: i32, most: i32) -> (r: i32)
    ensures
        r == clamped(n, most),
{
    if n < 0 {
        0
    } else if n > most {
        most
    } else {
        n
    }
}

/// The client and the steps when the account forms are closed: no message is
/// left, and without a session, what waited for one is dropped.
pub open spec fn auth_closed(c: ClientView) -> (ClientView, Seq<StepView>) {
    let auth = AuthView {
        open: false,
        password: ""@,
        password_confirm: ""@,
        token: ""@,
        ..c.auth
    };
    if c.studio.signed_in {
        (ClientView { auth, ..c }, quieted())
    } else {
        (
            ClientView {
                auth,
                return_page: None,
                intents: IntentsView {
                    team_picker: false,
                    references: Seq::empty(),
                    ..c.intents
                },
                picker: PickerView { batch: None, ..c.picker },
                ..c
            },
            step_if(quieted(), c.studio.page == 4, StepView::Page(1)),
        )
    }
}

fn close_auth(c: &mut Client) -> (r: Vec<Step>)
    ensures
        (final(c)@, step_views(r@)) == auth_closed(old(c)@),
{
    c.auth.open = false;
    c.auth.password = "".to_owned();
    c.auth.password_confirm = "".to_owned();
    c.auth.token = "".to_owned();
    let mut steps: Vec<Step> = quiet();
    if !c.studio.signed_in {
        if c.studio.page == 4 {
            then_do(&mut steps, Step::Page(1));
        }
        c.return_page = None;
        c.intents.team_picker = false;
        c.intents.references = Vec::new();
        c.picker.batch = None;
        proof {
            assert(pair_views(c.intents.references@) =~= Seq::empty());
        }
    }
    steps
}

fn start_verification(auth: &mut AuthForm) -> (r: Vec<Step>)
    ensures
        ({
            let email = email_outcome(normal_email(old(auth)@.email));
            match email {
                Err(message) => final(auth)@ == old(auth)@ && step_views(r@) == seq![
                    StepView::Error(message),
                ],
                Ok(_) => if old(auth)@.busy {
                    final(auth)@ == old(auth)@ && step_views(r@) == Seq::<StepView>::empty()
                } else {
                    let (after, steps) = code_asked(switched(old(auth)@, 3), 3, email);
                    final(auth)@ == after && step_views(r@) == quieted() + steps
                },
            }
        }),
{
    match normalized_auth_email(auth.email.as_str()) {
        Err(e) => one(Step::Error(e)),
        Ok(_) => {
            if auth.busy {
                return none();
            }
            let mut steps: Vec<Step> = switch_auth(auth, 3);
            let more: Vec<Step> = send_auth_code(auth, 3);
            then_all(&mut steps, more);
            steps
        },
    }
}

fn act_on_auth(c: &mut Client, name: &str, id: &str) -> (r: Option<Vec<Step>>)
    ensures
        match auth_acted(old(c)@, name@, id@) {
            Some((after, steps)) => final(c)@ == after && r is Some && step_views(r->0@) == steps,
            None => final(c)@ == old(c)@ && r is None,
        },
{
    if same(name, "auth-open") {
        Some(one(Step::ShowAuth(parse_i32(id))))
    } else if same(name, "auth-close") {
        if c.auth.busy {
            Some(none())
        } else {
            Some(close_auth(c))
        }
    } else if same(name, "auth-submit") {
        Some(submit_auth(&mut c.auth))
    } else if same(name, "auth-switch") {
        let asked: i32 = match parse_i32(id) {
            Some(n) => n,
            None => 0,
        };
        let mode: i32 = clamp(asked, 4);
        if c.auth.busy {
            Some(none())
        } else if mode == 0 && c.studio.signed_in && (c.auth.mode == 2 || c.auth.mode == 4) {
            c.auth.open = false;
            c.return_page = None;
            Some(one(Step::Page(4)))
        } else {
            Some(switch_auth(&mut c.auth, mode))
        }
    } else if same(name, "auth-resend") {
        let mode: i32 = c.auth.mode;
        Some(send_auth_code(&mut c.auth, mode))
    } else if same(name, "auth-verify-start") {
        Some(start_verification(&mut c.auth))
    } else if same(name, "change-password") {
        c.auth.email = c.account.email.clone();
        let steps: Vec<Step> = switch_auth(&mut c.auth, 2);
        c.auth.open = true;
        Some(steps)
    } else {
        None
    }
}

/// The token of an invitation: a link is cut down to it.
pub open spec fn invite_token(raw: Seq<char>) -> Seq<char> {
    match prefix_rest(trimmed(raw), "seecut://team-invite/"@) {
        Some(rest) => rest,
        None => trimmed(raw),
    }
}

fn read_invite(raw: &str) -> (r: String)
    ensures
        r@ == invite_token(raw@),
{
    let short: String = trim(raw);
    match strip_prefix(short.as_str(), "seecut://team-invite/") {
        Some(rest) => rest,
        None => short,
    }
}

/// The path of something of a team.
pub open spec fn team_path(team: Seq<char>, part: Seq<char>, id: Seq<char>) -> Seq<char> {
    "/api/teams/"@ + team + part + id
}

fn make_team_path(team: &str, part: &str, id: &str) -> (r: String)
    ensures
        r@ == team_path(team@, part@, id@),
{
    let place: String = cat3("/api/teams/", team, part);
    cat(place.as_str(), id)
}

/// The client and the steps after an action that asks the service for
/// something.
pub open spec fn service_acted(
    c: ClientView,
    w: SurroundingsView,
    name: Seq<char>,
    id: Seq<char>,
) -> Option<(ClientView, Seq<StepView>)> {
    let team = team_of(c.team);
    if name == "logout"@ {
        Some((c, seq![ask("logout"@, "POST"@, "/api/auth/logout"@, JsonModel::Null)]))
    } else if name == "wallet-refresh"@ {
        Some((c, seq![fetch("wallet"@, "/api/wallet"@)]))
    } else if name == "tasks-refresh"@ {
        Some((c, seq![fetch("tasks"@, "/api/generation/tasks"@)]))
    } else if name == "purchase"@ {
        Some(
            (
                c,
                seq![
                    ask(
                        "purchase"@,
                        "POST"@,
                        "/api/orders"@,
                        single("plan_id"@, JsonModel::Text(id)),
                    ),
                ],
            ),
        )
    } else if name == "order-refresh"@ {
        Some(
            (
                c,
                seq![
                    ask(
                        "order"@,
                        "POST"@,
                        "/api/orders/"@ + id + "/refresh"@,
                        JsonModel::Null,
                    ),
                ],
            ),
        )
    } else if name == "team-create"@ {
        Some(
            (
                c,
                seq![
                    ask(
                        "team-create"@,
                        "POST"@,
                        "/api/teams"@,
                        single("name"@, JsonModel::Text(w.team_name)),
                    ),
                ],
            ),
        )
    } else if name == "team-join"@ {
        Some(
            (
                c,
                seq![
                    ask(
                        "team-join"@,
                        "POST"@,
                        "/api/team-invites/accept"@,
                        single("token"@, JsonModel::Text(invite_token(w.invite))),
                    ),
                ],
            ),
        )
    } else if name == "invite-create"@ {
        Some(
            (
                c,
                step_if(
                    Seq::empty(),
                    team.len() > 0,
                    ask(
                        "invite"@,
                        "POST"@,
                        team_path(team, "/invites"@, ""@),
                        JsonModel::Null,
                    ),
                ),
            ),
        )
    } else if name == "invite-revoke"@ {
        Some(
            (
                c,
                seq![
                    ask(
                        "invite-revoke"@,
                        "DELETE"@,
                        team_path(team, "/invites/"@, c.team.invite_id),
                        JsonModel::Null,
                    ),
                ],
            ),
        )
    } else if name == "member-remove"@ {
        Some(
            (
                c,
                seq![
                    ask(
                        "member-remove"@,
                        "DELETE"@,
                        team_path(team, "/members/"@, id),
                        JsonModel::Null,
                    ),
                ],
            ),
        )
    } else if name == "assets-refresh"@ {
        let (page, steps) = assets_refreshed(c.team, c.studio.signed_in);
        Some((ClientView { team: page, ..c }, steps))
    } else if name == "members-refresh"@ {
        Some(
            (
                c,
                step_if(
                    Seq::empty(),
                    team.len() > 0,
                    fetch("members"@, "/api/teams/"@ + team + "/members"@),
                ),
            ),
        )
    } else if name == "asset-delete"@ {
        Some(
            (
                c,
                seq![
                    ask(
                        "asset-change"@,
                        "DELETE"@,
                        team_path(team, "/assets/"@, id),
                        JsonModel::Null,
                    ),
                ],
            ),
        )
    } else if name == "asset-restore"@ {
        Some(
            (
                c,
                seq![
                    ask(
                        "asset-change"@,
                        "POST"@,
                        team_path(team, "/assets/"@, id) + "/restore"@,
                        JsonModel::Null,
                    ),
                ],
            ),
        )
    } else {
        None
    }
}

fn act_on_service(c: &mut Client, w: &Surroundings, name: &str, id: &str) -> (r: Option<Vec<Step>>)
    ensures
        match service_acted(old(c)@, w@, name@, id@) {
            Some((after, steps)) => final(c)@ == after && r is Some && step_views(r->0@) == steps,
            None => final(c)@ == old(c)@ && r is None,
        },
{
    let team: String = team_id(&c.team);
    let t: &str = team.as_str();
    if same(name, "logout") {
        Some(one(asking("logout", "POST", "/api/auth/logout", Json::Null)))
    } else if same(name, "wallet-refresh") {
        Some(one(fetching("wallet", "/api/wallet")))
    } else if same(name, "tasks-refresh") {
        Some(one(fetching("tasks", "/api/generation/tasks")))
    } else if same(name, "purchase") {
        let body: Json = single_member("plan_id", Json::from_text(id));
        Some(one(asking("purchase", "POST", "/api/orders", body)))
    } else if same(name, "order-refresh") {
        let path: String = cat3("/api/orders/", id, "/refresh");
        Some(one(asking("order", "POST", path.as_str(), Json::Null)))
    } else if same(name, "team-create") {
        let body: Json = single_member("name", Json::from_text(w.team_name));
        Some(one(asking("team-create", "POST", "/api/teams", body)))
    } else if same(name, "team-join") {
        let token: String = read_invite(w.invite);
        let body: Json = single_member("token", Json::from_text(token.as_str()));
        Some(one(asking("team-join", "POST", "/api/team-invites/accept", body)))
    } else if same(name, "invite-create") {
        let mut steps: Vec<Step> = none();
        if !t.is_empty() {
            let path: String = make_team_path(t, "/invites", "");
            then_do(&mut steps, asking("invite", "POST", path.as_str(), Json::Null));
        }
        Some(steps)
    } else if same(name, "invite-revoke") {
        let path: String = make_team_path(t, "/invites/", c.team.invite_id.as_str());
        Some(one(asking("invite-revoke", "DELETE", path.as_str(), Json::Null)))
    } else if same(name, "member-remove") {
        let path: String = make_team_path(t, "/members/", id);
        Some(one(asking("member-remove", "DELETE", path.as_str(), Json::Null)))
    } else if same(name, "assets-refresh") {
        Some(refresh_assets(&mut c.team, c.studio.signed_in))
    } else if same(name, "members-refresh") {
        let mut steps: Vec<Step> = none();
        if !t.is_empty() {
            then_do(&mut steps, members_request(&c.team));
        }
        Some(steps)
    } else if same(name, "asset-delete") {
        let path: String = make_team_path(t, "/assets/", id);
        Some(one(asking("asset-change", "DELETE", path.as_str(), Json::Null)))
    } else if same(name, "asset-restore") {
        let place: String = make_team_path(t, "/assets/", id);
        let path: String = cat(place.as_str(), "/restore");
        Some(one(asking("asset-change", "POST", path.as_str(), Json::Null)))
    } else {
        None
    }
}

/// The client and the steps after an action on the copy to a folder.
pub open spec fn export_acted(c: ClientView, name: Seq<char>) -> Option<
    (ClientView, Seq<StepView>),
> {
    if name == "export-copy-cancel"@ {
        Some((c, step_if(Seq::empty(), c.export is Some, StepView::CancelExport)))
    } else if name == "export-copy-close"@ {
        match c.export {
            Some(job) => if job.running {
                Some((c, Seq::empty()))
            } else {
                Some(
                    (
                        ClientView {
                            export: None,
                            panel: PanelView { open: false, ..c.panel },
                            ..c
                        },
                        Seq::empty(),
                    ),
                )
            },
            None => Some((c, Seq::empty())),
        }
    } else if name == "export-copy-retry"@ {
        match c.export {
            Some(job) => match export_retried(job, c.panel) {
                Some((after, panel)) => Some(
                    (
                        ClientView { export: Some(after), panel, ..c },
                        seq![
                            ask("export-copy"@, "POST"@, "local:export-copy"@, JsonModel::Null),
                        ],
                    ),
                ),
                None => Some((c, Seq::empty())),
            },
            None => Some((c, Seq::empty())),
        }
    } else {
        None
    }
}

fn retry_export(c: &mut Client) -> (r: Vec<Step>)
    ensures
        export_acted(old(c)@, "export-copy-retry"@) == Some((final(c)@, step_views(r@))),
{
    proof {
        reveal_strlit("export-copy-retry");
        reveal_strlit("export-copy-cancel");
        reveal_strlit("export-copy-close");
        assert("export-copy-retry"@.len() == 17 && "export-copy-cancel"@.len() == 18);
        assert("export-copy-retry"@[12] == 'r' && "export-copy-close"@[12] == 'c');
    }
    let mut taken: Option<ExportCopyJob> = None;
    std::mem::swap(&mut taken, &mut c.export);
    let mut steps: Vec<Step> = none();
    if let Some(job) = taken {
        let mut again: ExportCopyJob = job;
        if let Some(step) = retry_copy_export(&mut again, &mut c.panel) {
            then_do(&mut steps, step);
        }
        c.export = Some(again);
    }
    steps
}

fn act_on_export(c: &mut Client, name: &str) -> (r: Option<Vec<Step>>)
    ensures
        match export_acted(old(c)@, name@) {
            Some((after, steps)) => final(c)@ == after && r is Some && step_views(r->0@) == steps,
            None => final(c)@ == old(c)@ && r is None,
        },
{
    if same(name, "export-copy-cancel") {
        let mut steps: Vec<Step> = none();
        if c.export.is_some() {
            then_do(&mut steps, Step::CancelExport);
        }
        Some(steps)
    } else if same(name, "export-copy-close") {
        let settled: bool = match &c.export {
            Some(job) => !job.running,
            None => false,
        };
        if settled {
            c.export = None;
            c.panel.open = false;
        }
        Some(none())
    } else if same(name, "export-copy-retry") {
        Some(retry_export(c))
    } else {
        None
    }
}

/// The client and the steps after an action on the file picker.
pub open spec fn picker_acted(
    c: ClientView,
    w: SurroundingsView,
    name: Seq<char>,
    id: Seq<char>,
) -> Option<(ClientView, Seq<StepView>)> {
    if name == "project-assets"@ || name == "canvas-assets"@ || name == "reference-team"@ {
        let purpose = if name == "project-assets"@ {
            "import"@
        } else if name == "canvas-assets"@ {
            "canvas"@
        } else {
            "reference"@
        };
        let (picker, team, steps) = picker_begun(
            c.picker,
            c.team,
            purpose,
            0,
            c.studio.form.mode,
            c.studio.signed_in,
        );
        Some((ClientView { picker, team, ..c }, steps))
    } else if name == "asset-picker-toggle"@ {
        let (picker, steps) = picker_toggled(c.picker, c.personal.assets, c.team, id);
        Some((ClientView { picker, ..c }, steps))
    } else if name == "asset-picker-confirm"@ {
        let (picker, steps) = picker_confirmed(c.picker, facts_of(c, w.present));
        Some((ClientView { picker, ..c }, steps))
    } else if name == "asset-picker-cancel"@ {
        Some(
            (
                ClientView {
                    picker: PickerView {
                        batch: None,
                        selected: Seq::empty(),
                        count: 0,
                        context: ""@,
                        open: false,
                        ..c.picker
                    },
                    ..c
                },
                seq![
                    StepView::Error(""@),
                    StepView::Draw(Panel::Personal),
                    StepView::Draw(Panel::Assets),
                ],
            ),
        )
    } else if name == "reference-source"@ {
        Some(source_chosen(c))
    } else {
        None
    }
}

/// The client and the steps when the file picker turns to another source.
pub open spec fn source_chosen(c: ClientView) -> (ClientView, Seq<StepView>) {
    let synced = ClientView { picker: picker_synced(c.picker, c.team), ..c };
    let drawn = seq![StepView::Draw(Panel::Personal), StepView::Draw(Panel::Assets)];
    if c.picker.source == 1 {
        if c.studio.signed_in {
            (synced, drawn.push(fetch("teams"@, "/api/teams"@)))
        } else {
            (
                ClientView {
                    intents: IntentsView { team_picker: true, ..c.intents },
                    ..synced
                },
                drawn.push(StepView::ShowAuth(None)),
            )
        }
    } else {
        (synced, step_if(drawn, c.picker.open, library_job("list"@, JsonModel::Null)))
    }
}

proof fn sync_keeps_source(picker: PickerView, page: TeamView)
    ensures
        picker_synced(picker, page).source == picker.source,
        picker_synced(picker, page).open == picker.open,
{
}

fn choose_source(c: &mut Client) -> (r: Vec<Step>)
    ensures
        (final(c)@, step_views(r@)) == source_chosen(old(c)@),
{
    proof {
        sync_keeps_source(c@.picker, c@.team);
    }
    sync_picker_selection(&mut c.picker, &c.team);
    let mut steps: Vec<Step> = one(Step::Draw(Panel::Personal));
    then_do(&mut steps, Step::Draw(Panel::Assets));
    proof {
        assert(step_views(steps@) =~= seq![
            StepView::Draw(Panel::Personal),
            StepView::Draw(Panel::Assets),
        ]);
        assert(c@.picker.source == c.picker.source && c@.picker.open == c.picker.open);
    }
    if c.picker.source == 1 {
        if c.studio.signed_in {
            then_do(&mut steps, fetching("teams", "/api/teams"));
        } else {
            c.intents.team_picker = true;
            then_do(&mut steps, Step::ShowAuth(None));
        }
    } else if c.picker.open {
        then_do(&mut steps, personal_job("list", Json::Null));
    }
    steps
}

fn confirm_picker(c: &mut Client, present: &TextSet) -> (r: Vec<Step>)
    ensures
        ({
            let (picker, steps) = picker_confirmed(old(c)@.picker, facts_of(old(c)@, present@));
            final(c)@ == (ClientView { picker, ..old(c)@ }) && step_views(r@) == steps
        }),
{
    let facts: PickerFacts = PickerFacts {
        mode: c.studio.form.mode,
        model_index: c.studio.form.model_index,
        catalog: &c.studio.catalog,
        references: &c.studio.references,
        personal: &c.personal.assets,
        page: &c.team,
        local: &c.tasks.local,
        present,
        folder: c.tasks.folder.as_str(),
        signed_in: c.studio.signed_in,
    };
    picker_confirm(&mut c.picker, &facts)
}

fn act_on_picker(c: &mut Client, w: &Surroundings, name: &str, id: &str) -> (r: Option<Vec<Step>>)
    ensures
        match picker_acted(old(c)@, w@, name@, id@) {
            Some((after, steps)) => final(c)@ == after && r is Some && step_views(r->0@) == steps,
            None => final(c)@ == old(c)@ && r is None,
        },
{
    let mode: i32 = c.studio.form.mode;
    let signed_in: bool = c.studio.signed_in;
    if same(name, "project-assets") {
        Some(begin_asset_picker(&mut c.picker, &mut c.team, "import", 0, mode, signed_in))
    } else if same(name, "canvas-assets") {
        Some(begin_asset_picker(&mut c.picker, &mut c.team, "canvas", 0, mode, signed_in))
    } else if same(name, "reference-team") {
        Some(begin_asset_picker(&mut c.picker, &mut c.team, "reference", 0, mode, signed_in))
    } else if same(name, "asset-picker-toggle") {
        Some(picker_toggle(&mut c.picker, &c.personal.assets, &c.team, id))
    } else if same(name, "asset-picker-confirm") {
        Some(confirm_picker(c, w.present))
    } else if same(name, "asset-picker-cancel") {
        c.picker.batch = None;
        clear_picker_selection(&mut c.picker);
        c.picker.context = "".to_owned();
        c.picker.open = false;
        let mut steps: Vec<Step> = one(Step::Error("".to_owned()));
        then_do(&mut steps, Step::Draw(Panel::Personal));
        then_do(&mut steps, Step::Draw(Panel::Assets));
        Some(steps)
    } else if same(name, "reference-source") {
        Some(choose_source(c))
    } else {
        None
    }
}

/// The extensions of the files that can be references in a mode.
pub open spec fn reference_extensions(mode: i32) -> Seq<Seq<char>> {
    if mode == 0 {
        seq!["png"@, "jpg"@, "jpeg"@, "webp"@]
    } else {
        seq!["png"@, "jpg"@, "jpeg"@, "webp"@, "mp4"@, "mov"@, "mp3"@, "wav"@]
    }
}

/// The extensions of the files that can replace a reference of a kind.
pub open spec fn replacement_extensions(kind: Option<Seq<char>>) -> Seq<Seq<char>> {
    if kind == Some("video"@) {
        seq!["mp4"@, "mov"@]
    } else if kind == Some("audio"@) {
        seq!["mp3"@, "wav"@]
    } else {
        reference_extensions(0)
    }
}

fn list_reference_extensions(mode: i32) -> (r: Vec<String>)
    ensures
        views(r@) == reference_extensions(mode),
{
    let mut out: Vec<String> = Vec::new();
    out.push("png".to_owned());
    out.push("jpg".to_owned());
    out.push("jpeg".to_owned());
    out.push("webp".to_owned());
    if mode != 0 {
        out.push("mp4".to_owned());
        out.push("mov".to_owned());
        out.push("mp3".to_owned());
        out.push("wav".to_owned());
    }
    proof {
        assert(views(out@) =~= reference_extensions(mode));
    }
    out
}

fn pair_of(a: &str, b: &str) -> (r: Vec<String>)
    ensures
        views(r@) == seq![a@, b@],
{
    let mut out: Vec<String> = Vec::new();
    out.push(a.to_owned());
    out.push(b.to_owned());
    proof {
        assert(views(out@) =~= seq![a@, b@]);
    }
    out
}

/// The queue without the jobs of a name.
pub open spec fn job_is_not(name: Seq<char>) -> spec_fn((Seq<char>, RequestView)) -> bool {
    |job: (Seq<char>, RequestView)| job.0 != name
}

pub open spec fn queue_without(queue: QueueView, name: Seq<char>) -> QueueView {
    QueueView { pending: kept(queue.pending, job_is_not(name)), ..queue }
}

fn drop_jobs(queue: &mut JobQueue, name: &str)
    ensures
        final(queue)@ == queue_without(old(queue)@, name@),
{
    let ghost jobs = job_views(queue.pending@);
    let ghost p = job_is_not(name@);
    let ghost mut k: int = 0;
    let mut i: usize = 0;
    proof {
        kept_all(jobs, p);
        assert(job_views(queue.pending@) =~= kept(jobs.take(0), p) + jobs.skip(0));
    }
    while i < queue.pending.len()
        invariant
            0 <= k <= jobs.len(),
            p == job_is_not(name@),
            i == kept(jobs.take(k), p).len(),
            job_views(queue.pending@) == kept(jobs.take(k), p) + jobs.skip(k),
            queue.busy == old(queue).busy,
            queue.active_name == old(queue).active_name,
            queue.epoch == old(queue).epoch,
            queue.auth_busy == old(queue).auth_busy,
            queue.working == old(queue).working,
        decreases queue.pending.len() - i,
    {
        let ghost before = queue.pending@;
        proof {
            assert(job_views(before).len() == before.len());
            assert(job_views(before)[i as int] == jobs[k]);
            kept_step(jobs, p, k);
        }
        if same(queue.pending[i].0.as_str(), name) {
            queue.pending.remove(i);
            proof {
                assert(job_views(queue.pending@) =~= job_views(before).remove(i as int));
                assert(job_views(queue.pending@) =~= kept(jobs.take(k + 1), p) + jobs.skip(k + 1));
            }
        } else {
            i = i + 1;
            proof {
                assert(job_views(queue.pending@) =~= kept(jobs.take(k + 1), p) + jobs.skip(k + 1));
            }
        }
        proof {
            k = k + 1;
        }
    }
    proof {
        assert(job_views(queue.pending@).len() == queue.pending@.len());
        assert(k == jobs.len());
        kept_all(jobs, p);
        assert(job_views(queue.pending@) =~= kept(jobs, p));
    }
}

/// The client and the steps when a reference is taken out: it is not uploaded
/// any more, and the mentions in the prompt follow the new numbers.
pub open spec fn reference_dropped(c: ClientView, id: Seq<char>) -> (ClientView, Seq<StepView>) {
    match place_of_client(c.studio.references, id) {
        None => (c, Seq::empty()),
        Some(i) => (
            ClientView {
                studio: StudioView {
                    references: c.studio.references.remove(i),
                    prompt: PromptView {
                        prompt: prompt_without(
                            c.studio.prompt.prompt,
                            label_of_kind(c.studio.references[i].text("kind"@)),
                            number_of(c.studio.references, i),
                        ),
                        mention_open: false,
                        ..c.studio.prompt
                    },
                    ..c.studio
                },
                queue: queue_without(c.queue, "reference:"@ + id),
                ..c
            },
            seq![StepView::Draw(Panel::References), StepView::RefreshQuote],
        ),
    }
}

pub fn drop_reference(c: &mut Client, id: &str) -> (r: Vec<Step>)
    ensures
        (final(c)@, step_views(r@)) == reference_dropped(old(c)@, id@),
{
    if !remove_reference(&mut c.studio.references, &mut c.studio.prompt, id) {
        return none();
    }
    let name: String = cat("reference:", id);
    drop_jobs(&mut c.queue, name.as_str());
    let mut steps: Vec<Step> = one(Step::Draw(Panel::References));
    then_do(&mut steps, Step::RefreshQuote);
    steps
}

/// The client and the steps when a reference is mentioned in the prompt.
pub open spec fn reference_mentioned(c: ClientView, id: Seq<char>) -> (ClientView, Seq<StepView>) {
    let all = c.studio.references;
    let s = c.studio.prompt.prompt;
    match first_where(all, ready_client(id)) {
        None => (c, Seq::empty()),
        Some(i) => match mention_span(s, cursor_of(c.studio.prompt.prompt_cursor)) {
            None => (c, Seq::empty()),
            Some((j, k)) => {
                let text = token_text(label_of_kind(all[i].text("kind"@)), number_of(all, i))
                    + " "@;
                (
                    ClientView {
                        studio: StudioView {
                            prompt: PromptView {
                                prompt: with_token(s, j, k, text),
                                prompt_cursor: (byte_len(s.take(j)) + byte_len(text)) as i32,
                                mention_open: false,
                            },
                            ..c.studio
                        },
                        ..c
                    },
                    seq![StepView::RefreshQuote],
                )
            },
        },
    }
}

pub fn mention_reference(c: &mut Client, id: &str) -> (r: Vec<Step>)
    ensures
        (final(c)@, step_views(r@)) == reference_mentioned(old(c)@, id@),
{
    if insert_mention(&c.studio.references, &mut c.studio.prompt, id) {
        one(Step::RefreshQuote)
    } else {
        none()
    }
}

/// What an action that replaces a reference names: the reference and the path
/// of the new file, or no path where a dialog is to ask for it. `object` says
/// whether the argument holds an object, `client` and `path` are the texts
/// under these names.
pub open spec fn replacement_asked(
    id: Seq<char>,
    object: bool,
    client: Option<Seq<char>>,
    path: Option<Seq<char>>,
) -> (Seq<char>, Seq<char>) {
    if object {
        (
            match client {
                Some(s) => s,
                None => ""@,
            },
            match path {
                Some(s) => s,
                None => ""@,
            },
        )
    } else {
        (id, ""@)
    }
}

/// The client and the steps when a reference is replaced.
pub open spec fn replacement_acted(
    c: ClientView,
    present: Set<Seq<char>>,
    client: Seq<char>,
    path: Seq<char>,
) -> (ClientView, Seq<StepView>) {
    if client.len() == 0 {
        (c, seq![StepView::Error("请选择要替换的参考素材"@)])
    } else if path.len() > 0 {
        match replacement_refused(
            c.studio.references,
            client,
            path,
            present.contains(path),
        ) {
            Some(message) => (c, seq![StepView::Error(message)]),
            None => {
                let (studio, steps) = reference_replaced(c.studio, client, path);
                (ClientView { studio, ..c }, steps)
            },
        }
    } else {
        (
            c,
            seq![
                StepView::BrowseReplacement(
                    client,
                    replacement_extensions(
                        match place_of_client(c.studio.references, client) {
                            Some(i) => Some(c.studio.references[i].text("kind"@)),
                            None => None,
                        },
                    ),
                ),
            ],
        )
    }
}

/// Replaces a reference by a file, or asks for one.
pub fn act_on_replacement(c: &mut Client, present: &TextSet, client: &str, path: &str) -> (r: Vec<
    Step,
>)
    requires
        is_sound(old(c)@),
    ensures
        (final(c)@, step_views(r@)) == replacement_acted(old(c)@, present@, client@, path@),
{
    if client.is_empty() {
        return fail("请选择要替换的参考素材");
    }
    if !path.is_empty() {
        let is_file: bool = present.has(path);
        return match replace_reference_from_path(&mut c.studio, client, path, is_file) {
            Ok(steps) => steps,
            Err(e) => one(Step::Error(e)),
        };
    }
    let extensions: Vec<String> = match find_text(&c.studio.references, "client_id", client) {
        Some(i) => {
            if c.studio.references[i].text_is("kind", "video") {
                proof {
                    reveal_strlit("video");
                    reveal_strlit("audio");
                }
                pair_of("mp4", "mov")
            } else if c.studio.references[i].text_is("kind", "audio") {
                pair_of("mp3", "wav")
            } else {
                list_reference_extensions(0)
            }
        },
        None => list_reference_extensions(0),
    };
    one(Step::BrowseReplacement(client.to_owned(), extensions))
}

/// The client and the steps after an action on references.
pub open spec fn reference_acted(
    c: ClientView,
    present: Set<Seq<char>>,
    name: Seq<char>,
    id: Seq<char>,
) -> Option<(ClientView, Seq<StepView>)> {
    if name == "reference-browse"@ {
        Some((c, seq![StepView::BrowseReferences(reference_extensions(c.studio.form.mode))]))
    } else if name == "asset-upload"@ {
        Some((c, seq![StepView::BrowseAssets]))
    } else if name == "reference-drop"@ {
        Some((c, seq![StepView::Upload(id, "generation_input"@)]))
    } else if name == "reference-remove"@ {
        Some(reference_dropped(c, id))
    } else if name == "reference-mention-open"@ {
        Some(
            (
                ClientView {
                    studio: StudioView {
                        prompt: mention_opened(c.studio.prompt),
                        quote: QuoteView {
                            id: ""@,
                            credits: None,
                            text: ""@,
                            can_generate: false,
                            ..c.studio.quote
                        },
                        ..c.studio
                    },
                    ..c
                },
                Seq::empty(),
            ),
        )
    } else if name == "reference-mention"@ {
        Some(reference_mentioned(c, id))
    } else if name == "reference-preview"@ {
        let (preview, steps) = reference_opened(c.preview, c.studio.references, present, id);
        Some((ClientView { preview, ..c }, steps))
    } else if name == "reference-retry"@ {
        let (studio, steps) = reference_retried(c.studio, id);
        Some((ClientView { studio, ..c }, steps))
    } else if name == "reference-replace"@ {
        let (client, path) = replacement_asked(
            id,
            holds_object(id),
            text_member(id, "client_id"@),
            text_member(id, "path"@),
        );
        Some(replacement_acted(c, present, client, path))
    } else {
        None
    }
}

fn ask_replacement(c: &mut Client, present: &TextSet, id: &str) -> (r: Vec<Step>)
    requires
        is_sound(old(c)@),
    ensures
        ({
            let (client, path) = replacement_asked(
                id@,
                holds_object(id@),
                text_member(id@, "client_id"@),
                text_member(id@, "path"@),
            );
            (final(c)@, step_views(r@)) == replacement_acted(old(c)@, present@, client, path)
        }),
{
    if reads_object(id) {
        let client: String = match read_text_member(id, "client_id") {
            Some(s) => s,
            None => "".to_owned(),
        };
        let path: String = match read_text_member(id, "path") {
            Some(s) => s,
            None => "".to_owned(),
        };
        act_on_replacement(c, present, client.as_str(), path.as_str())
    } else {
        act_on_replacement(c, present, id, "")
    }
}

fn act_on_reference(c: &mut Client, present: &TextSet, name: &str, id: &str) -> (r: Option<Vec<Step>>)
    requires
        is_sound(old(c)@),
    ensures
        match reference_acted(old(c)@, present@, name@, id@) {
            Some((after, steps)) => final(c)@ == after && r is Some && step_views(r->0@) == steps,
            None => final(c)@ == old(c)@ && r is None,
        },
{
    if same(name, "reference-browse") {
        Some(one(Step::BrowseReferences(list_reference_extensions(c.studio.form.mode))))
    } else if same(name, "asset-upload") {
        Some(one(Step::BrowseAssets))
    } else if same(name, "reference-drop") {
        Some(one(Step::Upload(id.to_owned(), "generation_input".to_owned())))
    } else if same(name, "reference-remove") {
        Some(drop_reference(c, id))
    } else if same(name, "reference-mention-open") {
        open_reference_mention(&mut c.studio);
        Some(none())
    } else if same(name, "reference-mention") {
        Some(mention_reference(c, id))
    } else if same(name, "reference-preview") {
        Some(open_reference_media_preview(&mut c.preview, &c.studio.references, present, id))
    } else if same(name, "reference-retry") {
        Some(retry_reference(&mut c.studio, id))
    } else if same(name, "reference-replace") {
        Some(ask_replacement(c, present, id))
    } else {
        None
    }
}

/// The intent of an action that uses a file of a team.
pub open spec fn asset_intent(name: Seq<char>) -> Option<Seq<char>> {
    if name == "asset-download"@ {
        Some("download"@)
    } else if name == "asset-reference"@ {
        Some("reference"@)
    } else if name == "asset-import"@ {
        Some("import"@)
    } else if name == "asset-canvas"@ {
        Some("canvas"@)
    } else {
        None
    }
}

fn find_asset_intent(name: &str) -> (r: Option<&'static str>)
    ensures
        match r {
            Some(s) => asset_intent(name@) == Some(s@),
            None => asset_intent(name@) is None,
        },
{
    if same(name, "asset-download") {
        Some("download")
    } else if same(name, "asset-reference") {
        Some("reference")
    } else if same(name, "asset-import") {
        Some("import")
    } else if same(name, "asset-canvas") {
        Some("canvas")
    } else {
        None
    }
}

/// The type of the content of a file of the team; empty where it is not
/// listed.
pub open spec fn content_of(assets: Seq<JsonModel>, id: Seq<char>) -> Seq<char> {
    match first_where(assets, text_is("id"@, id)) {
        Some(i) => assets[i].text("content_type"@),
        None => ""@,
    }
}

fn find_content(assets: &Vec<Json>, id: &str) -> (r: String)
    ensures
        r@ == content_of(models(assets@), id@),
{
    match find_text(assets, "id", id) {
        Some(i) => assets[i].text("content_type"),
        None => "".to_owned(),
    }
}

/// The studio set for videos where a file that moves or sounds meets a form
/// for pictures.
pub open spec fn fitted_for(studio: StudioView, content: Seq<char>) -> StudioView {
    if (has_prefix(content, "video/"@) || has_prefix(content, "audio/"@)) && studio.form.mode
        == 0 {
        let form = FormView { mode: 1, model_index: 0, ..studio.form };
        if studio.catalog.updating_model_options {
            StudioView { form, ..studio }
        } else {
            let (shown, catalog) = options_updated(
                form,
                studio.catalog,
                studio.references,
                false,
            );
            StudioView { form: shown, catalog, ..studio }
        }
    } else {
        studio
    }
}

fn fit_for(studio: &mut crate::cloud::studio::Studio, content: &str)
    ensures
        final(studio)@ == fitted_for(old(studio)@, content@),
{
    if (starts_with(content, "video/") || starts_with(content, "audio/")) && studio.form.mode
        == 0 {
        studio.form.mode = 1;
        studio.form.model_index = 0;
        update_model_options(&mut studio.form, &mut studio.catalog, &studio.references);
    }
}

/// The client and the steps when a file of the team is used.
pub open spec fn asset_used(
    c: ClientView,
    present: Set<Seq<char>>,
    intent: Seq<char>,
    id: Seq<char>,
) -> (ClientView, Seq<StepView>) {
    let content = content_of(c.team.assets, id);
    let studio = if intent == "reference"@ {
        fitted_for(c.studio, content)
    } else {
        c.studio
    };
    let most: int = if studio.form.reference_max < 0 {
        0
    } else {
        studio.form.reference_max as int
    };
    let fit = ClientView { studio, ..c };
    if intent == "reference"@ && studio.references.len() >= most {
        (
            fit,
            seq![
                StepView::Error(
                    "当前模型最多支持 "@ + signed_decimal(studio.form.reference_max as int)
                        + " 项参考素材"@,
                ),
            ],
        )
    } else if intent == "canvas"@ && !has_prefix(content, "image/"@) {
        (fit, seq![StepView::Error("只有图片素材可以打开到画布"@)])
    } else {
        let first = if intent == "reference"@ {
            seq![StepView::PickerOpen(false), StepView::Page(1)]
        } else if intent == "import"@ {
            seq![StepView::PickerOpen(false)]
        } else {
            Seq::empty()
        };
        let (picker, steps) = asset_fetched(
            c.tasks,
            c.picker,
            c.team,
            present,
            id,
            intent,
            None,
        );
        (ClientView { picker, ..fit }, first + steps)
    }
}

fn use_asset(c: &mut Client, present: &TextSet, intent: &str, id: &str) -> (r: Vec<Step>)
    ensures
        (final(c)@, step_views(r@)) == asset_used(old(c)@, present@, intent@, id@),
{
    let content: String = find_content(&c.team.assets, id);
    let referenced: bool = same(intent, "reference");
    let mut steps: Vec<Step> = none();
    if referenced {
        fit_for(&mut c.studio, content.as_str());
        let max: i32 = c.studio.form.reference_max;
        let most: usize = if max < 0 {
            0
        } else {
            max as usize
        };
        proof {
            assert(models(c.studio.references@).len() == c.studio.references@.len());
        }
        if c.studio.references.len() >= most {
            let n: String = to_signed_decimal(max as i64);
            return one(
                Step::Error(cat3("当前模型最多支持 ", n.as_str(), " 项参考素材")),
            );
        }
        then_do(&mut steps, Step::PickerOpen(false));
        then_do(&mut steps, Step::Page(1));
    }
    if same(intent, "import") {
        then_do(&mut steps, Step::PickerOpen(false));
    }
    if same(intent, "canvas") && !starts_with(content.as_str(), "image/") {
        proof {
            reveal_strlit("canvas");
            reveal_strlit("reference");
            assert("canvas"@.len() == 6 && "reference"@.len() == 9);
        }
        return fail("只有图片素材可以打开到画布");
    }
    proof {
        reveal_strlit("import");
        reveal_strlit("reference");
        assert("import"@.len() == 6 && "reference"@.len() == 9);
    }
    let ghost first = step_views(steps@);
    let more: Vec<Step> = download_asset(
        &c.tasks,
        &mut c.picker,
        &c.team,
        present,
        id,
        intent,
    );
    then_all(&mut steps, more);
    proof {
        assert(first =~= if intent@ == "reference"@ {
            seq![StepView::PickerOpen(false), StepView::Page(1)]
        } else if intent@ == "import"@ {
            seq![StepView::PickerOpen(false)]
        } else {
            Seq::empty()
        });
    }
    steps
}

/// What the actions on the personal library are judged by.
pub open spec fn action_facts(c: ClientView, present: Set<Seq<char>>) -> ActionView {
    ActionView {
        mode: c.studio.form.mode,
        model_index: c.studio.form.model_index,
        catalog: c.studio.catalog,
        references: c.studio.references,
        team: team_of(c.team),
        present,
        signed_in: c.studio.signed_in,
        working: c.queue.working,
    }
}

fn act_on_personal(c: &mut Client, present: &TextSet, name: &str, id: &str) -> (r: Vec<Step>)
    ensures
        ({
            let (personal, intents, steps) = personal_acted(
                old(c)@.personal,
                old(c)@.intents,
                action_facts(old(c)@, present@),
                name@,
                id@,
            );
            final(c)@ == (ClientView { personal, intents, ..old(c)@ }) && step_views(r@) == steps
        }),
{
    let team: String = team_id(&c.team);
    let facts: ActionFacts = ActionFacts {
        mode: c.studio.form.mode,
        model_index: c.studio.form.model_index,
        catalog: &c.studio.catalog,
        references: &c.studio.references,
        team: team.as_str(),
        present,
        signed_in: c.studio.signed_in,
        working: c.queue.working,
    };
    personal_action(&mut c.personal, &mut c.intents, &facts, name, id)
}

/// The client and the steps after an action on what is shown large, on files
/// of the team, and on the form.
pub open spec fn view_acted(
    c: ClientView,
    w: SurroundingsView,
    name: Seq<char>,
    id: Seq<char>,
    fresh: Seq<char>,
) -> (ClientView, Seq<StepView>) {
    if asset_intent(name) is Some {
        asset_used(c, w.present, asset_intent(name)->0, id)
    } else if name == "asset-preview"@ {
        let (preview, steps) = team_opened(c.preview, c.tasks, c.picker, c.team, w.present, id);
        (ClientView { preview, ..c }, steps)
    } else if name == "task-preview-open"@ {
        let (preview, tasks, steps) = task_opened(c.preview, c.tasks, w.present, id);
        (ClientView { preview, tasks, ..c }, steps)
    } else if name == "media-preview-action"@ {
        let (preview, intents, steps) = preview_acted(
            c.preview,
            c.intents,
            c.studio,
            c.tasks,
            c.personal.assets,
            w.present,
            id,
        );
        (ClientView { preview, intents, ..c }, steps)
    } else if name == "generate"@ {
        let (studio, steps) = generation_asked(c.studio, fresh);
        (ClientView { studio, ..c }, steps)
    } else if name == "navigate"@ {
        (
            c,
            navigation_steps(
                c.studio.page,
                match parsed_i32(id) {
                    Some(page) => page,
                    None => c.studio.page,
                },
                c.studio.signed_in,
                c.studio.form.error,
            ),
        )
    } else if name == "creator-mode"@ {
        (
            c,
            match parsed_i32(id) {
                Some(mode) => seq![
                    StepView::CreatorMode(clamped(mode, 1)),
                    StepView::SavePreferences,
                ],
                None => Seq::empty(),
            },
        )
    } else if name == "local-folder-browse"@ {
        (c, seq![StepView::PickFolder])
    } else {
        (c, Seq::empty())
    }
}

fn act_on_view(c: &mut Client, w: &Surroundings, name: &str, id: &str, fresh: &str) -> (r: Vec<Step>)
    ensures
        (final(c)@, step_views(r@)) == view_acted(old(c)@, w@, name@, id@, fresh@),
{
    if let Some(intent) = find_asset_intent(name) {
        return use_asset(c, w.present, intent, id);
    }
    if same(name, "asset-preview") {
        open_team_media_preview(&mut c.preview, &c.tasks, &mut c.picker, &c.team, w.present, id)
    } else if same(name, "task-preview-open") {
        open_task_media_preview(&mut c.preview, &mut c.tasks, w.present, id)
    } else if same(name, "media-preview-action") {
        media_preview_action(
            &mut c.preview,
            &mut c.intents,
            &c.studio,
            &c.tasks,
            &c.personal.assets,
            w.present,
            id,
        )
    } else if same(name, "generate") {
        generate_with(&mut c.studio, fresh)
    } else if same(name, "navigate") {
        let page: i32 = match parse_i32(id) {
            Some(page) => page,
            None => c.studio.page,
        };
        navigate(c.studio.page, page, c.studio.signed_in, c.studio.form.error.as_str())
    } else if same(name, "creator-mode") {
        match parse_i32(id) {
            Some(mode) => {
                let mut steps: Vec<Step> = one(Step::CreatorMode(clamp(mode, 1)));
                then_do(&mut steps, Step::SavePreferences);
                steps
            },
            None => none(),
        }
    } else if same(name, "local-folder-browse") {
        one(Step::PickFolder)
    } else {
        none()
    }
}

/// The client and the steps after an action of the window. `fresh` is the key
/// of a submission, where one is made.
pub open spec fn acted(
    c: ClientView,
    w: SurroundingsView,
    name: Seq<char>,
    id: Seq<char>,
    fresh: Seq<char>,
) -> (ClientView, Seq<StepView>) {
    if has_prefix(name, "personal-"@) {
        let (personal, intents, steps) = personal_acted(
            c.personal,
            c.intents,
            action_facts(c, w.present),
            name,
            id,
        );
        (ClientView { personal, intents, ..c }, steps)
    } else if has_prefix(name, "template-"@) {
        let (studio, intents, steps) = template_acted(c.studio, c.intents, w.library, name, id);
        (ClientView { studio, intents, ..c }, steps)
    } else if project_acted(c, w, name, id) is Some {
        project_acted(c, w, name, id)->0
    } else if task_acted(c, w.present, name, id) is Some {
        task_acted(c, w.present, name, id)->0
    } else if auth_acted(c, name, id) is Some {
        auth_acted(c, name, id)->0
    } else if service_acted(c, w, name, id) is Some {
        service_acted(c, w, name, id)->0
    } else if export_acted(c, name) is Some {
        export_acted(c, name)->0
    } else if picker_acted(c, w, name, id) is Some {
        picker_acted(c, w, name, id)->0
    } else if reference_acted(c, w.present, name, id) is Some {
        reference_acted(c, w.present, name, id)->0
    } else {
        view_acted(c, w, name, id, fresh)
    }
}

/// Performs an action of the window; `fresh` is the key of a submission, where
/// one is made.
pub fn act_with(c: &mut Client, w: &Surroundings, name: &str, id: &str, fresh: &str) -> (r: Vec<Step>)
    requires
        is_sound(old(c)@),
    ensures
        (final(c)@, step_views(r@)) == acted(old(c)@, w@, name@, id@, fresh@),
{
    if starts_with(name, "personal-") {
        return act_on_personal(c, w.present, name, id);
    }
    if starts_with(name, "template-") {
        return template_action(&mut c.studio, &mut c.intents, w.library, name, id);
    }
    if let Some(steps) = act_on_project(c, w, name, id) {
        return steps;
    }
    if let Some(steps) = act_on_task(c, w.present, name, id) {
        return steps;
    }
    if let Some(steps) = act_on_auth(c, name, id) {
        return steps;
    }
    if let Some(steps) = act_on_service(c, w, name, id) {
        return steps;
    }
    if let Some(steps) = act_on_export(c, name) {
        return steps;
    }
    if let Some(steps) = act_on_picker(c, w, name, id) {
        return steps;
    }
    if let Some(steps) = act_on_reference(c, w.present, name, id) {
        return steps;
    }
    act_on_view(c, w, name, id, fresh)
}

/// Performs an action of the window.
pub fn act(c: &mut Client, w: &Surroundings, name: &str, id: &str) -> (r: Vec<Step>)
    requires
        is_sound(old(c)@),
    ensures
        exists|fresh: Seq<char>|
            is_uuid(fresh) && (final(c)@, step_views(r@)) == #[trigger] acted(
                old(c)@,
                w@,
                name@,
                id@,
                fresh,
            ),
        is_sound(final(c)@),
{
    let fresh: String = fresh_id();
    let ghost before = c@;
    proof {
        actions_keep_soundness(c@, w@, name@, id@, fresh@);
    }
    let steps: Vec<Step> = act_with(c, w, name, id, fresh.as_str());
    proof {
        assert((c@, step_views(steps@)) == acted(before, w@, name@, id@, fresh@));
    }
    steps
}

proof fn project_actions_keep_references(
    c: ClientView,
    w: SurroundingsView,
    name: Seq<char>,
    id: Seq<char>,
)
    ensures
        project_acted(c, w, name, id) matches Some(after) ==> after.0.studio.references == c.studio.references,
{
}

proof fn task_actions_keep_references(
    c: ClientView,
    present: Set<Seq<char>>,
    name: Seq<char>,
    id: Seq<char>,
)
    ensures
        task_acted(c, present, name, id) matches Some(after) ==> after.0.studio.references == c.studio.references,
{
}

proof fn auth_actions_keep_references(
    c: ClientView,
    name: Seq<char>,
    id: Seq<char>,
)
    ensures
        auth_acted(c, name, id) matches Some(after) ==> after.0.studio.references == c.studio.references,
{
}

proof fn service_actions_keep_references(
    c: ClientView,
    w: SurroundingsView,
    name: Seq<char>,
    id: Seq<char>,
)
    ensures
        service_acted(c, w, name, id) matches Some(after) ==> after.0.studio.references == c.studio.references,
{
}

proof fn export_actions_keep_references(
    c: ClientView,
    name: Seq<char>,
)
    ensures
        export_acted(c, name) matches Some(after) ==> after.0.studio.references == c.studio.references,
{
}

proof fn picker_actions_keep_references(
    c: ClientView,
    w: SurroundingsView,
    name: Seq<char>,
    id: Seq<char>,
)
    ensures
        picker_acted(c, w, name, id) matches Some(after) ==> after.0.studio.references == c.studio.references,
{
}

proof fn view_actions_keep_references(
    c: ClientView,
    w: SurroundingsView,
    name: Seq<char>,
    id: Seq<char>,
    fresh: Seq<char>,
)
    ensures
        view_acted(c, w, name, id, fresh).0.studio.references == c.studio.references,
{
}

proof fn replacement_keeps_objects(
    c: ClientView,
    present: Set<Seq<char>>,
    client: Seq<char>,
    path: Seq<char>,
)
    requires
        is_sound(c),
    ensures
        is_sound(replacement_acted(c, present, client, path).0),
{
    let before = c.studio.references;
    let after = replacement_acted(c, present, client, path).0.studio.references;
    crate::lists::first_from_found(before, text_is("client_id"@, client), 0);
    assert forall|i: int| 0 <= i < after.len() implies (#[trigger] after[i]) is Object by {
        assert(before[i] is Object);
    }
}

proof fn reference_actions_keep_objects(
    c: ClientView,
    present: Set<Seq<char>>,
    name: Seq<char>,
    id: Seq<char>,
)
    requires
        is_sound(c),
    ensures
        reference_acted(c, present, name, id) matches Some(after) ==> is_sound(after.0),
{
    let before = c.studio.references;
    crate::lists::first_from_found(before, text_is("client_id"@, id), 0);
    let (client, path) = replacement_asked(
        id,
        holds_object(id),
        text_member(id, "client_id"@),
        text_member(id, "path"@),
    );
    replacement_keeps_objects(c, present, client, path);
    let dropped = reference_dropped(c, id).0.studio.references;
    assert forall|i: int| 0 <= i < dropped.len() implies (#[trigger] dropped[i]) is Object by {
        assert(before[i] is Object);
        if i + 1 < before.len() {
            assert(before[i + 1] is Object);
        }
    }
    crate::lists::first_from_found(before, crate::cloud::uploads::can_retry(id), 0);
    let retried = reference_retried(c.studio, id).0.references;
    assert forall|i: int| 0 <= i < retried.len() implies (#[trigger] retried[i]) is Object by {
        assert(before[i] is Object);
    }
}

/// Every action keeps the references objects, so that their state can always
/// be noted in them.
pub proof fn actions_keep_soundness(
    c: ClientView,
    w: SurroundingsView,
    name: Seq<char>,
    id: Seq<char>,
    fresh: Seq<char>,
)
    requires
        is_sound(c),
    ensures
        is_sound(acted(c, w, name, id, fresh).0),
{
    project_actions_keep_references(c, w, name, id);
    task_actions_keep_references(c, w.present, name, id);
    auth_actions_keep_references(c, name, id);
    service_actions_keep_references(c, w, name, id);
    export_actions_keep_references(c, name);
    picker_actions_keep_references(c, w, name, id);
    view_actions_keep_references(c, w, name, id, fresh);
    reference_actions_keep_objects(c, w.present, name, id);
    templates_keep_references(c.studio, c.intents, w.library, name, id);
}

proof fn templates_keep_references(
    studio: StudioView,
    intents: IntentsView,
    library: LibraryView,
    name: Seq<char>,
    id: Seq<char>,
)
    ensures
        template_acted(studio, intents, library, name, id).0.references == studio.references,
{
}

/// Results that are still being made are never asked to be removed.
pub proof fn only_ended_results_are_removed(list: TaskListView, i: int)
    requires
        removal_asked(list).0.pending_delete != list.pending_delete,
        0 <= i < list.tasks.len(),
        removal_asked(list).0.pending_delete.contains(list.tasks[i].text("id"@)),
    ensures
        has_ended(list.tasks[i]),
{
    let ids = ids_of(chosen_tasks(list));
    assert(!is_unfinished(ids)(list.tasks[i]));
}

/// Closing the account forms without a session drops every password and code,
/// and all that waited for the session.
pub proof fn closed_forms_hold_nothing(c: ClientView)
    requires
        !c.studio.signed_in,
    ensures
        ({
            let after = auth_closed(c).0;
            &&& after.auth.password == ""@
            &&& after.auth.password_confirm == ""@
            &&& after.auth.token == ""@
            &&& after.intents.references.len() == 0
            &&& after.picker.batch is None
            &&& after.return_page is None
        }),
{
}

} // verus!
