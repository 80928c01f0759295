//! Using several results together, and bringing files to this machine.

use crate::cloud::picker::{
    fault_in, file_for, here, is_here, local_file, picker_download_request,
    selection_views, set_picker_batch_path, validate_picker_reference_selection, FactsView, Picker,
    PickerFacts, PickerSelection, PickerView, SelectionView,
};
use crate::cloud::requests::Request;
use crate::cloud::steps::{
    fail, import_views, item_views, none, one, step_views, then_do, ExportItem, Import,
    ImportView, ItemView, Step, StepView,
};
use crate::cloud::tasks::{
    can_fetch, task_has_downloadable_output, ResultBatch, ResultBatchView, TaskList, TaskListView,
};
use crate::cloud::teams::{team_id, team_of, TeamPage, TeamView};
use crate::collections::{TextMap, TextSet};
use crate::json::{int_model, models, Json, JsonModel};
use crate::lists::{
    any, any_text_not, find_text, first_where, kept, kept_all, kept_step, text_is, text_is_not,
};
use crate::paths::{file_stem, join_path, joined_path, stem_of};
use crate::text::{cat, cat3, decimal, same, to_decimal, views};
use vstd::prelude::*;
use vstd::string::*;

verus! {

/// A task that is chosen.
pub open spec fn is_chosen(selected: Set<Seq<char>>) -> spec_fn(JsonModel) -> bool {
    |v: JsonModel| selected.contains(v.text("id"@))
}

/// The chosen tasks, in the order of the list.
pub open spec fn chosen_tasks(list: TaskListView) -> Seq<JsonModel> {
    kept(list.tasks, is_chosen(list.selected))
}

/// Copies of the documents whose identity is chosen.
pub fn keep_chosen(list: &Vec<Json>, selected: &TextSet) -> (r: Vec<Json>)
    ensures
        models(r@) == kept(models(list@), is_chosen(selected@)),
{
    let ghost p = is_chosen(selected@);
    let ghost m = models(list@);
    let mut out: Vec<Json> = Vec::new();
    let mut i: usize = 0;
    proof {
        kept_all(m, p);
        assert(models(out@) =~= Seq::empty());
    }
    while i < list.len()
        invariant
            i <= list.len(),
            m == models(list@),
            p == is_chosen(selected@),
            models(out@) == kept(m.take(i as int), p),
        decreases list.len() - i,
    {
        proof {
            kept_step(m, p, i as int);
        }
        let id: String = list[i].text("id");
        if selected.has(id.as_str()) {
            let ghost before = out@;
            out.push(list[i].copy());
            proof {
                assert(models(out@) =~= models(before).push(m[i as int]));
            }
        }
        i = i + 1;
    }
    proof {
        kept_all(m, p);
    }
    out
}

/// The identities of a list of documents.
pub open spec fn ids_of(list: Seq<JsonModel>) -> Seq<Seq<char>> {
    Seq::new(list.len(), |i: int| list[i].text("id"@))
}

pub fn list_ids(list: &Vec<Json>) -> (r: Vec<String>)
    ensures
        views(r@) == ids_of(models(list@)),
{
    let mut out: Vec<String> = Vec::new();
    let mut i: usize = 0;
    while i < list.len()
        invariant
            i <= list.len(),
            out@.len() == i,
            forall|j: int| 0 <= j < i ==> (#[trigger] out@[j])@ == models(list@)[j].text("id"@),
        decreases list.len() - i,
    {
        out.push(list[i].text("id"));
        i = i + 1;
    }
    proof {
        assert(views(out@) =~= ids_of(models(list@)));
    }
    out
}

/// A chosen result as a file that may become a reference.
pub open spec fn result_choice(
    local: Map<Seq<char>, Seq<char>>,
    task: JsonModel,
) -> SelectionView {
    let id = task.text("id"@);
    SelectionView {
        id,
        name: task.text("name"@),
        kind: task.text("kind"@),
        local_path: if local.contains_key(id) {
            local[id]
        } else {
            ""@
        },
        download_endpoint: ""@,
        download_path: ""@,
    }
}

pub open spec fn result_choices(
    local: Map<Seq<char>, Seq<char>>,
    tasks: Seq<JsonModel>,
) -> Seq<SelectionView> {
    Seq::new(tasks.len(), |i: int| result_choice(local, tasks[i]))
}

fn make_choices(list: &TaskList, tasks: &Vec<Json>) -> (r: Vec<PickerSelection>)
    ensures
        selection_views(r@) == result_choices(list@.local, models(tasks@)),
{
    let mut out: Vec<PickerSelection> = Vec::new();
    let mut i: usize = 0;
    while i < tasks.len()
        invariant
            i <= tasks.len(),
            out@.len() == i,
            forall|j: int|
                0 <= j < i ==> (#[trigger] out@[j])@ == result_choice(
                    list@.local,
                    models(tasks@)[j],
                ),
        decreases tasks.len() - i,
    {
        let id: String = tasks[i].text("id");
        let local_path: String = match list.local.get(id.as_str()) {
            Some(path) => path.clone(),
            None => "".to_owned(),
        };
        out.push(
            PickerSelection {
                id,
                name: tasks[i].text("name"),
                kind: tasks[i].text("kind"),
                local_path,
                download_endpoint: "".to_owned(),
                download_path: "".to_owned(),
            },
        );
        i = i + 1;
    }
    proof {
        assert(selection_views(out@) =~= result_choices(list@.local, models(tasks@)));
    }
    out
}

/// A task whose result can neither be found on this machine nor fetched.
pub open spec fn out_of_reach(
    local: Map<Seq<char>, Seq<char>>,
    present: Set<Seq<char>>,
) -> spec_fn(JsonModel) -> bool {
    |v: JsonModel|
        !is_here(local, present, v.text("id"@)) && (v.text("status"@) != "succeeded"@
            || !can_fetch(v))
}

fn any_out_of_reach(list: &TaskList, present: &TextSet, tasks: &Vec<Json>) -> (r: bool)
    ensures
        r == any(models(tasks@), out_of_reach(list@.local, present@)),
{
    let ghost p = out_of_reach(list@.local, present@);
    let mut i: usize = 0;
    while i < tasks.len()
        invariant
            i <= tasks.len(),
            p == out_of_reach(list@.local, present@),
            forall|j: int| 0 <= j < i ==> !p(#[trigger] models(tasks@)[j]),
        decreases tasks.len() - i,
    {
        let id: String = tasks[i].text("id");
        if here(&list.local, present, id.as_str()).is_none() && (!tasks[i].text_is(
            "status",
            "succeeded",
        ) || !task_has_downloadable_output(&tasks[i])) {
            proof {
                assert(p(models(tasks@)[i as int]));
            }
            return true;
        }
        i = i + 1;
    }
    false
}

/// Why the chosen results cannot be used for an intent. The checks are made in
/// this order.
pub open spec fn results_refused(
    list: TaskListView,
    facts: FactsView,
    intent: Seq<char>,
) -> Option<Seq<char>> {
    let tasks = chosen_tasks(list);
    let fault = fault_in(facts, result_choices(list.local, tasks));
    if tasks.len() == 0 {
        Some("请先选择生成结果"@)
    } else if intent == "canvas"@ && any(tasks, text_is_not("kind"@, "image"@)) {
        Some("画布只支持图片结果"@)
    } else if intent == "reference"@ && facts.mode == 0 && any(
        tasks,
        text_is_not("kind"@, "image"@),
    ) {
        Some("当前图片模型只支持图片参考"@)
    } else if intent == "reference"@ && fault is Some {
        fault
    } else if any(tasks, out_of_reach(list.local, facts.present)) {
        Some("所选结果包含尚未完成或文件不可用的项目"@)
    } else {
        None
    }
}

/// The chosen results are used together.
pub fn start_result_batch(list: &mut TaskList, facts: &PickerFacts, intent: &str) -> (r: Vec<Step>)
    ensures
        match results_refused(old(list)@, facts@, intent@) {
            Some(message) => final(list)@ == old(list)@ && step_views(r@) == seq![
                StepView::Error(message),
            ],
            None => final(list)@ == (TaskListView {
                batch: Some(
                    ResultBatchView { intent: intent@, ids: ids_of(chosen_tasks(old(list)@)) },
                ),
                ..old(list)@
            }) && step_views(r@) == seq![StepView::ContinueResults],
        },
{
    let tasks: Vec<Json> = keep_chosen(&list.tasks, &list.selected);
    if tasks.len() == 0 {
        return fail("请先选择生成结果");
    }
    let images: bool = !any_text_not(&tasks, "kind", "image");
    if same(intent, "canvas") && !images {
        return fail("画布只支持图片结果");
    }
    if same(intent, "reference") && facts.mode == 0 && !images {
        return fail("当前图片模型只支持图片参考");
    }
    if same(intent, "reference") {
        let chosen: Vec<PickerSelection> = make_choices(list, &tasks);
        if let Err(e) = validate_picker_reference_selection(
            facts.mode,
            facts.model_index,
            facts.catalog,
            facts.references,
            &chosen,
        ) {
            return one(Step::Error(e));
        }
    }
    if any_out_of_reach(list, facts.present, &tasks) {
        return fail("所选结果包含尚未完成或文件不可用的项目");
    }
    list.batch = Some(ResultBatch { intent: intent.to_owned(), ids: list_ids(&tasks) });
    one(Step::ContinueResults)
}

/// The first of `ids` at or after `from` that is not on this machine.
pub open spec fn missing_from(
    ids: Seq<Seq<char>>,
    local: Map<Seq<char>, Seq<char>>,
    present: Set<Seq<char>>,
    from: int,
) -> Option<int>
    decreases ids.len() - from,
{
    if from < 0 || from >= ids.len() {
        None
    } else if !is_here(local, present, ids[from]) {
        Some(from)
    } else {
        missing_from(ids, local, present, from + 1)
    }
}

fn find_missing(ids: &Vec<String>, local: &TextMap<String>, present: &TextSet) -> (r: Option<usize>)
    ensures
        match r {
            Some(i) => missing_from(views(ids@), local@, present@, 0) == Some(i as int) && i
                < ids.len(),
            None => missing_from(views(ids@), local@, present@, 0) is None && forall|j: int|
                0 <= j < ids@.len() ==> is_here(local@, present@, #[trigger] views(ids@)[j]),
        },
{
    let mut i: usize = 0;
    while i < ids.len()
        invariant
            i <= ids.len(),
            missing_from(views(ids@), local@, present@, 0) == missing_from(
                views(ids@),
                local@,
                present@,
                i as int,
            ),
            forall|j: int| 0 <= j < i ==> is_here(local@, present@, #[trigger] views(ids@)[j]),
        decreases ids.len() - i,
    {
        proof {
            assert(views(ids@)[i as int] == ids@[i as int]@);
        }
        if here(local, present, ids[i].as_str()).is_none() {
            return Some(i);
        }
        i = i + 1;
    }
    None
}

/// The files of results.
pub open spec fn files_of(
    ids: Seq<Seq<char>>,
    local: Map<Seq<char>, Seq<char>>,
) -> Seq<Seq<char>> {
    Seq::new(ids.len(), |i: int| local[ids[i]])
}

fn list_files(ids: &Vec<String>, local: &TextMap<String>) -> (r: Vec<String>)
    requires
        forall|j: int| 0 <= j < ids@.len() ==> local@.contains_key(#[trigger] views(ids@)[j]),
    ensures
        views(r@) == files_of(views(ids@), local@),
{
    let mut out: Vec<String> = Vec::new();
    let mut i: usize = 0;
    while i < ids.len()
        invariant
            i <= ids.len(),
            forall|j: int| 0 <= j < ids@.len() ==> local@.contains_key(#[trigger] views(ids@)[j]),
            out@.len() == i,
            forall|j: int| 0 <= j < i ==> (#[trigger] out@[j])@ == local@[views(ids@)[j]],
        decreases ids.len() - i,
    {
        proof {
            assert(views(ids@)[i as int] == ids@[i as int]@);
        }
        let path: String = match local.get(ids[i].as_str()) {
            Some(path) => path.clone(),
            None => "".to_owned(),
        };
        out.push(path);
        i = i + 1;
    }
    proof {
        assert(views(out@) =~= files_of(views(ids@), local@));
    }
    out
}

/// Files without names of their own.
pub open spec fn plain_imports(paths: Seq<Seq<char>>) -> Seq<ImportView> {
    Seq::new(paths.len(), |i: int| ImportView { path: paths[i], name: None })
}

pub fn from_paths(paths: &Vec<String>) -> (r: Vec<Import>)
    ensures
        import_views(r@) == plain_imports(views(paths@)),
{
    let mut out: Vec<Import> = Vec::new();
    let mut i: usize = 0;
    while i < paths.len()
        invariant
            i <= paths.len(),
            out@.len() == i,
            forall|j: int|
                0 <= j < i ==> (#[trigger] out@[j])@ == (ImportView {
                    path: paths@[j]@,
                    name: None,
                }),
        decreases paths.len() - i,
    {
        out.push(Import { path: paths[i].clone(), name: None });
        i = i + 1;
    }
    proof {
        assert(import_views(out@) =~= plain_imports(views(paths@)));
    }
    out
}

/// One file without a name of its own.
pub fn from_path(path: &str) -> (r: Vec<Import>)
    ensures
        import_views(r@) == plain_imports(seq![path@]),
{
    let mut out: Vec<Import> = Vec::new();
    out.push(Import { path: path.to_owned(), name: None });
    proof {
        assert(import_views(out@) =~= plain_imports(seq![path@]));
    }
    out
}

/// What is exported of results: under the names of their files.
pub open spec fn result_exports(ids: Seq<Seq<char>>, paths: Seq<Seq<char>>) -> Seq<ItemView> {
    Seq::new(
        ids.len(),
        |i: int|
            ItemView {
                id: ids[i],
                source: paths[i],
                name: match stem_of(paths[i]) {
                    Some(stem) => stem,
                    None => "生成结果"@,
                },
            },
    )
}

fn make_exports(ids: &Vec<String>, paths: &Vec<String>) -> (r: Vec<ExportItem>)
    requires
        ids.len() == paths.len(),
    ensures
        item_views(r@) == result_exports(views(ids@), views(paths@)),
{
    let mut out: Vec<ExportItem> = Vec::new();
    let mut i: usize = 0;
    while i < ids.len()
        invariant
            i <= ids.len(),
            ids.len() == paths.len(),
            out@.len() == i,
            forall|j: int|
                0 <= j < i ==> (#[trigger] out@[j])@ == result_exports(
                    views(ids@),
                    views(paths@),
                )[j],
        decreases ids.len() - i,
    {
        let name: String = match file_stem(paths[i].as_str()) {
            Some(stem) => stem,
            None => "生成结果".to_owned(),
        };
        out.push(ExportItem { id: ids[i].clone(), source: paths[i].clone(), name });
        i = i + 1;
    }
    proof {
        assert(item_views(out@) =~= result_exports(views(ids@), views(paths@)));
    }
    out
}

/// Results that are all on this machine, as files that may become references.
pub open spec fn ready_choices(
    tasks: Seq<JsonModel>,
    ids: Seq<Seq<char>>,
    paths: Seq<Seq<char>>,
) -> Seq<SelectionView> {
    Seq::new(ids.len(), |i: int| ready_choice(tasks, ids[i], paths[i]))
}

pub open spec fn ready_choice(
    tasks: Seq<JsonModel>,
    id: Seq<char>,
    path: Seq<char>,
) -> SelectionView {
    let found = first_where(tasks, text_is("id"@, id));
    SelectionView {
        id,
        name: match found {
            Some(i) => tasks[i].text("name"@),
            None => id,
        },
        kind: match found {
            Some(i) => tasks[i].text("kind"@),
            None => ""@,
        },
        local_path: path,
        download_endpoint: ""@,
        download_path: ""@,
    }
}

fn make_ready(tasks: &Vec<Json>, ids: &Vec<String>, paths: &Vec<String>) -> (r: Vec<
    PickerSelection,
>)
    requires
        ids.len() == paths.len(),
    ensures
        selection_views(r@) == ready_choices(models(tasks@), views(ids@), views(paths@)),
{
    let mut out: Vec<PickerSelection> = Vec::new();
    let mut i: usize = 0;
    while i < ids.len()
        invariant
            i <= ids.len(),
            ids.len() == paths.len(),
            out@.len() == i,
            forall|j: int|
                0 <= j < i ==> (#[trigger] out@[j])@ == ready_choice(
                    models(tasks@),
                    ids@[j]@,
                    paths@[j]@,
                ),
        decreases ids.len() - i,
    {
        let (name, kind) = match find_text(tasks, "id", ids[i].as_str()) {
            Some(k) => (tasks[k].text("name"), tasks[k].text("kind")),
            None => (ids[i].clone(), "".to_owned()),
        };
        out.push(
            PickerSelection {
                id: ids[i].clone(),
                name,
                kind,
                local_path: paths[i].clone(),
                download_endpoint: "".to_owned(),
                download_path: "".to_owned(),
            },
        );
        i = i + 1;
    }
    proof {
        assert(selection_views(out@) =~= ready_choices(models(tasks@), views(ids@), views(paths@)));
    }
    out
}

/// `first`, then an upload of each of the files.
pub open spec fn uploads(first: Seq<StepView>, paths: Seq<Seq<char>>) -> Seq<StepView>
    decreases paths.len(),
{
    if paths.len() == 0 {
        first
    } else {
        uploads(first, paths.drop_last()).push(
            StepView::Upload(paths.last(), "generation_input"@),
        )
    }
}

fn add_uploads(steps: &mut Vec<Step>, paths: &Vec<String>)
    ensures
        step_views(final(steps)@) == uploads(step_views(old(steps)@), views(paths@)),
{
    let ghost first = step_views(steps@);
    let ghost all = views(paths@);
    let mut i: usize = 0;
    proof {
        assert(all.take(0) =~= Seq::empty());
    }
    while i < paths.len()
        invariant
            i <= paths.len(),
            all == views(paths@),
            step_views(steps@) == uploads(first, all.take(i as int)),
        decreases paths.len() - i,
    {
        proof {
            assert(all.take(i + 1).drop_last() =~= all.take(i as int));
            assert(all.take(i + 1).last() == paths@[i as int]@);
        }
        then_do(steps, Step::Upload(paths[i].clone(), "generation_input".to_owned()));
        i = i + 1;
    }
    proof {
        assert(all.take(all.len() as int) =~= all);
    }
}

/// The steps that use results which are all on this machine.
pub open spec fn results_used(
    tasks: Seq<JsonModel>,
    facts: FactsView,
    batch: ResultBatchView,
    paths: Seq<Seq<char>>,
) -> Seq<StepView> {
    let fault = fault_in(facts, ready_choices(tasks, batch.ids, paths));
    if batch.intent == "reference"@ {
        if fault is Some {
            seq![StepView::Error(fault->0)]
        } else {
            uploads(seq![StepView::Page(1), StepView::GenerationStep(0)], paths)
        }
    } else if batch.intent == "canvas"@ || batch.intent == "clip"@ {
        seq![StepView::Handoff(batch.intent, plain_imports(paths))]
    } else if batch.intent == "export"@ {
        seq![StepView::BeginExport(result_exports(batch.ids, paths), "导出生成结果"@)]
    } else {
        Seq::empty()
    }
}

fn use_results(
    tasks: &Vec<Json>,
    facts: &PickerFacts,
    batch: &ResultBatch,
    paths: &Vec<String>,
) -> (r: Vec<Step>)
    requires
        batch.ids.len() == paths.len(),
    ensures
        step_views(r@) == results_used(models(tasks@), facts@, batch@, views(paths@)),
{
    let intent: &str = batch.intent.as_str();
    if same(intent, "reference") {
        let chosen: Vec<PickerSelection> = make_ready(tasks, &batch.ids, paths);
        if let Err(e) = validate_picker_reference_selection(
            facts.mode,
            facts.model_index,
            facts.catalog,
            facts.references,
            &chosen,
        ) {
            return one(Step::Error(e));
        }
        let mut steps: Vec<Step> = one(Step::Page(1));
        then_do(&mut steps, Step::GenerationStep(0));
        proof {
            assert(step_views(steps@) =~= seq![StepView::Page(1), StepView::GenerationStep(0)]);
        }
        add_uploads(&mut steps, paths);
        return steps;
    }
    if same(intent, "canvas") || same(intent, "clip") {
        return one(Step::Handoff(intent.to_owned(), from_paths(paths)));
    }
    if same(intent, "export") {
        return one(Step::BeginExport(make_exports(&batch.ids, paths), "导出生成结果".to_owned()));
    }
    none()
}

/// The list and the steps when a batch of results goes on: a missing file is
/// fetched, each once; when all are there they are used together.
pub open spec fn results_continued(list: TaskListView, facts: FactsView) -> (
    TaskListView,
    Seq<StepView>,
) {
    match list.batch {
        None => (list, Seq::empty()),
        Some(batch) => match missing_from(batch.ids, list.local, facts.present, 0) {
            Some(i) => {
                let id = batch.ids[i];
                if list.attempts.contains(id) {
                    (list, Seq::empty())
                } else {
                    (
                        TaskListView { attempts: list.attempts.insert(id), ..list },
                        seq![StepView::DownloadTask(id, "batch-output"@, ""@)],
                    )
                }
            },
            None => (
                TaskListView { batch: None, ..list },
                results_used(list.tasks, facts, batch, files_of(batch.ids, list.local)),
            ),
        },
    }
}

/// A batch of results goes on.
pub fn continue_result_batch(list: &mut TaskList, facts: &PickerFacts) -> (r: Vec<Step>)
    ensures
        (final(list)@, step_views(r@)) == results_continued(old(list)@, facts@),
{
    let ghost before = list@;
    let mut found: Option<ResultBatch> = None;
    std::mem::swap(&mut found, &mut list.batch);
    let batch: ResultBatch = match found {
        Some(batch) => batch,
        None => return none(),
    };
    if let Some(i) = find_missing(&batch.ids, &list.local, facts.present) {
        let id: String = batch.ids[i].clone();
        proof {
            assert(views(batch.ids@)[i as int] == id@);
        }
        list.batch = Some(batch);
        if list.attempts.insert(id.as_str()) {
            return one(Step::DownloadTask(id, "batch-output".to_owned(), "".to_owned()));
        }
        proof {
            assert(list@.attempts =~= before.attempts);
        }
        return none();
    }
    let paths: Vec<String> = list_files(&batch.ids, &list.local);
    proof {
        assert(views(paths@).len() == views(batch.ids@).len());
    }
    use_results(&list.tasks, facts, &batch, &paths)
}

/// The steps for a file that is on this machine already.
pub open spec fn file_steps(
    id: Seq<char>,
    path: Seq<char>,
    intent: Seq<char>,
    team: Seq<char>,
    token: Option<u64>,
) -> Seq<StepView> {
    if intent == "media-preview"@ {
        seq![StepView::FinishPreview(id, path, token)]
    } else if intent == "batch-output"@ {
        seq![StepView::ContinueResults]
    } else if intent == "preview"@ {
        seq![StepView::OpenFile(path)]
    } else if intent == "import"@ {
        seq![StepView::Handoff("clip"@, plain_imports(seq![path]))]
    } else if intent == "reference"@ {
        seq![StepView::Upload(path, "generation_input"@)]
    } else if intent == "canvas"@ {
        seq![StepView::Handoff("canvas"@, plain_imports(seq![path]))]
    } else if intent == "download"@ {
        seq![StepView::Notice("结果已保存到本机"@)]
    } else if intent == "save-team"@ {
        seq![StepView::UploadForTeam(path, "team_asset"@, team)]
    } else {
        Seq::empty()
    }
}

fn use_file(id: &str, path: &str, intent: &str, team: &str, token: Option<u64>) -> (r: Vec<Step>)
    ensures
        step_views(r@) == file_steps(id@, path@, intent@, team@, token),
{
    if same(intent, "media-preview") {
        one(Step::FinishPreview(id.to_owned(), path.to_owned(), token))
    } else if same(intent, "batch-output") {
        one(Step::ContinueResults)
    } else if same(intent, "preview") {
        one(Step::OpenFile(path.to_owned()))
    } else if same(intent, "import") {
        one(Step::Handoff("clip".to_owned(), from_path(path)))
    } else if same(intent, "reference") {
        one(Step::Upload(path.to_owned(), "generation_input".to_owned()))
    } else if same(intent, "canvas") {
        one(Step::Handoff("canvas".to_owned(), from_path(path)))
    } else if same(intent, "download") {
        one(Step::Notice("结果已保存到本机".to_owned()))
    } else if same(intent, "save-team") {
        one(Step::UploadForTeam(path.to_owned(), "team_asset".to_owned(), team.to_owned()))
    } else {
        none()
    }
}

/// The name of the job that fetches a file.
pub open spec fn fetch_job(intent: Seq<char>, id: Seq<char>, token: Option<u64>) -> Seq<char> {
    if intent == "cache"@ {
        "local-cache:"@ + id
    } else if intent == "reference"@ {
        "local-reference:"@ + id
    } else if intent == "media-preview"@ {
        preview_job_name(id, token)
    } else {
        "local"@
    }
}

/// The name of the job that fetches a file for a preview.
pub open spec fn preview_job_name(id: Seq<char>, token: Option<u64>) -> Seq<char> {
    "media-preview:"@ + id + ":"@ + decimal(
        match token {
            Some(n) => n as nat,
            None => 0,
        },
    )
}

fn name_preview_job(id: &str, token: Option<u64>) -> (r: String)
    ensures
        r@ == preview_job_name(id@, token),
{
    let number: u64 = match token {
        Some(n) => n,
        None => 0,
    };
    cat(cat3("media-preview:", id, ":").as_str(), to_decimal(number).as_str())
}

/// The body of a request that fetches a file.
pub open spec fn fetch_body(
    id: Seq<char>,
    from: (Seq<char>, JsonModel),
    path: Seq<char>,
    intent: Seq<char>,
    team: Seq<char>,
    token: Option<u64>,
) -> JsonModel {
    let plain = seq![
        ("id"@, JsonModel::Text(id)),
        from,
        ("path"@, JsonModel::Text(path)),
        ("intent"@, JsonModel::Text(intent)),
        ("intent_team"@, JsonModel::Text(team)),
    ];
    JsonModel::Object(
        match token {
            Some(n) => plain.push(("preview_token"@, int_model(n as int))),
            None => plain,
        },
    )
}

fn make_fetch(
    id: &str,
    key: &str,
    source: Json,
    path: &str,
    intent: &str,
    team: &str,
    token: Option<u64>,
) -> (r: Json)
    ensures
        r@ == fetch_body(id@, (key@, source@), path@, intent@, team@, token),
{
    let ghost view = source@;
    let mut fields: Vec<(String, Json)> = Vec::new();
    fields.push(("id".to_owned(), Json::from_text(id)));
    fields.push((key.to_owned(), source));
    fields.push(("path".to_owned(), Json::from_text(path)));
    fields.push(("intent".to_owned(), Json::from_text(intent)));
    fields.push(("intent_team".to_owned(), Json::from_text(team)));
    if let Some(n) = token {
        fields.push(("preview_token".to_owned(), Json::from_u64(n)));
    }
    let r: Json = Json::from_members(fields);
    proof {
        assert(r@->Object_0 =~= fetch_body(
            id@,
            (key@, view),
            path@,
            intent@,
            team@,
            token,
        )->Object_0);
    }
    r
}

/// The steps that bring the result of a task to this machine and use it.
pub open spec fn task_fetched(
    list: TaskListView,
    present: Set<Seq<char>>,
    id: Seq<char>,
    intent: Seq<char>,
    team: Seq<char>,
    token: Option<u64>,
) -> Seq<StepView> {
    if is_here(list.local, present, id) {
        file_steps(id, list.local[id], intent, team, token)
    } else {
        match first_where(list.tasks, text_is("id"@, id)) {
            None => Seq::empty(),
            Some(i) => {
                let task = list.tasks[i];
                if task.list("outputs"@).len() == 0 {
                    Seq::empty()
                } else {
                    let ending = if task.text("kind"@) == "video"@ {
                        "mp4"@
                    } else {
                        "png"@
                    };
                    seq![
                        crate::cloud::steps::ask(
                            fetch_job(intent, id, token),
                            "GET"@,
                            "local:download"@,
                            fetch_body(
                                id,
                                ("url"@, task.list("outputs"@)[0].at("download_url"@)),
                                joined_path(list.folder, id + "."@ + ending),
                                intent,
                                team,
                                token,
                            ),
                        ),
                    ]
                }
            },
        }
    }
}

pub fn download_task_with_token(
    list: &TaskList,
    present: &TextSet,
    id: &str,
    intent: &str,
    team: &str,
    token: Option<u64>,
) -> (r: Vec<Step>)
    ensures
        step_views(r@) == task_fetched(list@, present@, id@, intent@, team@, token),
{
    if let Some(path) = here(&list.local, present, id) {
        return use_file(id, path.as_str(), intent, team, token);
    }
    let i: usize = match find_text(&list.tasks, "id", id) {
        Some(i) => i,
        None => return none(),
    };
    let task: &Json = &list.tasks[i];
    let outputs: Vec<Json> = task.list("outputs");
    if outputs.len() == 0 {
        return none();
    }
    proof {
        assert(models(outputs@)[0] == outputs@[0]@);
    }
    let ending: &'static str = if task.text_is("kind", "video") {
        "mp4"
    } else {
        "png"
    };
    let path: String = join_path(list.folder.as_str(), cat3(id, ".", ending).as_str());
    let name: String = if same(intent, "cache") {
        cat("local-cache:", id)
    } else if same(intent, "reference") {
        cat("local-reference:", id)
    } else if same(intent, "media-preview") {
        name_preview_job(id, token)
    } else {
        "local".to_owned()
    };
    let body: Json = make_fetch(
        id,
        "url",
        outputs[0].at("download_url"),
        path.as_str(),
        intent,
        team,
        token,
    );
    one(crate::cloud::steps::asking(name.as_str(), "GET", "local:download", body))
}

pub fn download_task(list: &TaskList, present: &TextSet, id: &str, intent: &str, team: &str) -> (r:
    Vec<Step>)
    ensures
        step_views(r@) == task_fetched(list@, present@, id@, intent@, team@, None),
{
    download_task_with_token(list, present, id, intent, team, None)
}

/// The steps for a team file that is on this machine already.
pub open spec fn asset_steps(
    id: Seq<char>,
    path: Seq<char>,
    intent: Seq<char>,
    token: Option<u64>,
) -> Seq<StepView> {
    if intent == "picker-batch"@ {
        seq![StepView::ContinuePicker]
    } else if intent == "media-preview"@ {
        seq![StepView::FinishPreview(id, path, token)]
    } else if intent == "preview"@ {
        seq![StepView::OpenFile(path)]
    } else if intent == "import"@ {
        seq![StepView::Handoff("clip"@, plain_imports(seq![path]))]
    } else if intent == "reference"@ {
        seq![StepView::Upload(path, "generation_input"@)]
    } else if intent == "canvas"@ {
        seq![
            StepView::PickerOpen(false),
            StepView::Handoff("canvas"@, plain_imports(seq![path])),
        ]
    } else if intent == "download"@ {
        seq![StepView::Notice("素材已保存到本机"@)]
    } else {
        Seq::empty()
    }
}

fn use_asset(id: &str, path: &str, intent: &str, token: Option<u64>) -> (r: Vec<Step>)
    ensures
        step_views(r@) == asset_steps(id@, path@, intent@, token),
{
    if same(intent, "picker-batch") {
        one(Step::ContinuePicker)
    } else if same(intent, "media-preview") {
        one(Step::FinishPreview(id.to_owned(), path.to_owned(), token))
    } else if same(intent, "preview") {
        one(Step::OpenFile(path.to_owned()))
    } else if same(intent, "import") {
        one(Step::Handoff("clip".to_owned(), from_path(path)))
    } else if same(intent, "reference") {
        one(Step::Upload(path.to_owned(), "generation_input".to_owned()))
    } else if same(intent, "canvas") {
        let mut steps: Vec<Step> = one(Step::PickerOpen(false));
        then_do(&mut steps, Step::Handoff("canvas".to_owned(), from_path(path)));
        proof {
            assert(step_views(steps@) =~= seq![
                StepView::PickerOpen(false),
                StepView::Handoff("canvas"@, plain_imports(seq![path@])),
            ]);
        }
        steps
    } else if same(intent, "download") {
        one(Step::Notice("素材已保存到本机".to_owned()))
    } else {
        none()
    }
}

/// The picker and the steps when a team file is brought to this machine and
/// used. A file of a batch is fetched as it was when it was chosen.
pub open spec fn asset_fetched(
    list: TaskListView,
    picker: PickerView,
    page: TeamView,
    present: Set<Seq<char>>,
    id: Seq<char>,
    intent: Seq<char>,
    token: Option<u64>,
) -> (PickerView, Seq<StepView>) {
    if is_here(list.local, present, id) {
        let path = list.local[id];
        (
            if intent == "picker-batch"@ {
                PickerView {
                    batch: match picker.batch {
                        Some(b) => Some(crate::cloud::picker::batch_with_path(b, id, path)),
                        None => None,
                    },
                    ..picker
                }
            } else {
                picker
            },
            asset_steps(id, path, intent, token),
        )
    } else if intent == "picker-batch"@ {
        match frozen_request(picker, id) {
            Some(req) => (picker, seq![StepView::Job("picker-batch"@, req)]),
            None => (
                PickerView { batch: None, ..picker },
                seq![StepView::Error("所选素材的下载信息已失效，请重新选择"@)],
            ),
        }
    } else {
        match first_where(page.assets, text_is("id"@, id)) {
            None => (picker, Seq::empty()),
            Some(i) => (
                picker,
                seq![
                    crate::cloud::steps::ask(
                        if intent == "media-preview"@ {
                            preview_job_name(id, token)
                        } else {
                            "local"@
                        },
                        "GET"@,
                        "local:download"@,
                        fetch_body(
                            id,
                            (
                                "endpoint"@,
                                JsonModel::Text(
                                    "/api/teams/"@ + team_of(page) + "/assets/"@ + id
                                        + "/download"@,
                                ),
                            ),
                            file_for(list.folder, id, page.assets[i].text("filename"@)),
                            intent,
                            ""@,
                            token,
                        ),
                    ),
                ],
            ),
        }
    }
}

/// The request for a file of the batch.
pub open spec fn frozen_request(
    picker: PickerView,
    id: Seq<char>,
) -> Option<crate::cloud::requests::RequestView> {
    match picker.batch {
        None => None,
        Some(b) => match first_where(b.items, crate::cloud::picker::selection_is(id)) {
            None => None,
            Some(i) => crate::cloud::picker::download_of(b.items[i]),
        },
    }
}

fn find_frozen(picker: &Picker, id: &str) -> (r: Option<Request>)
    ensures
        crate::cloud::generation::opt_request(r) == frozen_request(picker@, id@),
{
    match &picker.batch {
        None => None,
        Some(b) => match crate::cloud::picker::find_selection(&b.items, id) {
            None => None,
            Some(i) => {
                proof {
                    assert(selection_views(b.items@)[i as int] == b.items@[i as int]@);
                }
                picker_download_request(&b.items[i])
            },
        },
    }
}

pub fn download_asset_with_token(
    list: &TaskList,
    picker: &mut Picker,
    page: &TeamPage,
    present: &TextSet,
    id: &str,
    intent: &str,
    token: Option<u64>,
) -> (r: Vec<Step>)
    ensures
        (final(picker)@, step_views(r@)) == asset_fetched(
            list@,
            old(picker)@,
            page@,
            present@,
            id@,
            intent@,
            token,
        ),
{
    if let Some(path) = here(&list.local, present, id) {
        if same(intent, "picker-batch") {
            set_picker_batch_path(picker, id, path.as_str());
        }
        return use_asset(id, path.as_str(), intent, token);
    }
    if same(intent, "picker-batch") {
        return match find_frozen(picker, id) {
            Some(req) => one(Step::Job("picker-batch".to_owned(), req)),
            None => {
                picker.batch = None;
                fail("所选素材的下载信息已失效，请重新选择")
            },
        };
    }
    let i: usize = match find_text(&page.assets, "id", id) {
        Some(i) => i,
        None => return none(),
    };
    let filename: String = page.assets[i].text("filename");
    let team: String = team_id(page);
    let head: String = cat3("/api/teams/", team.as_str(), "/assets/");
    let endpoint: String = cat3(head.as_str(), id, "/download");
    let path: String = local_file(list.folder.as_str(), id, filename.as_str());
    let name: String = if same(intent, "media-preview") {
        name_preview_job(id, token)
    } else {
        "local".to_owned()
    };
    let body: Json = make_fetch(
        id,
        "endpoint",
        Json::from_text(endpoint.as_str()),
        path.as_str(),
        intent,
        "",
        token,
    );
    one(crate::cloud::steps::asking(name.as_str(), "GET", "local:download", body))
}

pub fn download_asset(
    list: &TaskList,
    picker: &mut Picker,
    page: &TeamPage,
    present: &TextSet,
    id: &str,
    intent: &str,
) -> (r: Vec<Step>)
    ensures
        (final(picker)@, step_views(r@)) == asset_fetched(
            list@,
            old(picker)@,
            page@,
            present@,
            id@,
            intent@,
            None,
        ),
{
    download_asset_with_token(list, picker, page, present, id, intent, None)
}

/// Results are used only when every one of them is on this machine: until
/// then at most one file is asked for, and nothing else is done.
pub proof fn results_are_used_together(list: TaskListView, facts: FactsView, i: int)
    requires
        list.batch is Some,
        0 <= i < list.batch->0.ids.len(),
        results_continued(list, facts).0.batch is None,
    ensures
        is_here(list.local, facts.present, list.batch->0.ids[i]),
{
    none_missing(list.batch->0.ids, list.local, facts.present, 0, i);
}

proof fn none_missing(
    ids: Seq<Seq<char>>,
    local: Map<Seq<char>, Seq<char>>,
    present: Set<Seq<char>>,
    from: int,
    i: int,
)
    requires
        0 <= from <= i < ids.len(),
        missing_from(ids, local, present, from) is None,
    ensures
        is_here(local, present, ids[i]),
    decreases i - from,
{
    if from < i {
        none_missing(ids, local, present, from + 1, i);
    }
}

} // verus!
