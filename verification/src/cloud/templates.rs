//! The page of the generation templates, and taking up templates and tasks in
//! the form.

use crate::cloud::catalog::{selected_id, selected_model};
use crate::cloud::configuration::{
    current_template_parameters, saved_references, server_task_snapshot, shown_parameters,
    snapshot_of, snapshot_outcome, summary_entries, template_parameter_summary,
    template_references, SnapshotView, TaskInputSnapshot,
};
use crate::cloud::generation::form_model;
use crate::cloud::intents::{Intents, IntentsView};
use crate::cloud::personal::{day_label, local_date_label, LocalDay};
use crate::cloud::requests::{job_views, Request, RequestView};
use crate::cloud::rows::{blank, blank_item, row_views, CloudItem, ItemRow};
use crate::cloud::steps::{none, one, step_views, then_do, Panel, Step, StepView};
use crate::cloud::studio::{
    apply_configuration_with, configuration_applied, configuration_warnings, show_warnings,
    warnings_shown, ConfigurationPlan, Studio, StudioView, TemplateFormView,
};
use crate::cloud::tasks::{TaskList, TaskListView};
use crate::collections::TextSet;
use crate::generation_templates::{
    place_of, reference_views, template_views, GenerationTemplate, Library, LibraryView,
    ReferenceView, TemplateReference, TemplateView,
};
use crate::json::{models, printed, Json, JsonModel};
use crate::lists::{find_text, first_where, text_is};
use crate::sort::{arrange, key_views, order_of, time_key, KeyView, SortKey};
use crate::text::{cat, decimal, joined, same, to_decimal, views};
use vstd::prelude::*;
use vstd::string::*;

verus! {

/// A row of the list of templates.
pub struct TemplateRow {
    pub id: String,
    pub name: String,
    pub mode_label: String,
    pub model_name: String,
    pub parameter_summary: String,
    pub reference_summary: String,
    pub updated_label: String,
    pub prompt_preview: String,
    pub references: Vec<CloudItem>,
}

pub struct TemplateRowView {
    pub id: Seq<char>,
    pub name: Seq<char>,
    pub mode_label: Seq<char>,
    pub model_name: Seq<char>,
    pub parameter_summary: Seq<char>,
    pub reference_summary: Seq<char>,
    pub updated_label: Seq<char>,
    pub prompt_preview: Seq<char>,
    pub references: Seq<ItemRow>,
}

impl View for TemplateRow {
    type V = TemplateRowView;

    open spec fn view(&self) -> TemplateRowView {
        TemplateRowView {
            id: self.id@,
            name: self.name@,
            mode_label: self.mode_label@,
            model_name: self.model_name@,
            parameter_summary: self.parameter_summary@,
            reference_summary: self.reference_summary@,
            updated_label: self.updated_label@,
            prompt_preview: self.prompt_preview@,
            references: row_views(self.references@),
        }
    }
}

/// The name of the model of a template, as far as the catalog has it.
pub open spec fn model_label(catalog: Seq<JsonModel>, id: Seq<char>) -> Seq<char> {
    match first_where(catalog, text_is("id"@, id)) {
        Some(i) => if catalog[i].text("display_name"@).len() > 0 {
            catalog[i].text("display_name"@)
        } else {
            id
        },
        None => id,
    }
}

fn label_model(catalog: &Vec<Json>, id: &str) -> (r: String)
    ensures
        r@ == model_label(models(catalog@), id@),
{
    match find_text(catalog, "id", id) {
        Some(i) => {
            let label: String = catalog[i].text("display_name");
            if label.as_str().is_empty() {
                id.to_owned()
            } else {
                label
            }
        },
        None => id.to_owned(),
    }
}

/// The row of a reference of a template.
pub open spec fn template_reference_row(r: ReferenceView, present: Set<Seq<char>>) -> ItemRow {
    ItemRow {
        id: r.path,
        name: r.name,
        kind: r.kind,
        ready: present.contains(r.path),
        local: true,
        preview: r.path,
        ..blank()
    }
}

pub open spec fn template_reference_rows(
    references: Seq<ReferenceView>,
    present: Set<Seq<char>>,
) -> Seq<ItemRow> {
    Seq::new(references.len(), |i: int| template_reference_row(references[i], present))
}

fn list_references(references: &Vec<TemplateReference>, present: &TextSet) -> (r: Vec<CloudItem>)
    ensures
        row_views(r@) == template_reference_rows(reference_views(references@), present@),
{
    let mut out: Vec<CloudItem> = Vec::new();
    let mut i: usize = 0;
    while i < references.len()
        invariant
            i <= references.len(),
            out@.len() == i,
            forall|j: int|
                0 <= j < i ==> (#[trigger] out@[j])@ == template_reference_row(
                    references@[j]@,
                    present@,
                ),
        decreases references.len() - i,
    {
        let reference: &TemplateReference = &references[i];
        out.push(
            CloudItem {
                id: reference.path.clone(),
                name: reference.name.clone(),
                kind: reference.kind.clone(),
                ready: present.has(reference.path.as_str()),
                local: true,
                preview: reference.path.clone(),
                ..blank_item()
            },
        );
        i = i + 1;
    }
    proof {
        assert(row_views(out@) =~= template_reference_rows(reference_views(references@), present@));
    }
    out
}

/// The row of a template; `day` is when it was changed.
pub open spec fn template_row(
    item: TemplateView,
    catalog: Seq<JsonModel>,
    present: Set<Seq<char>>,
    day: Option<LocalDay>,
) -> TemplateRowView {
    TemplateRowView {
        id: item.id,
        name: item.name,
        mode_label: if item.mode == 0 {
            "图片"@
        } else {
            "视频"@
        },
        model_name: model_label(catalog, item.model_id),
        parameter_summary: joined(summary_entries(item.parameters, 7), " · "@),
        reference_summary: decimal(item.references.len()) + " 项参考素材"@,
        updated_label: day_label(day),
        prompt_preview: item.prompt,
        references: template_reference_rows(item.references, present),
    }
}

fn show_template(
    item: &GenerationTemplate,
    catalog: &Vec<Json>,
    present: &TextSet,
    day: &Option<LocalDay>,
) -> (r: TemplateRow)
    ensures
        r@ == template_row(item@, models(catalog@), present@, *day),
{
    proof {
        assert(item@.references.len() == item.references@.len());
    }
    TemplateRow {
        id: item.id.clone(),
        name: item.name.clone(),
        mode_label: (if item.mode == 0 {
            "图片"
        } else {
            "视频"
        }).to_owned(),
        model_name: label_model(catalog, item.model_id.as_str()),
        parameter_summary: template_parameter_summary(&item.parameters),
        reference_summary: cat(to_decimal(item.references.len() as u64).as_str(), " 项参考素材"),
        updated_label: local_date_label(day),
        prompt_preview: item.prompt.clone(),
        references: list_references(&item.references, present),
    }
}

/// What templates are sorted by: the time of their last change.
pub open spec fn template_keys(items: Seq<TemplateView>) -> Seq<KeyView> {
    Seq::new(
        items.len(),
        |i: int| KeyView { group: 0, name: ""@, time: items[i].updated_at, id: ""@ },
    )
}

/// The rows of the templates, those that were changed last first.
pub open spec fn template_rows(
    items: Seq<TemplateView>,
    catalog: Seq<JsonModel>,
    present: Set<Seq<char>>,
    days: Seq<Option<LocalDay>>,
) -> Seq<TemplateRowView> {
    let order = order_of(template_keys(items));
    Seq::new(
        order.len(),
        |i: int| template_row(items[order[i] as int], catalog, present, days[order[i] as int]),
    )
}

/// The rows of the templates.
pub fn render_templates(
    items: &Vec<GenerationTemplate>,
    catalog: &Vec<Json>,
    present: &TextSet,
    days: &Vec<Option<LocalDay>>,
) -> (r: Vec<TemplateRow>)
    requires
        days.len() == items.len(),
    ensures
        r@.len() == items@.len(),
        forall|i: int|
            0 <= i < r@.len() ==> (#[trigger] r@[i])@ == template_rows(
                template_views(items@),
                models(catalog@),
                present@,
                days@,
            )[i],
{
    let ghost all = template_views(items@);
    let mut keys: Vec<SortKey> = Vec::new();
    let mut i: usize = 0;
    while i < items.len()
        invariant
            i <= items.len(),
            keys@.len() == i,
            forall|j: int|
                0 <= j < i ==> (#[trigger] keys@[j])@ == (KeyView {
                    group: 0,
                    name: ""@,
                    time: items@[j].updated_at,
                    id: ""@,
                }),
        decreases items.len() - i,
    {
        keys.push(time_key(items[i].updated_at));
        i = i + 1;
    }
    proof {
        assert(key_views(keys@) =~= template_keys(all));
    }
    let order: Vec<usize> = arrange(&keys);
    let mut out: Vec<TemplateRow> = Vec::new();
    let mut k: usize = 0;
    while k < order.len()
        invariant
            k <= order.len(),
            all == template_views(items@),
            days.len() == items.len(),
            order@.len() == items@.len(),
            order@ == order_of(template_keys(all)),
            forall|j: int| 0 <= j < order@.len() ==> #[trigger] order@[j] < items@.len(),
            out@.len() == k,
            forall|j: int|
                0 <= j < k ==> (#[trigger] out@[j])@ == template_rows(
                    all,
                    models(catalog@),
                    present@,
                    days@,
                )[j],
        decreases order.len() - k,
    {
        proof {
            assert(all[order@[k as int] as int] == items@[order@[k as int] as int]@);
        }
        out.push(show_template(&items[order[k]], catalog, present, &days[order[k]]));
        k = k + 1;
    }
    out
}

/// `first`, then each of these jobs is started.
pub open spec fn job_steps(first: Seq<StepView>, jobs: Seq<(Seq<char>, RequestView)>) -> Seq<
    StepView,
>
    decreases jobs.len(),
{
    if jobs.len() == 0 {
        first
    } else {
        job_steps(first, jobs.drop_last()).push(StepView::Job(jobs.last().0, jobs.last().1))
    }
}

fn add_jobs(steps: &mut Vec<Step>, jobs: Vec<(String, Request)>)
    ensures
        step_views(final(steps)@) == job_steps(step_views(old(steps)@), job_views(jobs@)),
{
    let ghost first = step_views(steps@);
    let ghost all = job_views(jobs@);
    let ghost whole = jobs@;
    let mut rest: Vec<(String, Request)> = jobs;
    let ghost mut done: int = 0;
    proof {
        assert(all.take(0) =~= Seq::empty());
        assert(whole.skip(0) =~= whole);
    }
    while rest.len() > 0
        invariant
            0 <= done <= whole.len(),
            rest@ == whole.skip(done),
            all == job_views(whole),
            step_views(steps@) == job_steps(first, all.take(done)),
        decreases rest.len(),
    {
        let job: (String, Request) = rest.remove(0);
        proof {
            assert(whole.skip(done)[0] == whole[done]);
            assert(all[done] == (job.0@, job.1@));
            assert(rest@ =~= whole.skip(done + 1));
            assert(all.take(done + 1).drop_last() =~= all.take(done));
            assert(all.take(done + 1).last() == all[done]);
        }
        then_do(steps, Step::Job(job.0, job.1));
        proof {
            done = done + 1;
        }
    }
    proof {
        assert(all.take(all.len() as int) =~= all);
    }
}

/// The studio and the steps when a configuration is taken up: its references
/// are uploaded, a quote is asked for where it has none, and what could not be
/// taken up is told after the uploads have begun; only where all could, `notice`
/// is shown.
pub open spec fn configuration_used(
    studio: StudioView,
    configuration: TemplateView,
    exists: Seq<bool>,
    source: Seq<char>,
    update_metadata: bool,
    ids: Seq<Seq<char>>,
    notice: Seq<char>,
) -> (StudioView, Seq<StepView>) {
    let (after, uploads, quote) = configuration_applied(
        studio,
        configuration,
        exists,
        update_metadata,
        ids,
    );
    let warnings = configuration_warnings(
        studio.catalog.models,
        configuration,
        exists,
        source,
    );
    let form = warnings_shown(after.form, warnings);
    let drawn = job_steps(Seq::empty(), uploads).push(StepView::Draw(Panel::References));
    let asked = match quote {
        Some(req) => drawn.push(StepView::Job("quote"@, req)),
        None => drawn,
    };
    (
        StudioView { form, ..after },
        asked.push(
            if form.recovery_warning.len() == 0 {
                StepView::Notice(notice)
            } else {
                StepView::Error(form.recovery_warning)
            },
        ),
    )
}

/// Takes up a configuration; references without an identity get those of
/// `ids`.
pub fn use_configuration(
    studio: &mut Studio,
    configuration: &GenerationTemplate,
    exists: &Vec<bool>,
    source: &str,
    update_metadata: bool,
    ids: &Vec<String>,
    notice: &str,
) -> (r: Vec<Step>)
    requires
        exists.len() == configuration.references.len(),
        ids.len() == configuration.references.len(),
    ensures
        (final(studio)@, step_views(r@)) == configuration_used(
            old(studio)@,
            configuration@,
            exists@,
            source@,
            update_metadata,
            views(ids@),
            notice@,
        ),
{
    let plan: ConfigurationPlan = apply_configuration_with(
        studio,
        configuration,
        exists,
        source,
        update_metadata,
        ids,
    );
    show_warnings(&mut studio.form, &plan.warnings);
    let mut steps: Vec<Step> = none();
    add_jobs(&mut steps, plan.uploads);
    then_do(&mut steps, Step::Draw(Panel::References));
    if let Some(req) = plan.quote {
        then_do(&mut steps, Step::Job("quote".to_owned(), req));
    }
    if studio.form.recovery_warning.as_str().is_empty() {
        then_do(&mut steps, Step::Notice(notice.to_owned()));
    } else {
        then_do(&mut steps, Step::Error(studio.form.recovery_warning.clone()));
    }
    steps
}

/// Takes up a template; a reference without an identity gets one of `ids`.
pub fn apply_template(
    studio: &mut Studio,
    template: Option<&GenerationTemplate>,
    exists: &Vec<bool>,
    ids: &Vec<String>,
) -> (r: Result<Vec<Step>, String>)
    requires
        template matches Some(t) ==> exists.len() == t.references.len() && ids.len()
            == t.references.len(),
    ensures
        match template {
            None => r matches Err(e) && e@ == "未找到该生成模板，请刷新后重试"@ && final(studio)@
                == old(studio)@,
            Some(t) => r matches Ok(steps) && (final(studio)@, step_views(steps@))
                == configuration_used(
                old(studio)@,
                t@,
                exists@,
                "模板"@,
                true,
                views(ids@),
                "模板已应用，可继续调整后生成"@,
            ),
        },
{
    match template {
        None => Err("未找到该生成模板，请刷新后重试".to_owned()),
        Some(t) => Ok(
            use_configuration(
                studio,
                t,
                exists,
                "模板",
                true,
                ids,
                "模板已应用，可继续调整后生成",
            ),
        ),
    }
}

/// What a task was made from, as a configuration.
pub open spec fn as_configuration(s: SnapshotView) -> TemplateView {
    TemplateView {
        id: ""@,
        name: ""@,
        prompt: s.prompt,
        mode: s.mode,
        model_id: s.model_id,
        parameters: s.parameters,
        references: s.references,
        created_at: 0,
        updated_at: 0,
    }
}

/// The studio, the tasks and the steps when the form is filled from a task.
pub open spec fn task_taken_up(
    studio: StudioView,
    list: TaskListView,
    snapshot: SnapshotView,
    exists: Seq<bool>,
    ids: Seq<Seq<char>>,
) -> (StudioView, TaskListView, Seq<StepView>) {
    let (after, steps) = configuration_used(
        studio,
        as_configuration(snapshot),
        exists,
        "历史任务"@,
        false,
        ids,
        "历史任务输入已回填，可调整后重新报价"@,
    );
    (
        after,
        TaskListView { preview_open: false, ..list },
        steps.push(StepView::GenerationStep(0)),
    )
}

/// Fills the form from what a task was made from.
pub fn apply_task_snapshot(
    studio: &mut Studio,
    list: &mut TaskList,
    snapshot: TaskInputSnapshot,
    exists: &Vec<bool>,
    ids: &Vec<String>,
) -> (r: Vec<Step>)
    requires
        exists.len() == snapshot.references.len(),
        ids.len() == snapshot.references.len(),
    ensures
        (final(studio)@, final(list)@, step_views(r@)) == task_taken_up(
            old(studio)@,
            old(list)@,
            snapshot@,
            exists@,
            views(ids@),
        ),
{
    let configuration: GenerationTemplate = GenerationTemplate {
        id: "".to_owned(),
        name: "".to_owned(),
        prompt: snapshot.prompt,
        mode: snapshot.mode,
        model_id: snapshot.model_id,
        parameters: snapshot.parameters,
        references: snapshot.references,
        created_at: 0,
        updated_at: 0,
    };
    let mut steps: Vec<Step> = use_configuration(
        studio,
        &configuration,
        exists,
        "历史任务",
        false,
        ids,
        "历史任务输入已回填，可调整后重新报价",
    );
    list.preview_open = false;
    then_do(&mut steps, Step::GenerationStep(0));
    steps
}

/// What the form is filled with when a task is taken up again.
pub open spec fn refill_inputs(list: TaskListView, id: Seq<char>) -> Result<
    SnapshotView,
    Seq<char>,
> {
    match first_where(list.tasks, text_is("id"@, id)) {
        None => Err("未找到该历史任务，请刷新后重试"@),
        Some(i) => if list.snapshots.contains_key(id) {
            Ok(list.snapshots[id])
        } else {
            snapshot_of(list.tasks[i])
        },
    }
}

/// What the form is filled with when a task is taken up again.
pub fn refill_task(list: &TaskList, id: &str) -> (r: Result<TaskInputSnapshot, String>)
    ensures
        snapshot_outcome(r) == refill_inputs(list@, id@),
{
    let i: usize = match find_text(&list.tasks, "id", id) {
        Some(i) => i,
        None => return Err("未找到该历史任务，请刷新后重试".to_owned()),
    };
    match list.snapshots.get(id) {
        Some(s) => Ok(s.copy()),
        None => server_task_snapshot(&list.tasks[i]),
    }
}

/// The intents and the steps when a task is taken up again: where the catalog
/// has not come yet, the user waits for it.
pub open spec fn refill_asked(
    intents: IntentsView,
    list: TaskListView,
    catalog: nat,
    id: Seq<char>,
) -> (IntentsView, Seq<StepView>) {
    if catalog == 0 {
        (
            IntentsView { refill_id: Some(id), ..intents },
            seq![
                StepView::Error(""@),
                StepView::Notice("正在加载模型目录，加载完成后将继续回填"@),
                StepView::RefreshModels,
            ],
        )
    } else {
        (
            intents,
            match refill_inputs(list, id) {
                Ok(_) => seq![StepView::Error(""@), StepView::RefillTask(id)],
                Err(e) => seq![StepView::Error(""@), StepView::Error(e)],
            },
        )
    }
}

pub fn ask_refill(intents: &mut Intents, list: &TaskList, catalog: usize, id: &str) -> (r: Vec<Step>)
    ensures
        (final(intents)@, step_views(r@)) == refill_asked(
            old(intents)@,
            list@,
            catalog as nat,
            id@,
        ),
{
    let mut steps: Vec<Step> = one(Step::Error("".to_owned()));
    if catalog == 0 {
        intents.refill_id = Some(id.to_owned());
        then_do(
            &mut steps,
            Step::Notice("正在加载模型目录，加载完成后将继续回填".to_owned()),
        );
        then_do(&mut steps, Step::RefreshModels);
        proof {
            assert(step_views(steps@) =~= seq![
                StepView::Error(""@),
                StepView::Notice("正在加载模型目录，加载完成后将继续回填"@),
                StepView::RefreshModels,
            ]);
        }
        return steps;
    }
    match refill_task(list, id) {
        Ok(_) => then_do(&mut steps, Step::RefillTask(id.to_owned())),
        Err(e) => then_do(&mut steps, Step::Error(e)),
    }
    steps
}

/// The paths of references, printed as a document.
pub open spec fn printed_paths(references: Seq<ReferenceView>) -> Seq<char> {
    printed(
        JsonModel::Array(
            Seq::new(references.len(), |i: int| JsonModel::Text(references[i].path)),
        ),
    )
}

fn print_paths(references: &Vec<TemplateReference>) -> (r: String)
    ensures
        r@ == printed_paths(reference_views(references@)),
{
    let mut out: Vec<Json> = Vec::new();
    let mut i: usize = 0;
    while i < references.len()
        invariant
            i <= references.len(),
            out@.len() == i,
            forall|j: int|
                0 <= j < i ==> (#[trigger] out@[j])@ == JsonModel::Text(references@[j]@.path),
        decreases references.len() - i,
    {
        out.push(Json::from_text(references[i].path.as_str()));
        i = i + 1;
    }
    proof {
        assert(models(out@) =~= Seq::new(
            references@.len(),
            |i: int| JsonModel::Text(reference_views(references@)[i].path),
        ));
    }
    Json::from_list(out).print()
}

/// The editor for a new template of the form.
pub open spec fn editor_for_new(studio: StudioView) -> TemplateFormView {
    TemplateFormView {
        id: ""@,
        name: ""@,
        prompt: studio.prompt.prompt,
        mode: studio.form.mode,
        model_id: selected_id(studio.form.mode, studio.form.model_index, studio.catalog),
        ..studio.template
    }
}

/// The editor for a template.
pub open spec fn editor_for(item: TemplateView) -> TemplateFormView {
    TemplateFormView {
        id: item.id,
        name: item.name,
        prompt: item.prompt,
        mode: item.mode,
        model_id: item.model_id,
        parameters_json: printed(item.parameters),
        reference_paths: printed_paths(item.references),
    }
}

/// The studio, the intents and the steps after an action of the template page
/// that writes nothing.
pub open spec fn template_acted(
    studio: StudioView,
    intents: IntentsView,
    library: LibraryView,
    action: Seq<char>,
    id: Seq<char>,
) -> (StudioView, IntentsView, Seq<StepView>) {
    let cleared = seq![StepView::Error(""@)];
    let missing = StepView::Error("未找到该生成模板，请刷新后重试"@);
    if action == "template-new"@ {
        (StudioView { template: editor_for_new(studio), ..studio }, intents, cleared)
    } else if action == "template-edit"@ {
        match place_of(library.items, id) {
            Some(k) => (
                StudioView { template: editor_for(library.items[k]), ..studio },
                intents,
                cleared,
            ),
            None => (studio, intents, cleared.push(missing)),
        }
    } else if action == "template-apply"@ {
        if studio.catalog.models.len() == 0 {
            (
                studio,
                IntentsView { template_id: Some(id), ..intents },
                if studio.signed_in {
                    cleared.push(
                        StepView::Notice("正在加载模型目录，加载完成后将继续应用模板"@),
                    ).push(StepView::RefreshModels)
                } else {
                    cleared.push(
                        StepView::Notice("登录并加载模型目录后将继续应用模板"@),
                    ).push(StepView::ShowAuth(Some(7)))
                },
            )
        } else {
            (
                studio,
                intents,
                cleared.push(
                    match place_of(library.items, id) {
                        Some(_) => StepView::ApplyTemplate(id),
                        None => missing,
                    },
                ),
            )
        }
    } else {
        (studio, intents, cleared)
    }
}

/// Does what a button of the template page stands for, where nothing has to be
/// written for it.
pub fn template_action(
    studio: &mut Studio,
    intents: &mut Intents,
    library: &Library,
    action: &str,
    id: &str,
) -> (r: Vec<Step>)
    ensures
        (final(studio)@, final(intents)@, step_views(r@)) == template_acted(
            old(studio)@,
            old(intents)@,
            library@,
            action@,
            id@,
        ),
{
    let mut steps: Vec<Step> = one(Step::Error("".to_owned()));
    if same(action, "template-new") {
        let model_id: String = selected_model(
            studio.form.mode,
            studio.form.model_index,
            &studio.catalog,
        );
        studio.template.id = "".to_owned();
        studio.template.name = "".to_owned();
        studio.template.prompt = studio.prompt.prompt.clone();
        studio.template.mode = studio.form.mode;
        studio.template.model_id = model_id;
    } else if same(action, "template-edit") {
        match library.get(id) {
            Some(item) => {
                studio.template.id = item.id.clone();
                studio.template.name = item.name.clone();
                studio.template.prompt = item.prompt.clone();
                studio.template.mode = item.mode;
                studio.template.model_id = item.model_id.clone();
                studio.template.parameters_json = item.parameters.print();
                studio.template.reference_paths = print_paths(&item.references);
            },
            None => {
                then_do(&mut steps, Step::Error("未找到该生成模板，请刷新后重试".to_owned()));
            },
        }
    } else if same(action, "template-apply") {
        if studio.catalog.models.len() == 0 {
            intents.template_id = Some(id.to_owned());
            if studio.signed_in {
                then_do(
                    &mut steps,
                    Step::Notice("正在加载模型目录，加载完成后将继续应用模板".to_owned()),
                );
                then_do(&mut steps, Step::RefreshModels);
            } else {
                then_do(
                    &mut steps,
                    Step::Notice("登录并加载模型目录后将继续应用模板".to_owned()),
                );
                then_do(&mut steps, Step::ShowAuth(Some(7)));
            }
        } else if library.get(id).is_some() {
            then_do(&mut steps, Step::ApplyTemplate(id.to_owned()));
        } else {
            then_do(&mut steps, Step::Error("未找到该生成模板，请刷新后重试".to_owned()));
        }
    }
    steps
}

/// Saves the form as a template at the time `now`: the one of the identity
/// `id`, or a new one of the identity `fresh` where `id` is empty. The change
/// still has to be written.
pub fn save_form_at(library: &mut Library, studio: &Studio, id: &str, now: u64, fresh: String) -> (r:
    Result<String, String>)
    ensures
        ({
            let change = crate::generation_templates::saved_form(
                old(library)@.items,
                if id@.len() > 0 {
                    Some(id@)
                } else {
                    None
                },
                studio@.template.name,
                studio@.template.prompt,
                studio@.form.mode,
                selected_id(studio@.form.mode, studio@.form.model_index, studio@.catalog),
                shown_parameters(studio@.form, form_model(studio@.form, studio@.catalog)),
                saved_references(studio@.references),
                now,
                fresh@,
            );
            &&& crate::text::outcome(r) == crate::generation_templates::reported(change)
            &&& final(library)@ == crate::generation_templates::staged(old(library)@, change)
        }),
{
    let model_id: String = selected_model(
        studio.form.mode,
        studio.form.model_index,
        &studio.catalog,
    );
    let parameters: Json = current_template_parameters(&studio.form, &studio.catalog);
    let references: Vec<TemplateReference> = template_references(&studio.references);
    let target: Option<&str> = if id.is_empty() {
        None
    } else {
        Some(id)
    };
    library.save_current_at(
        target,
        studio.template.name.as_str(),
        studio.template.prompt.clone(),
        studio.form.mode,
        model_id,
        parameters,
        references,
        now,
        fresh,
    )
}

/// The studio and the steps when a change of the templates has been written,
/// or could not be. `saved` is the identity of the template that was saved.
pub open spec fn templates_written(
    studio: StudioView,
    action: Seq<char>,
    id: Seq<char>,
    saved: Result<Seq<char>, Seq<char>>,
) -> (StudioView, Seq<StepView>) {
    match saved {
        Err(e) => (studio, seq![StepView::Error(e)]),
        Ok(saved_id) => if action == "template-save-current"@ {
            (
                StudioView {
                    template: TemplateFormView { id: saved_id, ..studio.template },
                    ..studio
                },
                seq![
                    StepView::CloseEditor,
                    StepView::Notice("模板已保存"@),
                    StepView::Draw(Panel::Templates),
                ],
            )
        } else if action == "template-delete"@ {
            (
                if studio.template.id == id {
                    StudioView {
                        template: TemplateFormView { id: ""@, ..studio.template },
                        ..studio
                    }
                } else {
                    studio
                },
                seq![StepView::Notice("模板已删除"@), StepView::Draw(Panel::Templates)],
            )
        } else {
            (studio, seq![StepView::Draw(Panel::Templates)])
        },
    }
}

/// Takes note of how the write of a change of the templates ended.
pub fn template_settled(
    studio: &mut Studio,
    action: &str,
    id: &str,
    saved: Result<String, String>,
) -> (r: Vec<Step>)
    ensures
        (final(studio)@, step_views(r@)) == templates_written(
            old(studio)@,
            action@,
            id@,
            crate::text::outcome(saved),
        ),
{
    let saved_id: String = match saved {
        Ok(saved_id) => saved_id,
        Err(e) => return one(Step::Error(e)),
    };
    if same(action, "template-save-current") {
        studio.template.id = saved_id;
        let mut steps: Vec<Step> = one(Step::CloseEditor);
        then_do(&mut steps, Step::Notice("模板已保存".to_owned()));
        then_do(&mut steps, Step::Draw(Panel::Templates));
        proof {
            assert(step_views(steps@) =~= seq![
                StepView::CloseEditor,
                StepView::Notice("模板已保存"@),
                StepView::Draw(Panel::Templates),
            ]);
        }
        return steps;
    }
    if same(action, "template-delete") {
        if same(studio.template.id.as_str(), id) {
            studio.template.id = "".to_owned();
        }
        let mut steps: Vec<Step> = one(Step::Notice("模板已删除".to_owned()));
        then_do(&mut steps, Step::Draw(Panel::Templates));
        proof {
            assert(step_views(steps@) =~= seq![
                StepView::Notice("模板已删除"@),
                StepView::Draw(Panel::Templates),
            ]);
        }
        return steps;
    }
    one(Step::Draw(Panel::Templates))
}

/// A task that is taken up never leads to a later save over the template that
/// was edited before.
pub proof fn refills_forget_the_edited_template(
    studio: StudioView,
    list: TaskListView,
    snapshot: SnapshotView,
    exists: Seq<bool>,
    ids: Seq<Seq<char>>,
)
    ensures
        task_taken_up(studio, list, snapshot, exists, ids).0.template.id == ""@,
{
}

} // verus!
