//! Templates, earlier inputs, copies and hand-offs, seen from outside.

use crate::cloud::catalog::{configured, has_parameter, value_at, CatalogView, FormView};
use crate::cloud::configuration::{
    saved_references, shown_parameters, snapshot_names, snapshot_of, summary_entries,
    taken_parameters,
};
use crate::cloud::export_copy::{
    copy_next, export_answered, export_begun, name_at, percent_of, stem_for, with_texts,
    CopyActionView, CopyEventView, ExportView, PanelView,
};
use crate::cloud::generation::{form_model, generation_of, request_members};
use crate::cloud::imports::{
    found_places, handoff_begun, imported, is_found, project_key, project_opened, project_rows,
    targets_of, with_names, CanvasProject, Destinations, TransfersView,
};
use crate::cloud::rows::ItemRow;
use crate::cloud::steps::{ImportView, ItemView, StepView};
use crate::cloud::studio::{applied, queued_reference, references_keep_their_places, StudioView};
use crate::cloud::templates::{model_label, template_keys, template_row, template_rows};
use crate::cloud::personal::LocalDay;
use crate::generation_templates::{place_of, saved_form, ReferenceView, TemplateView};
use crate::json::{lookup, set_members_are_found, JsonModel};
use crate::lists::{first_where, text_is};
use crate::paths::extension_of;
use crate::sort::{order_of, orders_exist, row_less, text_less, text_less_total};
use crate::text::{ascii_lowercase, decimal, lowercase, trimmed};
use vstd::prelude::*;

verus! {

/// The names of the parameters are told apart.
proof fn kept_names_differ()
    ensures
        "size"@.len() == 4,
        "quality"@.len() == 7,
        "duration"@.len() == 8 && "duration"@[0] == 'd',
        "quantity"@.len() == 8 && "quantity"@[0] == 'q',
        "resolution"@.len() == 10,
        "aspect_ratio"@.len() == 12,
        "generate_audio"@.len() == 14,
{
    reveal_strlit("size");
    reveal_strlit("quality");
    reveal_strlit("resolution");
    reveal_strlit("duration");
    reveal_strlit("aspect_ratio");
    reveal_strlit("generate_audio");
    reveal_strlit("quantity");
}

/// What is kept of a form, for a template or for later, is what the form would
/// ask for: each parameter has the value that the request has.
pub proof fn kept_forms_are_what_was_asked(
    form: FormView,
    prompt: Seq<char>,
    catalog: CatalogView,
    references: Seq<JsonModel>,
)
    ensures
        ({
            let kept_form = shown_parameters(form, form_model(form, catalog));
            let body = generation_of(form, prompt, catalog, references);
            &&& form.mode != 0 ==> kept_form.get("resolution"@) == body.get("resolution"@)
                && kept_form.get("duration"@) == body.get("duration"@) && kept_form.get(
                "aspect_ratio"@,
            ) == body.get("aspect_ratio"@) && kept_form.get("generate_audio"@) == body.get(
                "generate_audio"@,
            )
            &&& form.mode == 0 ==> kept_form.get("size"@) == body.get("size"@) && kept_form.get(
                "quality"@,
            ) == body.get("quality"@)
            &&& kept_form.get("quantity"@) == body.get("quantity"@)
        }),
{
    kept_names_differ();
    request_members(form, prompt, catalog, references);
    let model = form_model(form, catalog);
    let size = value_at(model, "size"@, form.resolution_index);
    let quality = value_at(model, "quality"@, form.quality_index);
    let resolution = value_at(model, "resolution"@, form.resolution_index);
    let duration = value_at(model, "duration"@, form.duration_index);
    let ratio = value_at(model, "aspect_ratio"@, form.ratio_index);
    let named = if form.mode == 0 {
        JsonModel::Object(seq![("size"@, size), ("quality"@, quality)])
    } else {
        JsonModel::Object(
            seq![("resolution"@, resolution), ("duration"@, duration), ("aspect_ratio"@, ratio)],
        )
    };
    reveal_with_fuel(lookup, 5);
    let entries = named->Object_0;
    let second = entries.drop_first();
    let third = second.drop_first();
    if form.mode == 0 {
        assert(entries[0] == ("size"@, size));
        assert(second[0] == ("quality"@, quality));
        assert(third.len() == 0);
    } else {
        assert(entries[0] == ("resolution"@, resolution));
        assert(second[0] == ("duration"@, duration));
        assert(third[0] == ("aspect_ratio"@, ratio));
        assert(third.drop_first().len() == 0);
    }
    set_members_are_found(named, "generate_audio"@, JsonModel::Bool(form.generate_audio));
    let audio = if has_parameter(model, "generate_audio"@) {
        named.with("generate_audio"@, JsonModel::Bool(form.generate_audio))
    } else {
        named
    };
    set_members_are_found(
        audio,
        "quantity"@,
        value_at(model, "quantity"@, form.quantity_index),
    );
}

/// The inputs of a task are taken from its own request, parameter by parameter
/// under its own name; a task that made a video is a video again.
pub proof fn inputs_are_taken_from_the_request(
    task: JsonModel,
    request: Seq<(Seq<char>, JsonModel)>,
    prompt: Seq<char>,
)
    requires
        task.at("request"@) == JsonModel::Object(request),
        JsonModel::Object(request).get("prompt"@) == Some(JsonModel::Text(prompt)),
        trimmed(prompt).len() > 0,
    ensures
        ({
            let inputs = snapshot_of(task);
            let asked = JsonModel::Object(request);
            &&& inputs is Ok
            &&& inputs->Ok_0.prompt == prompt
            &&& inputs->Ok_0.mode == (if task.text("kind"@) == "video"@ {
                1
            } else {
                0int
            })
            &&& asked.text("model"@).len() > 0 ==> inputs->Ok_0.model_id == asked.text("model"@)
            &&& inputs->Ok_0.parameters.get("size"@) == asked.get("size"@)
            &&& inputs->Ok_0.parameters.get("quality"@) == asked.get("quality"@)
            &&& inputs->Ok_0.parameters.get("resolution"@) == asked.get("resolution"@)
            &&& inputs->Ok_0.parameters.get("duration"@) == asked.get("duration"@)
            &&& inputs->Ok_0.parameters.get("aspect_ratio"@) == asked.get("aspect_ratio"@)
            &&& inputs->Ok_0.parameters.get("generate_audio"@) == asked.get("generate_audio"@)
            &&& inputs->Ok_0.parameters.get("quantity"@) == asked.get("quantity"@)
        }),
{
    taken_so_far(JsonModel::Object(request), 7);
    assert(snapshot_names()[0] == "size"@);
    assert(snapshot_names()[1] == "quality"@);
    assert(snapshot_names()[2] == "resolution"@);
    assert(snapshot_names()[3] == "duration"@);
    assert(snapshot_names()[4] == "aspect_ratio"@);
    assert(snapshot_names()[5] == "generate_audio"@);
    assert(snapshot_names()[6] == "quantity"@);
}

proof fn taken_so_far(request: JsonModel, n: nat)
    requires
        n <= 7,
    ensures
        taken_parameters(request, n) is Object,
        forall|i: int|
            0 <= i < n ==> taken_parameters(request, n).get(#[trigger] snapshot_names()[i])
                == request.get(snapshot_names()[i]),
        forall|i: int|
            n <= i < 7 ==> taken_parameters(request, n).get(#[trigger] snapshot_names()[i]) is None,
    decreases n,
{
    kept_names_differ();
    let all_names = snapshot_names();
    if n == 0 {
        assert(taken_parameters(request, 0) == JsonModel::Object(
            Seq::<(Seq<char>, JsonModel)>::empty(),
        ));
    } else {
        taken_so_far(request, (n - 1) as nat);
        let before = taken_parameters(request, (n - 1) as nat);
        let name = all_names[n - 1];
        assert forall|i: int| 0 <= i < 7 && i != n - 1 implies #[trigger] all_names[i] != name by {
            names_are_apart(i, n - 1);
        }
        if let Some(value) = request.get(name) {
            set_members_are_found(before, name, value);
        }
    }
}

proof fn names_are_apart(i: int, j: int)
    requires
        0 <= i < 7,
        0 <= j < 7,
        i != j,
    ensures
        snapshot_names()[i] != snapshot_names()[j],
{
    kept_names_differ();
    assert(snapshot_names()[0] == "size"@);
    assert(snapshot_names()[1] == "quality"@);
    assert(snapshot_names()[2] == "resolution"@);
    assert(snapshot_names()[3] == "duration"@);
    assert(snapshot_names()[4] == "aspect_ratio"@);
    assert(snapshot_names()[5] == "generate_audio"@);
    assert(snapshot_names()[6] == "quantity"@);
}

/// A reference that is kept is kept whole: its file, its name, its medium and
/// who it is.
pub proof fn references_are_kept_whole(references: Seq<JsonModel>, i: int)
    requires
        0 <= i < references.len(),
    ensures
        ({
            let v = references[i];
            let r = saved_references(references)[i];
            &&& saved_references(references).len() == references.len()
            &&& r.path == v.text("local_path"@) && r.name == v.text("display_name"@) && r.kind
                == v.text("kind"@) && r.client_id == v.text("client_id"@) && r.source_id == v.text(
                "id"@,
            )
        }),
{
}

/// The templates are listed each once, the one that was changed last first,
/// with the day that belongs to it.
pub proof fn templates_are_listed_latest_first(
    items: Seq<TemplateView>,
    catalog: Seq<JsonModel>,
    present: Set<Seq<char>>,
    days: Seq<Option<LocalDay>>,
    i: int,
    j: int,
) -> (places: (int, int))
    requires
        items.len() <= usize::MAX,
        0 <= i < j < template_rows(items, catalog, present, days).len(),
    ensures
        ({
            let rows = template_rows(items, catalog, present, days);
            let (a, b) = places;
            &&& rows.len() == items.len()
            &&& 0 <= a < items.len() && 0 <= b < items.len() && a != b
            &&& rows[i].id == items[a].id && rows[j].id == items[b].id
            &&& rows[i].name == items[a].name && rows[i].prompt_preview == items[a].prompt
            &&& rows[i].mode_label == (if items[a].mode == 0 {
                "图片"@
            } else {
                "视频"@
            })
            &&& items[a].updated_at >= items[b].updated_at
            &&& rows[i] == template_row(items[a], catalog, present, days[a])
        }),
{
    let keys = template_keys(items);
    orders_exist(keys);
    let order = order_of(keys);
    assert(row_less(keys, order[i] as int, order[j] as int));
    text_less_total(""@, ""@);
    (order[i] as int, order[j] as int)
}

/// The members of a reference are told apart.
proof fn members_differ()
    ensures
        "id"@.len() == 2,
        "kind"@.len() == 4,
        "status"@.len() == 6,
        "missing"@.len() == 7,
        "client_id"@.len() == 9 && "client_id"@[0] == 'c',
        "source_id"@.len() == 9 && "source_id"@[0] == 's',
        "local_path"@.len() == 10,
        "display_name"@.len() == 12,
{
    reveal_strlit("client_id");
    reveal_strlit("local_path");
    reveal_strlit("kind");
    reveal_strlit("display_name");
    reveal_strlit("source_id");
    reveal_strlit("status");
    reveal_strlit("missing");
    reveal_strlit("id");
}

/// A configuration that is taken up is shown as it was kept: its kind, its
/// prompt and its references, in order, each with its own file; those whose
/// file is here are sent again, the others are missing. The quote is gone.
pub proof fn configurations_are_taken_up(
    studio: StudioView,
    configuration: TemplateView,
    exists: Seq<bool>,
    update_metadata: bool,
    ids: Seq<Seq<char>>,
    i: int,
)
    requires
        exists.len() == configuration.references.len(),
        ids.len() == configuration.references.len(),
        0 <= i < configuration.references.len(),
    ensures
        ({
            let now = applied(studio, configuration, exists, update_metadata, ids);
            let kept_reference = configuration.references[i];
            let v = now.references[i];
            let here = kept_reference.path.len() > 0 && exists[i];
            &&& now.prompt.prompt == configuration.prompt
            &&& configuration.mode == 0 ==> now.form.mode == 0
            &&& configuration.mode != 0 ==> now.form.mode == 1
            &&& now.references.len() == configuration.references.len()
            &&& v.text("local_path"@) == kept_reference.path
            &&& v.text("kind"@) == kept_reference.kind
            &&& here ==> v.text("status"@) == "uploading"@
            &&& !here ==> v.text("status"@) == "missing"@
            &&& now.quote.id.len() == 0 && !now.quote.can_generate && now.quote.credits is None
            &&& now.submission is None && now.page == 1
        }),
{
    references_keep_their_places(
        configuration.references,
        exists,
        ids,
        configuration.references.len(),
        i,
    );
    queued_members(configuration.references[i], exists[i], ids[i]);
    crate::cloud::asking::shown_mode(
        FormView { mode: crate::cloud::studio::configured_mode(configuration.mode), ..studio.form },
        configured(
            studio.form,
            studio.catalog,
            crate::cloud::studio::configured_mode(configuration.mode),
            configuration.model_id,
            configuration.parameters,
        ),
        studio.references,
        true,
    );
    reveal_strlit("");
}

proof fn queued_members(reference: ReferenceView, exists: bool, fresh: Seq<char>)
    ensures
        ({
            let v = queued_reference(reference, exists, fresh);
            &&& v.text("local_path"@) == reference.path
            &&& v.text("kind"@) == reference.kind
            &&& v.text("status"@) == (if reference.path.len() > 0 && exists {
                "uploading"@
            } else {
                "missing"@
            })
        }),
{
    members_differ();
    let e0 = queued_reference(reference, exists, fresh)->Object_0;
    let e1 = e0.drop_first();
    let e2 = e1.drop_first();
    let e3 = e2.drop_first();
    let e4 = e3.drop_first();
    let e5 = e4.drop_first();
    assert(e0[0].0 == "client_id"@);
    assert(e1[0] == ("local_path"@, JsonModel::Text(reference.path)));
    assert(e2[0] == ("kind"@, JsonModel::Text(reference.kind)));
    assert(e3[0].0 == "display_name"@);
    assert(e4[0].0 == "source_id"@);
    assert(e5[0].0 == "status"@);
    reveal_with_fuel(lookup, 8);
}

/// A form is saved as a template under the name that is typed, without the
/// blanks around it: a new one at the end, an old one in its place, with its
/// age. The others stay as they are. A blank name is refused.
pub proof fn forms_are_saved_as_templates(
    items: Seq<TemplateView>,
    id: Seq<char>,
    name: Seq<char>,
    prompt: Seq<char>,
    mode: i32,
    model_id: Seq<char>,
    parameters: JsonModel,
    references: Seq<ReferenceView>,
    now: u64,
    fresh: Seq<char>,
)
    requires
        model_id.len() > 0,
    ensures
        ({
            let made = saved_form(
                items,
                None,
                name,
                prompt,
                mode,
                model_id,
                parameters,
                references,
                now,
                fresh,
            );
            let changed = saved_form(
                items,
                Some(id),
                name,
                prompt,
                mode,
                model_id,
                parameters,
                references,
                now,
                fresh,
            );
            &&& trimmed(name).len() == 0 ==> made is Err && changed is Err
            &&& made matches Ok((list, own)) ==> own == fresh && list.drop_last() == items
                && list.last() == (TemplateView {
                id: fresh,
                name: trimmed(name),
                prompt,
                mode,
                model_id,
                parameters,
                references,
                created_at: now,
                updated_at: now,
            })
            &&& id.len() > 0 ==> (changed matches Ok((list, own)) ==> own == id && list.len()
                == items.len() && (place_of(items, id) matches Some(k) && list[k] == (
            TemplateView {
                id: items[k].id,
                name: trimmed(name),
                prompt,
                mode,
                model_id,
                parameters,
                references,
                created_at: items[k].created_at,
                updated_at: now,
            }) && forall|j: int| 0 <= j < items.len() && j != k ==> list[j] == items[j]))
        }),
{
    if let Ok((list, own)) = saved_form(
        items,
        None,
        name,
        prompt,
        mode,
        model_id,
        parameters,
        references,
        now,
        fresh,
    ) {
        assert(list.drop_last() =~= items);
    }
    crate::generation_templates::place_is_there(items, id);
}

/// A copy has the name that is shown and the ending of its file. Where that is
/// taken its identity is put behind it, and then a number.
pub proof fn copies_are_named_after_what_is_shown(
    source: Seq<char>,
    name: Seq<char>,
    id: Seq<char>,
    ending: Seq<char>,
    n: nat,
)
    requires
        extension_of(source) == Some(ending),
        ending.len() > 0,
        n > 1,
    ensures
        name_at(source, name, id, 0) == stem_for(name, 160) + "."@ + ending,
        name_at(source, name, id, 1) == stem_for(name, 160) + ("-"@ + stem_for(id, 48)) + "."@
            + ending,
        name_at(source, name, id, n) == stem_for(name, 160) + ("-"@ + stem_for(id, 48) + "-"@
            + decimal((n - 1) as nat)) + "."@ + ending,
{
    reveal_strlit("");
    assert(stem_for(name, 160) + ""@ =~= stem_for(name, 160));
}

/// The share of a copy that is done lies between nothing and a hundred, is a
/// hundred when all is done, and never falls.
pub proof fn shares_grow_to_a_hundred(bytes: u64, more: u64, total: u64)
    requires
        bytes <= more,
        total > 0,
    ensures
        0 <= percent_of(bytes, total) <= percent_of(more, total) <= 100,
        bytes >= total ==> percent_of(bytes, total) == 100,
        percent_of(0, total) == 0,
        percent_of(bytes, 0) == 0,
{
    let t = total as int;
    let a: int = if bytes < total {
        bytes as int
    } else {
        t
    };
    let b: int = if more < total {
        more as int
    } else {
        t
    };
    assert(a * 100 / t <= b * 100 / t) by (nonlinear_arith)
        requires
            0 <= a <= b,
            t > 0,
    ;
    assert(b * 100 / t <= 100) by (nonlinear_arith)
        requires
            0 <= b <= t,
            t > 0,
    ;
    assert(a * 100 / t >= 0) by (nonlinear_arith)
        requires
            0 <= a,
            t > 0,
    ;
    assert(t * 100 / t == 100) by (nonlinear_arith)
        requires
            t > 0,
    ;
    assert(0int * 100 / t == 0) by (nonlinear_arith)
        requires
            t > 0,
    ;
}

/// A copy goes through the names in order until one is free, and stops where
/// it is called off, has failed, or has run out of names.
pub proof fn copies_try_one_name_after_another(
    source: Seq<char>,
    name: Seq<char>,
    id: Seq<char>,
    tried: u64,
    error: Seq<char>,
)
    ensures
        tried < 10_000 ==> copy_next(source, name, id, tried, false, CopyEventView::NameTaken) == (
            CopyActionView::Create(name_at(source, name, id, tried as nat)),
            (tried + 1) as u64,
        ),
        tried < 10_000 ==> copy_next(source, name, id, tried, true, CopyEventView::NameTaken).0
            is GivenUp,
        tried >= 10_000 ==> copy_next(source, name, id, tried, false, CopyEventView::NameTaken).0
            is Error,
        copy_next(source, name, id, tried, false, CopyEventView::Copied).0 is Done,
        copy_next(source, name, id, tried, false, CopyEventView::Cancelled).0 is GivenUp,
        copy_next(source, name, id, tried, false, CopyEventView::Failed(error)).0
            == CopyActionView::Error(error),
{
}

/// An export begins with nothing done. Its report adds what was copied to what
/// was done before, and the bar is full exactly when that is all or the bytes
/// say so.
pub proof fn exports_count_what_is_done(
    job: ExportView,
    panel: PanelView,
    value: JsonModel,
    bytes: u64,
    id: Seq<char>,
    items: Seq<ItemView>,
    folder: Seq<char>,
)
    ensures
        ({
            let (now, shown) = export_answered(job, panel, value, bytes);
            let (first, start) = export_begun(items, folder, bytes);
            &&& !now.running && !shown.running
            &&& job.completed.contains(id) ==> now.completed.contains(id)
            &&& value.list("completed"@).contains(JsonModel::Text(id)) ==> now.completed.contains(
                id,
            )
            &&& now.completed.len() == job.items.len() ==> shown.progress == 100
            &&& shown.done == now.completed.len() as i32
            &&& first.running && first.completed.len() == 0 && first.items == items
                && first.folder == folder
            &&& start.open && start.done == 0 && start.progress == 0 && start.total
                == items.len() as i32
        }),
{
    texts_are_added(job.completed, value.list("completed"@), id);
    assert(Set::<Seq<char>>::empty().len() == 0);
}

proof fn texts_are_added(start: Set<Seq<char>>, v: Seq<JsonModel>, id: Seq<char>)
    ensures
        start.contains(id) ==> with_texts(start, v).contains(id),
        v.contains(JsonModel::Text(id)) ==> with_texts(start, v).contains(id),
    decreases v.len(),
{
    if v.len() > 0 {
        texts_are_added(start, v.drop_last(), id);
        if v.contains(JsonModel::Text(id)) && v.last() != JsonModel::Text(id) {
            let k = choose|k: int| 0 <= k < v.len() && v[k] == JsonModel::Text(id);
            assert(v.drop_last()[k] == JsonModel::Text(id));
        }
    }
}

/// The canvases are listed by name, or the latest first, as is chosen, and
/// only those whose name holds what is searched for.
pub proof fn canvases_are_listed_in_order(
    search: Seq<char>,
    sort: i32,
    projects: Seq<CanvasProject>,
    i: int,
    j: int,
) -> (places: (int, int))
    requires
        projects.len() <= usize::MAX,
        0 <= i < j < project_rows(search, sort, projects).len(),
    ensures
        ({
            let rows = project_rows(search, sort, projects);
            let (a, b) = places;
            let first = lowercase(rows[i].name);
            let second = lowercase(rows[j].name);
            &&& 0 <= a < projects.len() && 0 <= b < projects.len() && a != b
            &&& rows[i].id == projects[a].path@ && rows[j].id == projects[b].path@
            &&& is_found(search, projects[a]) && is_found(search, projects[b])
            &&& sort == 1 ==> first == second || text_less(first, second)
            &&& sort != 1 ==> projects[a].updated >= projects[b].updated
        }),
{
    found_in_order(search, projects, projects.len());
    let places = found_places(search, projects, projects.len());
    let keys = Seq::new(places.len(), |k: int| project_key(sort, projects[places[k] as int]));
    orders_exist(keys);
    let order = order_of(keys);
    assert(row_less(keys, order[i] as int, order[j] as int));
    text_less_total(""@, ""@);
    if order[i] == order[j] {
        text_less_total(keys[order[i] as int].name, keys[order[i] as int].name);
    }
    assert(order[i] < keys.len() && order[j] < keys.len());
    if order[i] < order[j] {
        assert(places[order[i] as int] < places[order[j] as int]);
    } else {
        assert(places[order[j] as int] < places[order[i] as int]);
    }
    (places[order[i] as int] as int, places[order[j] as int] as int)
}

proof fn found_in_order(search: Seq<char>, projects: Seq<CanvasProject>, n: nat)
    requires
        n <= projects.len() <= usize::MAX,
    ensures
        found_places(search, projects, n).len() <= n,
        forall|k: int|
            0 <= k < found_places(search, projects, n).len() ==> #[trigger] found_places(
                search,
                projects,
                n,
            )[k] < n && is_found(search, projects[found_places(search, projects, n)[k] as int]),
        forall|a: int, b: int|
            0 <= a < b < found_places(search, projects, n).len() ==> #[trigger] found_places(
                search,
                projects,
                n,
            )[a] < #[trigger] found_places(search, projects, n)[b],
    decreases n,
{
    if n > 0 {
        found_in_order(search, projects, (n - 1) as nat);
    }
}

/// The endings of pictures are told apart.
proof fn picture_endings()
    ensures
        "png"@.len() == 3 && "png"@[0] == 'p',
        "jpg"@.len() == 3 && "jpg"@[0] == 'j',
        "bmp"@.len() == 3 && "bmp"@[0] == 'b',
        "jpeg"@.len() == 4 && "jpeg"@[0] == 'j',
        "webp"@.len() == 4 && "webp"@[0] == 'w',
{
    reveal_strlit("png");
    reveal_strlit("jpg");
    reveal_strlit("jpeg");
    reveal_strlit("webp");
    reveal_strlit("bmp");
}

/// A canvas is handed pictures only, and nothing that is missing is handed on;
/// what can be handed on is offered a new project first, then the open one.
pub proof fn only_pictures_go_to_a_canvas(
    transfers: TransfersView,
    imports: Seq<ImportView>,
    present: Set<Seq<char>>,
    destinations: Destinations,
    page: i32,
    i: int,
)
    requires
        0 <= i < imports.len(),
    ensures
        ({
            let (canvas, told) = handoff_begun(
                transfers,
                "canvas"@,
                imports,
                present,
                destinations,
                page,
            );
            let (clip, none) = handoff_begun(
                transfers,
                "clip"@,
                imports,
                present,
                destinations,
                page,
            );
            let ending = match extension_of(imports[i].path) {
                Some(e) => ascii_lowercase(e),
                None => Seq::<char>::empty(),
            };
            &&& !present.contains(imports[i].path) ==> canvas == transfers && clip == transfers
                && told[0] is Error && none[0] is Error
            &&& told.len() == 0 ==> ending == "png"@ || ending == "jpg"@ || ending == "jpeg"@
                || ending == "webp"@ || ending == "bmp"@
            &&& told.len() == 0 ==> canvas.open && canvas.handoff_kind == "canvas"@
                && canvas.handoff_count == imports.len() as i32 && canvas.source_page == page
                && canvas.targets[0].id == "new"@ && (canvas.handoff matches Some(h) && h.imports
                == imports && h.kind == "canvas"@ && !h.awaiting_new_project)
            &&& none.len() == 0 ==> clip.handoff_kind == "clip"@ && clip.targets[0].id == "new"@
        }),
{
    picture_endings();
    reveal_strlit("canvas");
    reveal_strlit("clip");
    assert("canvas"@.len() == 6 && "clip"@.len() == 4);
    first_is_new("canvas"@, destinations);
    first_is_new("clip"@, destinations);
}

proof fn first_is_new(kind: Seq<char>, d: Destinations)
    ensures
        targets_of(kind, d).len() > 0,
        targets_of(kind, d)[0].id == "new"@,
{
    let first = seq![crate::cloud::imports::new_target(kind)];
    let open = match (if kind == "canvas"@ {
        crate::text::opt(d.canvas)
    } else {
        crate::text::opt(d.clip)
    }) {
        Some(name) => first.push(crate::cloud::imports::current_target(kind, name)),
        None => first,
    };
    canvases_come_after(
        open,
        d.canvases@,
        crate::cloud::imports::offered_count(d.canvases@.len()),
    );
}

proof fn canvases_come_after(
    first: Seq<ItemRow>,
    list: Seq<crate::cloud::imports::RecentCanvas>,
    n: nat,
)
    requires
        first.len() > 0,
    ensures
        crate::cloud::imports::canvas_targets(first, list, n).len() > 0,
        crate::cloud::imports::canvas_targets(first, list, n)[0] == first[0],
    decreases n,
{
    if n > 0 {
        canvases_come_after(first, list, (n - 1) as nat);
    }
}

/// A file goes to the open project at once. Without one it waits, once, under
/// the name that it was given; when a project opens, all that wait go to it, in
/// order and with their names.
pub proof fn files_wait_for_a_project(
    transfers: TransfersView,
    path: Seq<char>,
    name: Seq<char>,
)
    requires
        trimmed(name).len() > 0,
        !(transfers.handoff is Some),
    ensures
        ({
            let (now, steps) = imported(transfers, true, path, Some(name));
            let (waiting, told) = imported(transfers, false, path, Some(name));
            let (free, sent) = project_opened(waiting);
            &&& now == transfers && steps == seq![
                StepView::ImportPaths(seq![ImportView { path, name: Some(name) }]),
            ]
            &&& waiting.pending.contains(path) && waiting.names[path] == name && waiting.count
                == waiting.pending.len() as i32
            &&& transfers.pending.contains(path) ==> waiting.pending == transfers.pending
            &&& !transfers.pending.contains(path) ==> waiting.pending == transfers.pending.push(
                path,
            )
            &&& free.pending.len() == 0 && free.count == 0
            &&& sent.last() == StepView::ImportPaths(with_names(waiting.pending, waiting.names))
        }),
{
    let (waiting, told) = imported(transfers, false, path, Some(name));
    if !transfers.pending.contains(path) {
        assert(waiting.pending.last() == path);
        assert(waiting.pending.contains(path));
    }
    assert(with_names(waiting.pending, waiting.names).len() > 0);
}

/// The parameters of a summary are told apart.
proof fn summary_words()
    ensures
        "size"@.len() == 4,
        "quality"@.len() == 7,
        "duration"@.len() == 8 && "duration"@[0] == 'd',
        "quantity"@.len() == 8 && "quantity"@[0] == 'q',
        "resolution"@.len() == 10,
        "aspect_ratio"@.len() == 12,
        "generate_audio"@.len() == 14,
{
    reveal_strlit("size");
    reveal_strlit("resolution");
    reveal_strlit("aspect_ratio");
    reveal_strlit("duration");
    reveal_strlit("quality");
    reveal_strlit("generate_audio");
    reveal_strlit("quantity");
}

/// A template names its model as the catalog does, and sums up what it was made
/// with, each value under the word for what it sets.
pub proof fn templates_sum_up_what_they_hold(text: Seq<char>, catalog: Seq<JsonModel>, id: Seq<char>)
    requires
        text != "high"@,
    ensures
        ({
            let one = |name: Seq<char>|
                summary_entries(
                    JsonModel::Object(seq![(name, JsonModel::Text(text))]),
                    7,
                );
            &&& one("resolution"@) == seq!["尺寸"@ + " "@ + text]
            &&& one("aspect_ratio"@) == seq!["比例"@ + " "@ + text]
            &&& one("duration"@) == seq!["时长"@ + " "@ + (text + " 秒"@)]
            &&& one("quality"@) == seq!["质量"@ + " "@ + text]
            &&& one("quantity"@) == seq!["数量"@ + " "@ + text]
            &&& first_where(catalog, text_is("id"@, id)) is None ==> model_label(catalog, id) == id
            &&& first_where(catalog, text_is("id"@, id)) matches Some(i) ==> catalog[i].text(
                "display_name"@,
            ).len() > 0 ==> model_label(catalog, id) == catalog[i].text("display_name"@)
        }),
{
    summary_words();
    reveal_with_fuel(crate::json::lookup, 3);
    reveal_with_fuel(summary_entries, 8);
    single_member("resolution"@, JsonModel::Text(text));
    single_member("aspect_ratio"@, JsonModel::Text(text));
    single_member("duration"@, JsonModel::Text(text));
    single_member("quality"@, JsonModel::Text(text));
    single_member("quantity"@, JsonModel::Text(text));
    assert(summary_entries(
        JsonModel::Object(seq![("resolution"@, JsonModel::Text(text))]),
        7,
    ) =~= seq!["尺寸"@ + " "@ + text]);
    assert(summary_entries(
        JsonModel::Object(seq![("aspect_ratio"@, JsonModel::Text(text))]),
        7,
    ) =~= seq!["比例"@ + " "@ + text]);
    assert(summary_entries(
        JsonModel::Object(seq![("duration"@, JsonModel::Text(text))]),
        7,
    ) =~= seq!["时长"@ + " "@ + (text + " 秒"@)]);
    assert(summary_entries(
        JsonModel::Object(seq![("quality"@, JsonModel::Text(text))]),
        7,
    ) =~= seq!["质量"@ + " "@ + text]);
    assert(summary_entries(
        JsonModel::Object(seq![("quantity"@, JsonModel::Text(text))]),
        7,
    ) =~= seq!["数量"@ + " "@ + text]);
}

proof fn single_member(name: Seq<char>, value: JsonModel)
    ensures
        ({
            let one = JsonModel::Object(seq![(name, value)]);
            &&& one.get(name) == Some(value)
            &&& forall|other: Seq<char>| other != name ==> #[trigger] one.get(other) is None
        }),
{
    reveal_with_fuel(crate::json::lookup, 2);
    assert(seq![(name, value)].drop_first().len() == 0);
}

} // verus!
