//! Saved configurations of the generation form: templates and past tasks.

use crate::cloud::catalog::{
    default_index, find_value, has_param, has_parameter, is_value, label_of, model_by_id,
    model_kind, offered, offered_values, parameter_default_index, parameter_label, parameter_value,
    selected_id, selected_model, value_at, Catalog, FormView, GenerationForm,
};
use crate::cloud::generation::form_model;
use crate::cloud::requests::request;
use crate::generation_templates::{
    copy_references, reference_views, ReferenceView, TemplateReference,
};
use crate::json::{models, opt_model, Json, JsonModel};
use crate::lists::{first_where, text_is};
use crate::text::{
    cat, cat3, decimal, has_prefix, joined, opt, same, starts_with, to_decimal, trim, trimmed,
    views,
};
use vstd::prelude::*;
use vstd::string::*;

verus! {

/// What a task was generated from.
pub struct TaskInputSnapshot {
    pub mode: i32,
    pub prompt: String,
    pub model_id: String,
    pub parameters: Json,
    pub references: Vec<TemplateReference>,
}

pub struct SnapshotView {
    pub mode: i32,
    pub prompt: Seq<char>,
    pub model_id: Seq<char>,
    pub parameters: JsonModel,
    pub references: Seq<ReferenceView>,
}

impl View for TaskInputSnapshot {
    type V = SnapshotView;

    open spec fn view(&self) -> SnapshotView {
        SnapshotView {
            mode: self.mode,
            prompt: self.prompt@,
            model_id: self.model_id@,
            parameters: self.parameters@,
            references: reference_views(self.references@),
        }
    }
}

impl TaskInputSnapshot {
    pub fn copy(&self) -> (r: TaskInputSnapshot)
        ensures
            r@ == self@,
    {
        TaskInputSnapshot {
            mode: self.mode,
            prompt: self.prompt.clone(),
            model_id: self.model_id.clone(),
            parameters: self.parameters.copy(),
            references: copy_references(&self.references),
        }
    }
}

/// The parameters that a summary lists, in its order, with their labels.
pub open spec fn summary_names() -> Seq<(Seq<char>, Seq<char>)> {
    seq![
        ("size"@, "尺寸"@),
        ("resolution"@, "尺寸"@),
        ("aspect_ratio"@, "比例"@),
        ("duration"@, "时长"@),
        ("quality"@, "质量"@),
        ("generate_audio"@, "音频"@),
        ("quantity"@, "数量"@),
    ]
}

/// A value in a summary.
pub open spec fn summary_value(name: Seq<char>, value: JsonModel) -> Seq<char> {
    if name == "generate_audio"@ {
        if value == JsonModel::Bool(true) {
            "开启"@
        } else {
            "关闭"@
        }
    } else {
        label_of(name, value)
    }
}

/// The entries of a summary for the first `n` of its parameters.
pub open spec fn summary_entries(parameters: JsonModel, n: nat) -> Seq<Seq<char>>
    decreases n,
{
    if n == 0 {
        Seq::empty()
    } else {
        let before = summary_entries(parameters, (n - 1) as nat);
        let (name, label) = summary_names()[n - 1];
        match parameters.get(name) {
            Some(value) => if value is Null {
                before
            } else {
                before.push(label + " "@ + summary_value(name, value))
            },
            None => before,
        }
    }
}

fn add_summary(out: &mut Vec<String>, parameters: &Json, name: &str, label: &str)
    ensures
        views(final(out)@) == match parameters@.get(name@) {
            Some(value) => if value is Null {
                views(old(out)@)
            } else {
                views(old(out)@).push(label@ + " "@ + summary_value(name@, value))
            },
            None => views(old(out)@),
        },
{
    if let Some(value) = parameters.get(name) {
        if !value.is_null() {
            let shown: String = if same(name, "generate_audio") {
                match value.as_bool() {
                    Some(true) => "开启".to_owned(),
                    _ => "关闭".to_owned(),
                }
            } else {
                parameter_label(name, value)
            };
            let entry: String = cat3(label, " ", shown.as_str());
            let ghost before = out@;
            out.push(entry);
            proof {
                assert(views(out@) =~= views(before).push(entry@));
            }
        }
    }
}

/// The parameters of a template in one line.
pub fn template_parameter_summary(parameters: &Json) -> (r: String)
    ensures
        r@ == joined(summary_entries(parameters@, 7), " · "@),
{
    let mut out: Vec<String> = Vec::new();
    proof {
        assert(views(out@) =~= Seq::empty());
        reveal_with_fuel(summary_entries, 8);
    }
    add_summary(&mut out, parameters, "size", "尺寸");
    assert(views(out@) == summary_entries(parameters@, 1));
    add_summary(&mut out, parameters, "resolution", "尺寸");
    assert(views(out@) == summary_entries(parameters@, 2));
    add_summary(&mut out, parameters, "aspect_ratio", "比例");
    assert(views(out@) == summary_entries(parameters@, 3));
    add_summary(&mut out, parameters, "duration", "时长");
    assert(views(out@) == summary_entries(parameters@, 4));
    add_summary(&mut out, parameters, "quality", "质量");
    assert(views(out@) == summary_entries(parameters@, 5));
    add_summary(&mut out, parameters, "generate_audio", "音频");
    assert(views(out@) == summary_entries(parameters@, 6));
    add_summary(&mut out, parameters, "quantity", "数量");
    crate::text::join(&out, " · ")
}

/// The parameters that the form shows; one without an offered value is `Null`.
pub open spec fn shown_parameters(form: FormView, model: JsonModel) -> JsonModel {
    let named = if form.mode == 0 {
        JsonModel::Object(
            seq![
                ("size"@, value_at(model, "size"@, form.resolution_index)),
                ("quality"@, value_at(model, "quality"@, form.quality_index)),
            ],
        )
    } else {
        JsonModel::Object(
            seq![
                ("resolution"@, value_at(model, "resolution"@, form.resolution_index)),
                ("duration"@, value_at(model, "duration"@, form.duration_index)),
                ("aspect_ratio"@, value_at(model, "aspect_ratio"@, form.ratio_index)),
            ],
        )
    };
    let audio = if has_parameter(model, "generate_audio"@) {
        named.with("generate_audio"@, JsonModel::Bool(form.generate_audio))
    } else {
        named
    };
    if has_parameter(model, "quantity"@) {
        audio.with("quantity"@, value_at(model, "quantity"@, form.quantity_index))
    } else {
        audio
    }
}

pub fn current_template_parameters(form: &GenerationForm, catalog: &Catalog) -> (r: Json)
    ensures
        r@ == shown_parameters(form@, form_model(form@, catalog@)),
{
    let id: String = selected_model(form.mode, form.model_index, catalog);
    let model: Json = match model_by_id(&catalog.models, model_kind(form.mode), id.as_str()) {
        Some(model) => model.copy(),
        None => Json::Null,
    };
    let mut fields: Vec<(String, Json)> = Vec::new();
    if form.mode == 0 {
        fields.push(("size".to_owned(), parameter_value(&model, "size", form.resolution_index)));
        fields.push(("quality".to_owned(), parameter_value(&model, "quality", form.quality_index)));
    } else {
        fields.push(
            (
                "resolution".to_owned(),
                parameter_value(&model, "resolution", form.resolution_index),
            ),
        );
        fields.push(
            ("duration".to_owned(), parameter_value(&model, "duration", form.duration_index)),
        );
        fields.push(
            ("aspect_ratio".to_owned(), parameter_value(&model, "aspect_ratio", form.ratio_index)),
        );
    }
    let mut out: Json = Json::from_members(fields);
    proof {
        let m = model@;
        assert(out@->Object_0 =~= if form.mode == 0 {
            seq![
                ("size"@, value_at(m, "size"@, form.resolution_index)),
                ("quality"@, value_at(m, "quality"@, form.quality_index)),
            ]
        } else {
            seq![
                ("resolution"@, value_at(m, "resolution"@, form.resolution_index)),
                ("duration"@, value_at(m, "duration"@, form.duration_index)),
                ("aspect_ratio"@, value_at(m, "aspect_ratio"@, form.ratio_index)),
            ]
        });
    }
    if has_param(&model, "generate_audio") {
        out = out.with("generate_audio", Json::Bool(form.generate_audio));
    }
    if has_param(&model, "quantity") {
        out = out.with("quantity", parameter_value(&model, "quantity", form.quantity_index));
    }
    out
}

/// A reference as a configuration keeps it.
pub open spec fn saved_reference(v: JsonModel) -> ReferenceView {
    ReferenceView {
        path: v.text("local_path"@),
        name: v.text("display_name"@),
        kind: v.text("kind"@),
        client_id: v.text("client_id"@),
        source_id: v.text("id"@),
    }
}

pub open spec fn saved_references(references: Seq<JsonModel>) -> Seq<ReferenceView> {
    Seq::new(references.len(), |i: int| saved_reference(references[i]))
}

pub fn template_references(references: &Vec<Json>) -> (r: Vec<TemplateReference>)
    ensures
        reference_views(r@) == saved_references(models(references@)),
{
    let ghost m = models(references@);
    let mut out: Vec<TemplateReference> = Vec::new();
    let mut i: usize = 0;
    while i < references.len()
        invariant
            i <= references.len(),
            m == models(references@),
            out@.len() == i,
            forall|j: int| 0 <= j < i ==> (#[trigger] out@[j])@ == saved_reference(m[j]),
        decreases references.len() - i,
    {
        let v: &Json = &references[i];
        proof {
            assert(m[i as int] == v@);
        }
        out.push(
            TemplateReference {
                path: v.text("local_path"),
                name: v.text("display_name"),
                kind: v.text("kind"),
                client_id: v.text("client_id"),
                source_id: v.text("id"),
            },
        );
        i = i + 1;
    }
    proof {
        assert(reference_views(out@) =~= saved_references(m));
    }
    out
}

/// What the form would generate from.
pub fn current_task_snapshot(
    form: &GenerationForm,
    prompt: &str,
    catalog: &Catalog,
    references: &Vec<Json>,
) -> (r: TaskInputSnapshot)
    ensures
        r@ == (SnapshotView {
            mode: form.mode,
            prompt: prompt@,
            model_id: selected_id(form.mode, form.model_index, catalog@),
            parameters: shown_parameters(form@, form_model(form@, catalog@)),
            references: saved_references(models(references@)),
        }),
{
    TaskInputSnapshot {
        mode: form.mode,
        prompt: prompt.to_owned(),
        model_id: selected_model(form.mode, form.model_index, catalog),
        parameters: current_template_parameters(form, catalog),
        references: template_references(references),
    }
}

/// The first of two members that is there.
pub open spec fn either(v: JsonModel, a: Seq<char>, b: Seq<char>) -> Option<JsonModel> {
    if v.get(a) is Some {
        v.get(a)
    } else {
        v.get(b)
    }
}

fn get_either<'a>(v: &'a Json, a: &str, b: &str) -> (r: Option<&'a Json>)
    ensures
        opt_model(r) == either(v@, a@, b@),
{
    match v.get(a) {
        Some(x) => Some(x),
        None => v.get(b),
    }
}

/// The text of an optional document.
pub open spec fn text_in(v: Option<JsonModel>) -> Option<Seq<char>> {
    match v {
        Some(j) => j.as_text(),
        None => None,
    }
}

fn get_text(v: Option<&Json>) -> (r: Option<String>)
    ensures
        opt(r) == text_in(opt_model(v)),
{
    match v {
        Some(j) => j.as_text(),
        None => None,
    }
}

/// The medium that a recorded kind or media type stands for.
pub open spec fn recorded_kind(kind: Option<Seq<char>>) -> Seq<char> {
    match kind {
        None => "unknown"@,
        Some(k) => if has_prefix(k, "image/"@) {
            "image"@
        } else if has_prefix(k, "video/"@) {
            "video"@
        } else if has_prefix(k, "audio/"@) {
            "audio"@
        } else {
            k
        },
    }
}

/// A text, or nothing where there is none.
pub open spec fn or_empty(s: Option<Seq<char>>) -> Seq<char> {
    match s {
        Some(t) => t,
        None => Seq::<char>::empty(),
    }
}

/// The identity of the asset that a recorded reference names.
pub open spec fn recorded_source(value: JsonModel) -> Seq<char> {
    match value {
        JsonModel::Text(id) => id,
        _ => or_empty(
            text_in(
                if value.get("id"@) is Some {
                    value.get("id"@)
                } else {
                    either(value, "asset_id"@, "reference_asset_id"@)
                },
            ),
        ),
    }
}

/// A recorded reference of a past task, the `index`th. One that only names an
/// asset keeps its place, without a file and of an unknown medium.
pub open spec fn recorded_reference(value: JsonModel, index: int) -> ReferenceView {
    let source = recorded_source(value);
    let client_id = "historical-reference-"@ + if source.len() == 0 {
        decimal(index as nat)
    } else {
        source
    };
    match value {
        JsonModel::Text(_) => ReferenceView {
            path: Seq::empty(),
            name: "缺失参考素材 "@ + decimal((index + 1) as nat) + "（类型未知）"@,
            kind: "unknown"@,
            client_id,
            source_id: source,
        },
        _ => {
            let name = text_in(either(value, "name"@, "filename"@));
            ReferenceView {
                path: or_empty(text_in(either(value, "local_path"@, "path"@))),
                name: if name is Some && name->0.len() > 0 {
                    name->0
                } else {
                    "缺失参考素材 "@ + decimal((index + 1) as nat)
                },
                kind: recorded_kind(text_in(either(value, "kind"@, "media_type"@))),
                client_id,
                source_id: source,
            }
        },
    }
}

/// Where the references of a past task are recorded: in its request, otherwise
/// in the task itself.
pub open spec fn recorded_list(task: JsonModel, request: JsonModel) -> Seq<JsonModel> {
    let found = if request.get("references"@) is Some {
        request.get("references"@)
    } else if either(request, "reference_assets"@, "reference_asset_ids"@) is Some {
        either(request, "reference_assets"@, "reference_asset_ids"@)
    } else if task.get("references"@) is Some {
        task.get("references"@)
    } else {
        either(task, "reference_assets"@, "reference_asset_ids"@)
    };
    match found {
        Some(JsonModel::Array(v)) => v,
        _ => Seq::empty(),
    }
}

pub open spec fn recorded_references(task: JsonModel, request: JsonModel) -> Seq<ReferenceView> {
    let raw = recorded_list(task, request);
    Seq::new(raw.len(), |i: int| recorded_reference(raw[i], i))
}

fn find_recorded(task: &Json, request: &Json) -> (r: Vec<Json>)
    ensures
        models(r@) == recorded_list(task@, request@),
{
    let found: Option<&Json> = match request.get("references") {
        Some(v) => Some(v),
        None => match get_either(request, "reference_assets", "reference_asset_ids") {
            Some(v) => Some(v),
            None => match task.get("references") {
                Some(v) => Some(v),
                None => get_either(task, "reference_assets", "reference_asset_ids"),
            },
        },
    };
    let none: Vec<Json> = Vec::new();
    proof {
        assert(models(none@) =~= Seq::empty());
    }
    match found {
        Some(v) => match v {
            Json::Array(list) => {
                proof {
                    assert(v@->Array_0 =~= models(list@));
                }
                crate::json::copy_all(list)
            },
            _ => none,
        },
        None => none,
    }
}

fn find_source(value: &Json) -> (r: String)
    ensures
        r@ == recorded_source(value@),
{
    if let Json::Text(id) = value {
        return id.clone();
    }
    let found: Option<&Json> = match value.get("id") {
        Some(v) => Some(v),
        None => get_either(value, "asset_id", "reference_asset_id"),
    };
    match get_text(found) {
        Some(s) => s,
        None => String::new(),
    }
}

fn find_kind(value: &Json) -> (r: String)
    ensures
        r@ == recorded_kind(text_in(either(value@, "kind"@, "media_type"@))),
{
    match get_text(get_either(value, "kind", "media_type")) {
        None => "unknown".to_owned(),
        Some(k) => if starts_with(k.as_str(), "image/") {
            "image".to_owned()
        } else if starts_with(k.as_str(), "video/") {
            "video".to_owned()
        } else if starts_with(k.as_str(), "audio/") {
            "audio".to_owned()
        } else {
            k
        },
    }
}

fn read_recorded(value: &Json, index: usize) -> (r: TemplateReference)
    requires
        index < usize::MAX,
    ensures
        r@ == recorded_reference(value@, index as int),
{
    let source_id: String = find_source(value);
    let place: String = to_decimal(index as u64);
    let number: String = to_decimal((index + 1) as u64);
    let client_id: String = if source_id.as_str().is_empty() {
        cat("historical-reference-", place.as_str())
    } else {
        cat("historical-reference-", source_id.as_str())
    };
    if let Json::Text(_) = value {
        let path: String = String::new();
        return TemplateReference {
            path,
            name: cat3("缺失参考素材 ", number.as_str(), "（类型未知）"),
            kind: "unknown".to_owned(),
            client_id,
            source_id,
        };
    }
    let path: String = match get_text(get_either(value, "local_path", "path")) {
        Some(p) => p,
        None => String::new(),
    };
    let named: Option<String> = get_text(get_either(value, "name", "filename"));
    let name: String = match named {
        Some(n) => if n.as_str().is_empty() {
            cat("缺失参考素材 ", number.as_str())
        } else {
            n
        },
        None => cat("缺失参考素材 ", number.as_str()),
    };
    TemplateReference { path, name, kind: find_kind(value), client_id, source_id }
}

/// The references of a past task, each in its place.
pub fn historical_references(task: &Json, request: &Json) -> (r: Vec<TemplateReference>)
    ensures
        reference_views(r@) == recorded_references(task@, request@),
{
    let raw: Vec<Json> = find_recorded(task, request);
    let ghost m = models(raw@);
    let mut out: Vec<TemplateReference> = Vec::new();
    let mut i: usize = 0;
    while i < raw.len()
        invariant
            i <= raw.len(),
            m == models(raw@),
            m == recorded_list(task@, request@),
            out@.len() == i,
            forall|j: int| 0 <= j < i ==> (#[trigger] out@[j])@ == recorded_reference(m[j], j),
        decreases raw.len() - i,
    {
        proof {
            assert(m[i as int] == raw@[i as int]@);
        }
        out.push(read_recorded(&raw[i], i));
        i = i + 1;
    }
    proof {
        assert(reference_views(out@) =~= recorded_references(task@, request@));
    }
    out
}

/// The parameters that a snapshot takes over from a request, in their order.
pub open spec fn snapshot_names() -> Seq<Seq<char>> {
    seq![
        "size"@,
        "quality"@,
        "resolution"@,
        "duration"@,
        "aspect_ratio"@,
        "generate_audio"@,
        "quantity"@,
    ]
}

/// The first `n` of these parameters that a request has.
pub open spec fn taken_parameters(request: JsonModel, n: nat) -> JsonModel
    decreases n,
{
    if n == 0 {
        JsonModel::Object(Seq::empty())
    } else {
        let before = taken_parameters(request, (n - 1) as nat);
        let name = snapshot_names()[n - 1];
        match request.get(name) {
            Some(value) => before.with(name, value),
            None => before,
        }
    }
}

fn take_parameter(out: Json, request: &Json, name: &str) -> (r: Json)
    requires
        out@ is Object,
    ensures
        r@ == match request@.get(name@) {
            Some(value) => out@.with(name@, value),
            None => out@,
        },
        r@ is Object,
{
    match request.get(name) {
        Some(value) => out.with(name, value.copy()),
        None => out,
    }
}

fn take_parameters(request: &Json) -> (r: Json)
    ensures
        r@ == taken_parameters(request@, 7),
{
    proof {
        reveal_with_fuel(taken_parameters, 8);
    }
    let mut out: Json = Json::empty_object();
    out = take_parameter(out, request, "size");
    assert(out@ == taken_parameters(request@, 1));
    out = take_parameter(out, request, "quality");
    assert(out@ == taken_parameters(request@, 2));
    out = take_parameter(out, request, "resolution");
    assert(out@ == taken_parameters(request@, 3));
    out = take_parameter(out, request, "duration");
    assert(out@ == taken_parameters(request@, 4));
    out = take_parameter(out, request, "aspect_ratio");
    assert(out@ == taken_parameters(request@, 5));
    out = take_parameter(out, request, "generate_audio");
    assert(out@ == taken_parameters(request@, 6));
    take_parameter(out, request, "quantity")
}

/// The request of a task, an empty object where it has none.
pub open spec fn request_of(task: JsonModel) -> JsonModel {
    match task.at("request"@) {
        JsonModel::Object(entries) => JsonModel::Object(entries),
        _ => JsonModel::Object(Seq::empty()),
    }
}

/// What a task of the service was generated from, as far as it says. A task
/// without a prompt has nothing to be taken up again.
pub open spec fn snapshot_of(task: JsonModel) -> Result<SnapshotView, Seq<char>> {
    let request = request_of(task);
    let named = text_in(request.get("model"@));
    let prompt = text_in(
        if request.get("prompt"@) is Some {
            request.get("prompt"@)
        } else {
            task.get("prompt"@)
        },
    );
    if prompt is None || trimmed(prompt->0).len() == 0 {
        Err("该历史任务没有可恢复的提示词"@)
    } else {
        Ok(
            SnapshotView {
                mode: if task.text("kind"@) == "video"@ {
                    1
                } else {
                    0
                },
                prompt: prompt->0,
                model_id: if named is Some && named->0.len() > 0 {
                    named->0
                } else {
                    task.text("model"@)
                },
                parameters: taken_parameters(request, 7),
                references: recorded_references(task, request),
            },
        )
    }
}

/// The view of a snapshot or an error message.
pub open spec fn snapshot_outcome(r: Result<TaskInputSnapshot, String>) -> Result<
    SnapshotView,
    Seq<char>,
> {
    match r {
        Ok(s) => Ok(s@),
        Err(e) => Err(e@),
    }
}

/// Takes up a task of the service.
pub fn server_task_snapshot(task: &Json) -> (r: Result<TaskInputSnapshot, String>)
    ensures
        snapshot_outcome(r) == snapshot_of(task@),
{
    let found: Json = task.at("request");
    let request: Json = if found.is_object() {
        found
    } else {
        Json::empty_object()
    };
    assert(request@ == request_of(task@));
    let named: Option<String> = get_text(request.get("model"));
    let model_id: String = match named {
        Some(id) => if id.as_str().is_empty() {
            task.text("model")
        } else {
            id
        },
        None => task.text("model"),
    };
    let written: Option<String> = match request.get("prompt") {
        Some(p) => p.as_text(),
        None => get_text(task.get("prompt")),
    };
    let prompt: String = match written {
        Some(p) => {
            let short: String = trim(p.as_str());
            if short.as_str().is_empty() {
                return Err("该历史任务没有可恢复的提示词".to_owned());
            }
            p
        },
        None => return Err("该历史任务没有可恢复的提示词".to_owned()),
    };
    let mode: i32 = if task.text_is("kind", "video") {
        1
    } else {
        0
    };
    let parameters: Json = take_parameters(&request);
    let references: Vec<TemplateReference> = historical_references(task, &request);
    Ok(TaskInputSnapshot { mode, prompt, model_id, parameters, references })
}

/// The index of a saved value, or the error that it is no longer offered.
pub open spec fn saved_index(
    model: JsonModel,
    name: Seq<char>,
    expected: JsonModel,
    source: Seq<char>,
) -> Result<i32, Seq<char>> {
    if expected is Null {
        Ok(default_index(model, name))
    } else {
        match first_where(offered(model, name), is_value(expected)) {
            Some(i) => Ok(i as i32),
            None => Err(
                source + "参数 "@ + name + "="@ + label_of(name, expected)
                    + " 不再受当前模型支持，请调整后重试"@,
            ),
        }
    }
}

pub fn configuration_parameter_index(
    model: &Json,
    name: &str,
    expected: &Json,
    source: &str,
) -> (r: Result<i32, String>)
    ensures
        match saved_index(model@, name@, expected@, source@) {
            Ok(i) => r == Ok::<i32, String>(i),
            Err(message) => r matches Err(e) && e@ == message,
        },
{
    if expected.is_null() {
        return Ok(parameter_default_index(model, name));
    }
    let values: Vec<Json> = offered_values(model, name);
    match find_value(&values, expected) {
        Some(i) => Ok(i as i32),
        None => {
            let label: String = parameter_label(name, expected);
            let mut message: String = cat3(source, "参数 ", name);
            message.append("=");
            message.append(label.as_str());
            message.append(" 不再受当前模型支持，请调整后重试");
            Err(message)
        },
    }
}

} // verus!
