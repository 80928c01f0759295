//! The generation studio: the form, its references and quote, and the
//! configurations that are put into it.

use crate::cloud::catalog::{
    configured, has_param, has_parameter, kind_of, label_of, model_by_id, model_kind, model_named,
    options_updated, parameter_label, set_recovery_warning, update_model_options_for_configuration,
    warned, Catalog, CatalogView, FormView, GenerationForm,
};
use crate::cloud::configuration::{
    configuration_parameter_index, saved_index, SnapshotView, TaskInputSnapshot,
};
use crate::cloud::generation::{opt_request, quote_refreshed, refresh_quote, Quote, QuoteView};
use crate::cloud::mentions::{PromptForm, PromptView};
use crate::cloud::references::{configuration_fault, validate_configuration_references};
use crate::cloud::requests::{job_views, plain_request, request, Request, RequestView};
use crate::generation_templates::{
    reference_views, GenerationTemplate, ReferenceView, TemplateReference, TemplateView,
};
use crate::ids::{fresh_id, is_uuid};
use crate::json::{models, printed, Json, JsonModel};
use crate::text::{byte_count, byte_len, cat, cat3, joined, views};
use vstd::prelude::*;
use vstd::string::*;

verus! {

/// The fields of the template editor.
pub struct TemplateForm {
    pub id: String,
    pub name: String,
    pub prompt: String,
    pub mode: i32,
    pub model_id: String,
    pub parameters_json: String,
    pub reference_paths: String,
}

pub struct TemplateFormView {
    pub id: Seq<char>,
    pub name: Seq<char>,
    pub prompt: Seq<char>,
    pub mode: i32,
    pub model_id: Seq<char>,
    pub parameters_json: Seq<char>,
    pub reference_paths: Seq<char>,
}

impl View for TemplateForm {
    type V = TemplateFormView;

    open spec fn view(&self) -> TemplateFormView {
        TemplateFormView {
            id: self.id@,
            name: self.name@,
            prompt: self.prompt@,
            mode: self.mode,
            model_id: self.model_id@,
            parameters_json: self.parameters_json@,
            reference_paths: self.reference_paths@,
        }
    }
}

/// A generation that has been sent: its request, its idempotency key and what
/// it was made from.
pub struct PendingSubmission {
    pub body: Json,
    pub key: String,
    pub snapshot: TaskInputSnapshot,
}

pub struct SubmissionView {
    pub body: JsonModel,
    pub key: Seq<char>,
    pub snapshot: SnapshotView,
}

impl View for PendingSubmission {
    type V = SubmissionView;

    open spec fn view(&self) -> SubmissionView {
        SubmissionView { body: self.body@, key: self.key@, snapshot: self.snapshot@ }
    }
}

/// The view of an optional submission.
pub open spec fn opt_submission(s: Option<PendingSubmission>) -> Option<SubmissionView> {
    match s {
        Some(p) => Some(p@),
        None => None,
    }
}

pub struct Studio {
    pub form: GenerationForm,
    pub prompt: PromptForm,
    pub catalog: Catalog,
    pub quote: Quote,
    pub references: Vec<Json>,
    pub template: TemplateForm,
    pub submission: Option<PendingSubmission>,
    pub page: i32,
    pub signed_in: bool,
}

pub struct StudioView {
    pub form: FormView,
    pub prompt: PromptView,
    pub catalog: CatalogView,
    pub quote: QuoteView,
    pub references: Seq<JsonModel>,
    pub template: TemplateFormView,
    pub submission: Option<SubmissionView>,
    pub page: i32,
    pub signed_in: bool,
}

impl View for Studio {
    type V = StudioView;

    open spec fn view(&self) -> StudioView {
        StudioView {
            form: self.form@,
            prompt: self.prompt@,
            catalog: self.catalog@,
            quote: self.quote@,
            references: models(self.references@),
            template: self.template@,
            submission: opt_submission(self.submission),
            page: self.page,
            signed_in: self.signed_in,
        }
    }
}

/// Begins a mention; the quote no longer holds.
pub fn open_reference_mention(studio: &mut Studio)
    ensures
        final(studio)@ == (StudioView {
            prompt: crate::cloud::mentions::mention_opened(old(studio)@.prompt),
            quote: QuoteView {
                id: ""@,
                credits: None,
                text: ""@,
                can_generate: false,
                ..old(studio)@.quote
            },
            ..old(studio)@
        }),
{
    crate::cloud::mentions::open_reference_mention_ui(&mut studio.prompt);
    studio.quote.id = "".to_owned();
    studio.quote.credits = None;
    studio.quote.text = "".to_owned();
    studio.quote.can_generate = false;
}

/// `list` with one more entry where a condition holds.
pub open spec fn push_if(
    list: Seq<Seq<char>>,
    condition: bool,
    entry: Seq<char>,
) -> Seq<Seq<char>> {
    if condition {
        list.push(entry)
    } else {
        list
    }
}

fn add_if(list: &mut Vec<String>, condition: bool, entry: String)
    ensures
        views(final(list)@) == push_if(views(old(list)@), condition, entry@),
{
    if condition {
        let ghost before = list@;
        list.push(entry);
        proof {
            assert(views(list@) =~= views(before).push(entry@));
        }
    }
}

/// Whether the file of a saved reference is there.
pub open spec fn is_available(reference: ReferenceView, exists: bool) -> bool {
    reference.path.len() > 0 && exists
}

/// The warnings for those of the first `n` references whose file is gone.
pub open spec fn missing_warnings(
    references: Seq<ReferenceView>,
    exists: Seq<bool>,
    source: Seq<char>,
    n: nat,
) -> Seq<Seq<char>>
    decreases n,
{
    if n == 0 {
        Seq::empty()
    } else {
        let r = references[n - 1];
        push_if(
            missing_warnings(references, exists, source, (n - 1) as nat),
            !is_available(r, exists[n - 1]),
            source + "缺少参考素材“"@ + (if r.name.len() == 0 {
                "未命名素材"@
            } else {
                r.name
            }) + "”，请替换后再生成"@,
        )
    }
}

/// The warning that a parameter is not in the configuration.
pub open spec fn absent_warning(source: Seq<char>, name: Seq<char>) -> Seq<char> {
    source + "缺少参数 "@ + name + "，已暂用当前模型默认值"@
}

/// The warning that a saved value is no longer offered.
pub open spec fn stale_warning(source: Seq<char>, name: Seq<char>, value: JsonModel) -> Seq<char> {
    source + "参数 "@ + name + "="@ + label_of(name, value) + " 已不受当前模型支持，已改用可用值"@
}

/// Whether the configuration has a value for a parameter that the model no
/// longer offers.
pub open spec fn is_stale(
    model: JsonModel,
    parameters: JsonModel,
    name: Seq<char>,
    source: Seq<char>,
) -> bool {
    match parameters.get(name) {
        Some(value) => !(value is Null) && saved_index(model, name, value, source) is Err,
        None => false,
    }
}

/// The warnings for a model that the catalog has.
pub open spec fn model_warnings(
    start: Seq<Seq<char>>,
    model: JsonModel,
    parameters: JsonModel,
    references: Seq<ReferenceView>,
    source: Seq<char>,
) -> Seq<Seq<char>> {
    let fault = configuration_fault(model, references, source);
    let w0 = push_if(start, fault is Some, fault->0);
    let w1 = push_if(
        w0,
        is_stale(model, parameters, "size"@, source),
        stale_warning(source, "size"@, parameters.at("size"@)),
    );
    let w2 = push_if(
        w1,
        is_stale(model, parameters, "quality"@, source),
        stale_warning(source, "quality"@, parameters.at("quality"@)),
    );
    let w3 = push_if(
        w2,
        is_stale(model, parameters, "resolution"@, source),
        stale_warning(source, "resolution"@, parameters.at("resolution"@)),
    );
    let w4 = push_if(
        w3,
        is_stale(model, parameters, "duration"@, source),
        stale_warning(source, "duration"@, parameters.at("duration"@)),
    );
    let w5 = push_if(
        w4,
        is_stale(model, parameters, "aspect_ratio"@, source),
        stale_warning(source, "aspect_ratio"@, parameters.at("aspect_ratio"@)),
    );
    let w6 = push_if(
        w5,
        is_stale(model, parameters, "quantity"@, source),
        stale_warning(source, "quantity"@, parameters.at("quantity"@)),
    );
    match parameters.get("generate_audio"@) {
        None => w6,
        Some(value) => if !has_parameter(model, "generate_audio"@) {
            w6.push("当前模型不再支持"@ + source + "中的生成音频参数，已按模型默认处理"@)
        } else if value.as_bool() is None {
            w6.push(source + "的音频参数无效，已按模型默认处理"@)
        } else {
            w6
        },
    }
}

/// The warnings for parameters that the form needs and the configuration does
/// not have.
pub open spec fn absent_warnings(
    start: Seq<Seq<char>>,
    mode: i32,
    model: Option<JsonModel>,
    parameters: JsonModel,
    source: Seq<char>,
) -> Seq<Seq<char>> {
    if mode == 0 {
        let w1 = push_if(
            start,
            parameters.get("size"@) is None,
            absent_warning(source, "size"@),
        );
        push_if(w1, parameters.get("quality"@) is None, absent_warning(source, "quality"@))
    } else {
        let w1 = push_if(
            start,
            parameters.get("resolution"@) is None,
            absent_warning(source, "resolution"@),
        );
        let w2 = push_if(
            w1,
            parameters.get("duration"@) is None,
            absent_warning(source, "duration"@),
        );
        let w3 = push_if(
            w2,
            parameters.get("aspect_ratio"@) is None,
            absent_warning(source, "aspect_ratio"@),
        );
        push_if(
            w3,
            (model is None || has_parameter(model->0, "generate_audio"@)) && parameters.get(
                "generate_audio"@,
            ) is None,
            absent_warning(source, "generate_audio"@),
        )
    }
}

/// The mode of a configuration: 0 for images, 1 for anything else.
pub open spec fn configured_mode(mode: i32) -> i32 {
    if mode == 0 {
        0
    } else {
        1
    }
}

/// Everything that the user is warned of when a configuration is applied.
pub open spec fn configuration_warnings(
    catalog: Seq<JsonModel>,
    configuration: TemplateView,
    exists: Seq<bool>,
    source: Seq<char>,
) -> Seq<Seq<char>> {
    let mode = configured_mode(configuration.mode);
    let id = configuration.model_id;
    let model = model_named(catalog, kind_of(mode), id);
    let none = Seq::<Seq<char>>::empty();
    let w0 = if model is None {
        seq![
            if id.len() == 0 {
                source + "缺少模型，请选择一个可用模型"@
            } else {
                source + "使用的模型 "@ + id + " 当前不可用，请选择其他模型"@
            },
        ]
    } else {
        none
    };
    let w1 = w0 + missing_warnings(
        configuration.references,
        exists,
        source,
        configuration.references.len(),
    );
    let w2 = absent_warnings(w1, mode, model, configuration.parameters, source);
    match model {
        Some(m) => model_warnings(
            w2,
            m,
            configuration.parameters,
            configuration.references,
            source,
        ),
        None => w2,
    }
}

fn is_stale_value(model: &Json, parameters: &Json, name: &str, source: &str) -> (r: bool)
    ensures
        r == is_stale(model@, parameters@, name@, source@),
{
    match parameters.get(name) {
        Some(value) => !value.is_null() && configuration_parameter_index(
            model,
            name,
            value,
            source,
        ).is_err(),
        None => false,
    }
}

fn write_stale(source: &str, name: &str, parameters: &Json) -> (r: String)
    ensures
        r@ == stale_warning(source@, name@, parameters@.at(name@)),
{
    let value: Json = parameters.at(name);
    let label: String = parameter_label(name, &value);
    let mut out: String = cat3(source, "参数 ", name);
    out.append("=");
    out.append(label.as_str());
    out.append(" 已不受当前模型支持，已改用可用值");
    out
}

fn write_absent(source: &str, name: &str) -> (r: String)
    ensures
        r@ == absent_warning(source@, name@),
{
    let mut out: String = cat3(source, "缺少参数 ", name);
    out.append("，已暂用当前模型默认值");
    out
}

fn add_stale(list: &mut Vec<String>, model: &Json, parameters: &Json, name: &str, source: &str)
    ensures
        views(final(list)@) == push_if(
            views(old(list)@),
            is_stale(model@, parameters@, name@, source@),
            stale_warning(source@, name@, parameters@.at(name@)),
        ),
{
    let stale: bool = is_stale_value(model, parameters, name, source);
    add_if(list, stale, write_stale(source, name, parameters));
}

fn add_model_warnings(
    list: &mut Vec<String>,
    model: &Json,
    parameters: &Json,
    references: &Vec<TemplateReference>,
    source: &str,
)
    ensures
        views(final(list)@) == model_warnings(
            views(old(list)@),
            model@,
            parameters@,
            reference_views(references@),
            source@,
        ),
{
    if let Err(e) = validate_configuration_references(model, references, source) {
        add_if(list, true, e);
    }
    add_stale(list, model, parameters, "size", source);
    add_stale(list, model, parameters, "quality", source);
    add_stale(list, model, parameters, "resolution", source);
    add_stale(list, model, parameters, "duration", source);
    add_stale(list, model, parameters, "aspect_ratio", source);
    add_stale(list, model, parameters, "quantity", source);
    if let Some(value) = parameters.get("generate_audio") {
        if !has_param(model, "generate_audio") {
            add_if(
                list,
                true,
                cat3("当前模型不再支持", source, "中的生成音频参数，已按模型默认处理"),
            );
        } else if value.as_bool().is_none() {
            add_if(list, true, cat(source, "的音频参数无效，已按模型默认处理"));
        }
    }
}

fn add_absent(list: &mut Vec<String>, parameters: &Json, name: &str, source: &str)
    ensures
        views(final(list)@) == push_if(
            views(old(list)@),
            parameters@.get(name@) is None,
            absent_warning(source@, name@),
        ),
{
    let absent: bool = parameters.get(name).is_none();
    add_if(list, absent, write_absent(source, name));
}

fn add_absent_warnings(
    list: &mut Vec<String>,
    mode: i32,
    model: Option<&Json>,
    parameters: &Json,
    source: &str,
)
    ensures
        views(final(list)@) == absent_warnings(
            views(old(list)@),
            mode,
            crate::json::opt_model(model),
            parameters@,
            source@,
        ),
{
    if mode == 0 {
        add_absent(list, parameters, "size", source);
        add_absent(list, parameters, "quality", source);
    } else {
        add_absent(list, parameters, "resolution", source);
        add_absent(list, parameters, "duration", source);
        add_absent(list, parameters, "aspect_ratio", source);
        let expected: bool = match model {
            Some(m) => has_param(m, "generate_audio"),
            None => true,
        };
        let absent: bool = expected && parameters.get("generate_audio").is_none();
        add_if(list, absent, write_absent(source, "generate_audio"));
    }
}

fn add_missing_warnings(
    list: &mut Vec<String>,
    references: &Vec<TemplateReference>,
    exists: &Vec<bool>,
    source: &str,
)
    requires
        exists.len() == references.len(),
    ensures
        views(final(list)@) == views(old(list)@) + missing_warnings(
            reference_views(references@),
            exists@,
            source@,
            references@.len(),
        ),
{
    let ghost start = views(list@);
    let ghost refs = reference_views(references@);
    let mut i: usize = 0;
    proof {
        assert(start + missing_warnings(refs, exists@, source@, 0) =~= start);
    }
    while i < references.len()
        invariant
            i <= references.len(),
            exists.len() == references.len(),
            refs == reference_views(references@),
            views(list@) == start + missing_warnings(refs, exists@, source@, i as nat),
        decreases references.len() - i,
    {
        proof {
            assert(refs[i as int] == references@[i as int]@);
        }
        let r: &TemplateReference = &references[i];
        let gone: bool = r.path.as_str().is_empty() || !exists[i];
        let name: &str = if r.name.as_str().is_empty() {
            "未命名素材"
        } else {
            r.name.as_str()
        };
        let mut message: String = cat3(source, "缺少参考素材“", name);
        message.append("”，请替换后再生成");
        let ghost before = views(list@);
        add_if(list, gone, message);
        proof {
            let done = missing_warnings(refs, exists@, source@, i as nat);
            assert(push_if(start + done, gone, message@) =~= start + push_if(
                done,
                gone,
                message@,
            ));
        }
        i = i + 1;
    }
}

/// The warnings for a configuration.
pub fn find_warnings(
    catalog: &Catalog,
    configuration: &GenerationTemplate,
    exists: &Vec<bool>,
    source: &str,
) -> (r: Vec<String>)
    requires
        exists.len() == configuration.references.len(),
    ensures
        views(r@) == configuration_warnings(
            catalog@.models,
            configuration@,
            exists@,
            source@,
        ),
{
    let mode: i32 = if configuration.mode == 0 {
        0
    } else {
        1
    };
    let id: &str = configuration.model_id.as_str();
    let model: Option<&Json> = model_by_id(&catalog.models, model_kind(mode), id);
    let mut list: Vec<String> = Vec::new();
    proof {
        assert(views(list@) =~= Seq::empty());
    }
    if model.is_none() {
        let message: String = if id.is_empty() {
            cat(source, "缺少模型，请选择一个可用模型")
        } else {
            let mut m: String = cat3(source, "使用的模型 ", id);
            m.append(" 当前不可用，请选择其他模型");
            m
        };
        list.push(message);
        proof {
            assert(views(list@) =~= seq![message@]);
        }
    }
    add_missing_warnings(&mut list, &configuration.references, exists, source);
    add_absent_warnings(&mut list, mode, model, &configuration.parameters, source);
    if let Some(m) = model {
        add_model_warnings(
            &mut list,
            m,
            &configuration.parameters,
            &configuration.references,
            source,
        );
    }
    list
}

/// A saved reference as the studio holds it. It is uploaded where its file is
/// there, and keeps its place as missing otherwise. A reference without a
/// client id gets the id `fresh`.
pub open spec fn queued_reference(
    reference: ReferenceView,
    exists: bool,
    fresh: Seq<char>,
) -> JsonModel {
    let available = is_available(reference, exists);
    JsonModel::Object(
        seq![
            ("client_id"@, JsonModel::Text(queued_client(reference, fresh))),
            ("local_path"@, JsonModel::Text(reference.path)),
            ("kind"@, JsonModel::Text(reference.kind)),
            (
                "display_name"@,
                JsonModel::Text(
                    if reference.name.len() == 0 {
                        "缺失参考素材"@
                    } else {
                        reference.name
                    },
                ),
            ),
            ("source_id"@, JsonModel::Text(reference.source_id)),
            (
                "status"@,
                JsonModel::Text(
                    if available {
                        "uploading"@
                    } else {
                        "missing"@
                    },
                ),
            ),
            ("missing"@, JsonModel::Bool(!available)),
            ("id"@, JsonModel::Null),
        ],
    )
}

pub open spec fn queued_client(reference: ReferenceView, fresh: Seq<char>) -> Seq<char> {
    if reference.client_id.len() == 0 {
        fresh
    } else {
        reference.client_id
    }
}

/// The job that uploads a reference file.
pub open spec fn upload_job(client_id: Seq<char>, path: Seq<char>) -> (Seq<char>, RequestView) {
    (
        "reference:"@ + client_id,
        plain_request(
            "POST"@,
            "local:upload"@,
            JsonModel::Object(
                seq![
                    ("path"@, JsonModel::Text(path)),
                    ("client_id"@, JsonModel::Text(client_id)),
                    ("purpose"@, JsonModel::Text("generation_input"@)),
                    ("team"@, JsonModel::Text(""@)),
                ],
            ),
        ),
    )
}

pub fn make_upload_job(client_id: &str, path: &str) -> (r: (String, Request))
    ensures
        (r.0@, r.1@) == upload_job(client_id@, path@),
{
    let mut fields: Vec<(String, Json)> = Vec::new();
    fields.push(("path".to_owned(), Json::from_text(path)));
    fields.push(("client_id".to_owned(), Json::from_text(client_id)));
    fields.push(("purpose".to_owned(), Json::from_text("generation_input")));
    fields.push(("team".to_owned(), Json::from_text("")));
    let body: Json = Json::from_members(fields);
    proof {
        assert(body@->Object_0 =~= upload_job(client_id@, path@).1.body->Object_0);
    }
    (cat("reference:", client_id), request("POST", "local:upload", body))
}

fn make_queued(reference: &TemplateReference, exists: bool, fresh: &str) -> (r: Json)
    ensures
        r@ == queued_reference(reference@, exists, fresh@),
{
    let available: bool = !reference.path.as_str().is_empty() && exists;
    let client_id: &str = if reference.client_id.as_str().is_empty() {
        fresh
    } else {
        reference.client_id.as_str()
    };
    let name: &str = if reference.name.as_str().is_empty() {
        "缺失参考素材"
    } else {
        reference.name.as_str()
    };
    let status: &str = if available {
        "uploading"
    } else {
        "missing"
    };
    let mut fields: Vec<(String, Json)> = Vec::new();
    fields.push(("client_id".to_owned(), Json::from_text(client_id)));
    fields.push(("local_path".to_owned(), Json::from_text(reference.path.as_str())));
    fields.push(("kind".to_owned(), Json::from_text(reference.kind.as_str())));
    fields.push(("display_name".to_owned(), Json::from_text(name)));
    fields.push(("source_id".to_owned(), Json::from_text(reference.source_id.as_str())));
    fields.push(("status".to_owned(), Json::from_text(status)));
    fields.push(("missing".to_owned(), Json::Bool(!available)));
    fields.push(("id".to_owned(), Json::Null));
    let r: Json = Json::from_members(fields);
    proof {
        assert(r@->Object_0 =~= queued_reference(reference@, exists, fresh@)->Object_0);
    }
    r
}

/// The first `n` saved references as the studio holds them.
pub open spec fn queued_references(
    references: Seq<ReferenceView>,
    exists: Seq<bool>,
    ids: Seq<Seq<char>>,
    n: nat,
) -> Seq<JsonModel>
    decreases n,
{
    if n == 0 {
        Seq::empty()
    } else {
        queued_references(references, exists, ids, (n - 1) as nat).push(
            queued_reference(references[n - 1], exists[n - 1], ids[n - 1]),
        )
    }
}

/// The uploads of the first `n` saved references.
pub open spec fn queued_uploads(
    references: Seq<ReferenceView>,
    exists: Seq<bool>,
    ids: Seq<Seq<char>>,
    n: nat,
) -> Seq<(Seq<char>, RequestView)>
    decreases n,
{
    if n == 0 {
        Seq::empty()
    } else {
        let before = queued_uploads(references, exists, ids, (n - 1) as nat);
        let r = references[n - 1];
        if is_available(r, exists[n - 1]) {
            before.push(upload_job(queued_client(r, ids[n - 1]), r.path))
        } else {
            before
        }
    }
}

/// Puts a saved reference into the studio; the result is its upload.
pub fn queue_configuration_reference(
    references: &mut Vec<Json>,
    reference: &TemplateReference,
    exists: bool,
    fresh: &str,
) -> (r: Option<(String, Request)>)
    ensures
        models(final(references)@) == models(old(references)@).push(
            queued_reference(reference@, exists, fresh@),
        ),
        crate::cloud::requests::opt_job(r) == if is_available(reference@, exists) {
            Some(upload_job(queued_client(reference@, fresh@), reference@.path))
        } else {
            None
        },
{
    let ghost before = references@;
    let one: Json = make_queued(reference, exists, fresh);
    let ghost view = one@;
    references.push(one);
    proof {
        assert(models(references@) =~= models(before).push(view));
    }
    if reference.path.as_str().is_empty() || !exists {
        return None;
    }
    let client_id: &str = if reference.client_id.as_str().is_empty() {
        fresh
    } else {
        reference.client_id.as_str()
    };
    Some(make_upload_job(client_id, reference.path.as_str()))
}

/// The template editor after a configuration has been applied. A past task
/// leaves no template in it, so that a later save cannot overwrite one.
pub open spec fn template_after(
    template: TemplateFormView,
    configuration: TemplateView,
    update_metadata: bool,
) -> TemplateFormView {
    if update_metadata {
        TemplateFormView {
            id: configuration.id,
            name: configuration.name,
            prompt: configuration.prompt,
            mode: configured_mode(configuration.mode),
            model_id: configuration.model_id,
            parameters_json: printed(configuration.parameters),
            reference_paths: template.reference_paths,
        }
    } else {
        TemplateFormView {
            id: ""@,
            name: ""@,
            prompt: ""@,
            mode: template.mode,
            model_id: ""@,
            parameters_json: ""@,
            reference_paths: ""@,
        }
    }
}

fn update_template_form(
    template: &mut TemplateForm,
    configuration: &GenerationTemplate,
    update_metadata: bool,
)
    ensures
        final(template)@ == template_after(old(template)@, configuration@, update_metadata),
{
    if update_metadata {
        template.id = configuration.id.clone();
        template.name = configuration.name.clone();
        template.prompt = configuration.prompt.clone();
        template.mode = if configuration.mode == 0 {
            0
        } else {
            1
        };
        template.model_id = configuration.model_id.clone();
        template.parameters_json = configuration.parameters.print();
    } else {
        template.id = "".to_owned();
        template.name = "".to_owned();
        template.prompt = "".to_owned();
        template.model_id = "".to_owned();
        template.parameters_json = "".to_owned();
        template.reference_paths = "".to_owned();
    }
}

/// The studio after a configuration has been put into it, before the quote is
/// asked for.
pub open spec fn applied(
    studio: StudioView,
    configuration: TemplateView,
    exists: Seq<bool>,
    update_metadata: bool,
    ids: Seq<Seq<char>>,
) -> StudioView {
    let mode = configured_mode(configuration.mode);
    let (form, catalog) = options_updated(
        FormView { mode, ..studio.form },
        configured(
            studio.form,
            studio.catalog,
            mode,
            configuration.model_id,
            configuration.parameters,
        ),
        studio.references,
        true,
    );
    StudioView {
        form,
        prompt: PromptView {
            prompt: configuration.prompt,
            prompt_cursor: byte_len(configuration.prompt) as i32,
            mention_open: studio.prompt.mention_open,
        },
        catalog,
        quote: QuoteView {
            id: ""@,
            credits: None,
            body: JsonModel::Null,
            text: ""@,
            insufficient: false,
            can_generate: false,
            reference_error: ""@,
        },
        references: queued_references(
            configuration.references,
            exists,
            ids,
            configuration.references.len(),
        ),
        template: template_after(studio.template, configuration, update_metadata),
        submission: None,
        page: 1,
        signed_in: studio.signed_in,
    }
}

/// What is to be done after a configuration has been put into the studio, in
/// this order: the uploads are started, the quote is asked for, and the
/// warnings are shown.
pub struct ConfigurationPlan {
    pub uploads: Vec<(String, Request)>,
    pub quote: Option<Request>,
    pub warnings: Vec<String>,
}

/// What applying a configuration does: the studio after it, the uploads and
/// the request for a quote. A quote is asked for at once only where there are
/// no references to upload first.
pub open spec fn configuration_applied(
    studio: StudioView,
    configuration: TemplateView,
    exists: Seq<bool>,
    update_metadata: bool,
    ids: Seq<Seq<char>>,
) -> (StudioView, Seq<(Seq<char>, RequestView)>, Option<RequestView>) {
    let after = applied(studio, configuration, exists, update_metadata, ids);
    let uploads = queued_uploads(
        configuration.references,
        exists,
        ids,
        configuration.references.len(),
    );
    if configuration.references.len() == 0 {
        let (quote, req) = quote_refreshed(
            after.quote,
            after.form,
            after.prompt.prompt,
            after.catalog,
            after.references,
            after.signed_in,
        );
        (StudioView { quote, ..after }, uploads, req)
    } else {
        (after, uploads, None)
    }
}

/// Puts the references of a configuration into the studio.
fn queue_references(
    references: &Vec<TemplateReference>,
    exists: &Vec<bool>,
    ids: &Vec<String>,
) -> (r: (Vec<Json>, Vec<(String, Request)>))
    requires
        exists.len() == references.len(),
        ids.len() == references.len(),
    ensures
        models(r.0@) == queued_references(
            reference_views(references@),
            exists@,
            views(ids@),
            references@.len(),
        ),
        job_views(r.1@) == queued_uploads(
            reference_views(references@),
            exists@,
            views(ids@),
            references@.len(),
        ),
{
    let ghost refs = reference_views(references@);
    let ghost names = views(ids@);
    let mut queued: Vec<Json> = Vec::new();
    let mut uploads: Vec<(String, Request)> = Vec::new();
    let mut i: usize = 0;
    proof {
        assert(models(queued@) =~= Seq::empty());
        assert(job_views(uploads@) =~= Seq::empty());
    }
    while i < references.len()
        invariant
            i <= references.len(),
            exists.len() == references.len(),
            ids.len() == references.len(),
            refs == reference_views(references@),
            names == views(ids@),
            models(queued@) == queued_references(refs, exists@, names, i as nat),
            job_views(uploads@) == queued_uploads(refs, exists@, names, i as nat),
        decreases references.len() - i,
    {
        proof {
            assert(refs[i as int] == references@[i as int]@);
            assert(names[i as int] == ids@[i as int]@);
        }
        let job: Option<(String, Request)> = queue_configuration_reference(
            &mut queued,
            &references[i],
            exists[i],
            ids[i].as_str(),
        );
        if let Some(j) = job {
            let ghost before = uploads@;
            let ghost view = (j.0@, j.1@);
            uploads.push(j);
            proof {
                assert(job_views(uploads@) =~= job_views(before).push(view));
            }
        }
        i = i + 1;
    }
    (queued, uploads)
}

/// Puts a configuration into the studio. `exists` says of each reference
/// whether its file is there, and `ids` has an id for each that has none.
pub fn apply_configuration_with(
    studio: &mut Studio,
    configuration: &GenerationTemplate,
    exists: &Vec<bool>,
    source: &str,
    update_metadata: bool,
    ids: &Vec<String>,
) -> (r: ConfigurationPlan)
    requires
        exists.len() == configuration.references.len(),
        ids.len() == configuration.references.len(),
    ensures
        (final(studio)@, job_views(r.uploads@), opt_request(r.quote)) == configuration_applied(
            old(studio)@,
            configuration@,
            exists@,
            update_metadata,
            views(ids@),
        ),
        views(r.warnings@) == configuration_warnings(
            old(studio)@.catalog.models,
            configuration@,
            exists@,
            source@,
        ),
{
    let warnings: Vec<String> = find_warnings(&studio.catalog, configuration, exists, source);
    let mode: i32 = if configuration.mode == 0 {
        0
    } else {
        1
    };
    studio.prompt.prompt = configuration.prompt.clone();
    studio.prompt.prompt_cursor = byte_count(configuration.prompt.as_str()) as i32;
    update_model_options_for_configuration(
        &mut studio.form,
        &mut studio.catalog,
        &studio.references,
        mode,
        configuration.model_id.as_str(),
        &configuration.parameters,
    );
    update_template_form(&mut studio.template, configuration, update_metadata);
    studio.quote = Quote {
        id: "".to_owned(),
        credits: None,
        body: Json::Null,
        text: "".to_owned(),
        insufficient: false,
        can_generate: false,
        reference_error: "".to_owned(),
    };
    studio.submission = None;
    studio.page = 1;
    let (queued, uploads) = queue_references(&configuration.references, exists, ids);
    studio.references = queued;
    assert(studio@ == applied(
        old(studio)@,
        configuration@,
        exists@,
        update_metadata,
        views(ids@),
    ));
    let quote: Option<Request> = if configuration.references.len() == 0 {
        refresh_quote(
            &mut studio.quote,
            &studio.form,
            studio.prompt.prompt.as_str(),
            &studio.catalog,
            &studio.references,
            studio.signed_in,
        )
    } else {
        None
    };
    ConfigurationPlan { uploads, quote, warnings }
}

/// The form after the warnings of a configuration have been shown, or its
/// earlier warning taken off.
pub open spec fn warnings_shown(form: FormView, warnings: Seq<Seq<char>>) -> FormView {
    if warnings.len() > 0 {
        warned(form, joined(warnings, "；"@))
    } else {
        FormView { recovery_warning: ""@, ..form }
    }
}

/// Shows the warnings of a configuration.
pub fn show_warnings(form: &mut GenerationForm, warnings: &Vec<String>)
    ensures
        final(form)@ == warnings_shown(old(form)@, views(warnings@)),
{
    if warnings.len() > 0 {
        let message: String = crate::text::join(warnings, "；");
        set_recovery_warning(form, message.as_str());
    } else {
        form.recovery_warning = "".to_owned();
    }
}

/// An id for each of `n` references.
fn fresh_ids(n: usize) -> (r: Vec<String>)
    ensures
        r@.len() == n,
        forall|i: int| 0 <= i < n ==> is_uuid(#[trigger] views(r@)[i]),
{
    let mut out: Vec<String> = Vec::new();
    while out.len() < n
        invariant
            out.len() <= n,
            forall|i: int| 0 <= i < out@.len() ==> is_uuid(#[trigger] views(out@)[i]),
        decreases n - out.len(),
    {
        let ghost before = out@;
        let id: String = fresh_id();
        out.push(id);
        proof {
            assert forall|i: int| 0 <= i < out@.len() implies is_uuid(#[trigger] views(out@)[i]) by {
                if i < before.len() {
                    assert(views(out@)[i] == views(before)[i]);
                }
            }
        }
    }
    out
}

/// Puts a configuration into the studio; references without an id get fresh
/// ones.
pub fn apply_generation_configuration(
    studio: &mut Studio,
    configuration: &GenerationTemplate,
    exists: &Vec<bool>,
    source: &str,
    update_metadata: bool,
) -> (r: ConfigurationPlan)
    requires
        exists.len() == configuration.references.len(),
    ensures
        exists|ids: Seq<Seq<char>>|
            {
                &&& ids.len() == configuration@.references.len()
                &&& forall|i: int| 0 <= i < ids.len() ==> is_uuid(#[trigger] ids[i])
                &&& (final(studio)@, job_views(r.uploads@), opt_request(r.quote))
                    == #[trigger] configuration_applied(
                    old(studio)@,
                    configuration@,
                    exists@,
                    update_metadata,
                    ids,
                )
            },
        views(r.warnings@) == configuration_warnings(
            old(studio)@.catalog.models,
            configuration@,
            exists@,
            source@,
        ),
{
    let ids: Vec<String> = fresh_ids(configuration.references.len());
    let ghost names = views(ids@);
    proof {
        assert(names.len() == configuration@.references.len());
        assert forall|i: int| 0 <= i < names.len() implies is_uuid(#[trigger] names[i]) by {}
    }
    apply_configuration_with(studio, configuration, exists, source, update_metadata, &ids)
}

/// Every reference of a configuration keeps its place and its medium in the
/// studio, whether its file is there or not.
pub proof fn references_keep_their_places(
    references: Seq<ReferenceView>,
    exists: Seq<bool>,
    ids: Seq<Seq<char>>,
    n: nat,
    i: int,
)
    requires
        n <= references.len(),
        exists.len() == references.len(),
        ids.len() == references.len(),
        0 <= i < n,
    ensures
        queued_references(references, exists, ids, n).len() == n,
        queued_references(references, exists, ids, n)[i] == queued_reference(
            references[i],
            exists[i],
            ids[i],
        ),
    decreases n,
{
    reveal_with_fuel(queued_references, 2);
    if n > 1 {
        if i < n - 1 {
            references_keep_their_places(references, exists, ids, (n - 1) as nat, i);
        } else {
            references_keep_their_places(references, exists, ids, (n - 1) as nat, 0);
        }
    }
}

} // verus!
