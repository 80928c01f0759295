//! What is sent to generate, and the quote for it.

use crate::cloud::catalog::{
    has_param, has_parameter, is_model, kind_of, model_by_id, model_kind, model_named, parameter_value,
    selected_id, selected_model, value_at, Catalog, CatalogView, FormView, GenerationForm,
};
use crate::cloud::mentions::{
    computes, computes_image, images_only, pieces, rendered, rewrite_media_mentions,
    rewrite_mentions,
};
use crate::cloud::references::{reference_validation, references_fault};
use crate::cloud::requests::{plain_request, request, Request, RequestView};
use crate::json::{lookup, models, set_members_are_found, Json, JsonModel};
use crate::lists::{first_from_found, kept, kept_all, kept_step};
use crate::text::{
    cat, cat3, decimal, same, signed_decimal, to_decimal, to_signed_decimal, trim, trimmed,
};
use vstd::prelude::*;
use vstd::string::*;

verus! {

/// A video prompt names a reference by its label and number.
pub open spec fn video_mention() -> spec_fn(Seq<char>, nat) -> Seq<char> {
    |label: Seq<char>, number: nat| label + decimal(number)
}

/// An image prompt names a reference image by its number.
pub open spec fn image_mention() -> spec_fn(nat) -> Seq<char> {
    |number: nat| "第"@ + decimal(number) + "张参考图片"@
}

/// The prompt as it is sent.
pub open spec fn sent_prompt(mode: i32, prompt: Seq<char>) -> Seq<char> {
    if mode != 0 {
        rendered(pieces(trimmed(prompt), 0), video_mention())
    } else {
        rendered(pieces(trimmed(prompt), 0), images_only(image_mention()))
    }
}

/// Writes the mentions of a prompt as the provider reads them.
pub fn provider_prompt(mode: i32, prompt: &str) -> (r: String)
    ensures
        r@ == sent_prompt(mode, prompt@),
{
    let short: String = trim(prompt);
    if mode != 0 {
        let write = |label: &str, number: usize| -> (out: String)
            ensures
                out@ == video_mention()(label@, number as nat),
            {
                let digits: String = to_decimal(number as u64);
                cat(label, digits.as_str())
            };
        let r: String = rewrite_media_mentions(short.as_str(), write);
        proof {
            assert(computes(write, video_mention()));
        }
        r
    } else {
        let write = |number: usize| -> (out: String)
            ensures
                out@ == image_mention()(number as nat),
            {
                let digits: String = to_decimal(number as u64);
                cat3("第", digits.as_str(), "张参考图片")
            };
        let r: String = rewrite_mentions(short.as_str(), write);
        proof {
            assert(computes_image(write, image_mention()));
        }
        r
    }
}

/// A ready reference that the service knows.
pub open spec fn is_sent() -> spec_fn(JsonModel) -> bool {
    |v: JsonModel|
        v.text("status"@) == "ready"@ && v.at("id"@) is Text && v.text("id"@).len() > 0
}

/// The ids of the references that are sent, in their order.
pub open spec fn sent_ids(references: Seq<JsonModel>) -> Seq<JsonModel> {
    let sent = kept(references, is_sent());
    Seq::new(sent.len(), |i: int| JsonModel::Text(sent[i].text("id"@)))
}

fn ready_ids(references: &Vec<Json>) -> (r: Vec<Json>)
    ensures
        models(r@) == sent_ids(models(references@)),
{
    let ghost p = is_sent();
    let ghost m = models(references@);
    let mut out: Vec<Json> = Vec::new();
    let mut i: usize = 0;
    proof {
        kept_all(m, p);
    }
    while i < references.len()
        invariant
            i <= references.len(),
            m == models(references@),
            p == is_sent(),
            out@.len() == kept(m.take(i as int), p).len(),
            forall|j: int|
                0 <= j < out@.len() ==> (#[trigger] out@[j])@ == JsonModel::Text(
                    kept(m.take(i as int), p)[j].text("id"@),
                ),
        decreases references.len() - i,
    {
        proof {
            kept_step(m, p, i as int);
            assert(m[i as int] == references@[i as int]@);
        }
        let id: String = references[i].text("id");
        if references[i].text_is("status", "ready") && !id.as_str().is_empty() {
            out.push(Json::Text(id));
        }
        i = i + 1;
    }
    proof {
        kept_all(m, p);
        assert(models(out@) =~= sent_ids(m));
    }
    out
}

/// The parameters of a request, added to `body`.
pub open spec fn with_parameters(body: JsonModel, form: FormView, model: JsonModel) -> JsonModel {
    let named = if form.mode != 0 {
        let shaped = body.with(
            "resolution"@,
            value_at(model, "resolution"@, form.resolution_index),
        ).with("duration"@, value_at(model, "duration"@, form.duration_index)).with(
            "aspect_ratio"@,
            value_at(model, "aspect_ratio"@, form.ratio_index),
        );
        if has_parameter(model, "generate_audio"@) {
            shaped.with("generate_audio"@, JsonModel::Bool(form.generate_audio))
        } else {
            shaped
        }
    } else {
        body.with("size"@, value_at(model, "size"@, form.resolution_index)).with(
            "quality"@,
            value_at(model, "quality"@, form.quality_index),
        )
    };
    if has_parameter(model, "quantity"@) {
        named.with("quantity"@, value_at(model, "quantity"@, form.quantity_index))
    } else {
        named
    }
}

/// The model that the form shows, `Null` where there is none.
pub open spec fn form_model(form: FormView, catalog: CatalogView) -> JsonModel {
    match model_named(
        catalog.models,
        kind_of(form.mode),
        selected_id(form.mode, form.model_index, catalog),
    ) {
        Some(model) => model,
        None => JsonModel::Null,
    }
}

/// The request that generates what the form shows.
pub open spec fn generation_of(
    form: FormView,
    prompt: Seq<char>,
    catalog: CatalogView,
    references: Seq<JsonModel>,
) -> JsonModel {
    let start = JsonModel::Object(
        seq![
            ("model"@, JsonModel::Text(selected_id(form.mode, form.model_index, catalog))),
            ("operation"@, JsonModel::Text("generate"@)),
            ("prompt"@, JsonModel::Text(sent_prompt(form.mode, prompt))),
        ],
    );
    let body = with_parameters(start, form, form_model(form, catalog));
    let ids = sent_ids(references);
    if ids.len() > 0 {
        let named = body.with("reference_asset_ids"@, JsonModel::Array(ids));
        if form.mode == 0 {
            named.with("operation"@, JsonModel::Text("edit"@))
        } else {
            named
        }
    } else {
        body
    }
}

fn add_parameters(body: Json, form: &GenerationForm, model: &Json) -> (r: Json)
    requires
        body@ is Object,
    ensures
        r@ == with_parameters(body@, form@, model@),
        r@ is Object,
{
    let mut out: Json = body;
    if form.mode != 0 {
        out = out.with("resolution", parameter_value(model, "resolution", form.resolution_index));
        out = out.with("duration", parameter_value(model, "duration", form.duration_index));
        out = out.with("aspect_ratio", parameter_value(model, "aspect_ratio", form.ratio_index));
        if has_param(model, "generate_audio") {
            out = out.with("generate_audio", Json::Bool(form.generate_audio));
        }
    } else {
        out = out.with("size", parameter_value(model, "size", form.resolution_index));
        out = out.with("quality", parameter_value(model, "quality", form.quality_index));
    }
    if has_param(model, "quantity") {
        out = out.with("quantity", parameter_value(model, "quantity", form.quantity_index));
    }
    out
}

/// Makes the request that generates what the form shows.
pub fn generation_body(
    form: &GenerationForm,
    prompt: &str,
    catalog: &Catalog,
    references: &Vec<Json>,
) -> (r: Json)
    ensures
        r@ == generation_of(form@, prompt@, catalog@, models(references@)),
        r@ is Object,
{
    let id: String = selected_model(form.mode, form.model_index, catalog);
    let written: String = provider_prompt(form.mode, prompt);
    let mut fields: Vec<(String, Json)> = Vec::new();
    fields.push(("model".to_owned(), Json::from_text(id.as_str())));
    fields.push(("operation".to_owned(), Json::from_text("generate")));
    fields.push(("prompt".to_owned(), Json::from_text(written.as_str())));
    let start: Json = Json::from_members(fields);
    proof {
        assert(start@->Object_0 =~= seq![
            ("model"@, JsonModel::Text(id@)),
            ("operation"@, JsonModel::Text("generate"@)),
            ("prompt"@, JsonModel::Text(written@)),
        ]);
    }
    let model: Json = match model_by_id(&catalog.models, model_kind(form.mode), id.as_str()) {
        Some(model) => model.copy(),
        None => Json::Null,
    };
    let body: Json = add_parameters(start, form, &model);
    let ids: Vec<Json> = ready_ids(references);
    if ids.len() > 0 {
        let named: Json = body.with("reference_asset_ids", Json::from_list(ids));
        if form.mode == 0 {
            named.with("operation", Json::from_text("edit"))
        } else {
            named
        }
    } else {
        body
    }
}

/// The quote for what the form shows.
pub struct Quote {
    pub id: String,
    pub credits: Option<i64>,
    pub body: Json,
    pub text: String,
    pub insufficient: bool,
    pub can_generate: bool,
    pub reference_error: String,
}

pub struct QuoteView {
    pub id: Seq<char>,
    pub credits: Option<i64>,
    pub body: JsonModel,
    pub text: Seq<char>,
    pub insufficient: bool,
    pub can_generate: bool,
    pub reference_error: Seq<char>,
}

impl View for Quote {
    type V = QuoteView;

    open spec fn view(&self) -> QuoteView {
        QuoteView {
            id: self.id@,
            credits: self.credits,
            body: self.body@,
            text: self.text@,
            insufficient: self.insufficient,
            can_generate: self.can_generate,
            reference_error: self.reference_error@,
        }
    }
}

/// The fault of the references of a form.
pub open spec fn form_reference_fault(
    form: FormView,
    prompt: Seq<char>,
    catalog: CatalogView,
    references: Seq<JsonModel>,
) -> Seq<char> {
    references_fault(
        form.mode,
        form.model_index,
        form.reference_max,
        prompt,
        catalog,
        references,
    )
}

/// What asking for a new quote does: the old one goes; a request is made where
/// the references are in order, a model is chosen, somebody is signed in and
/// the prompt is not blank.
pub open spec fn quote_refreshed(
    quote: QuoteView,
    form: FormView,
    prompt: Seq<char>,
    catalog: CatalogView,
    references: Seq<JsonModel>,
    signed_in: bool,
) -> (QuoteView, Option<RequestView>) {
    let fault = form_reference_fault(form, prompt, catalog, references);
    let cleared = QuoteView {
        id: ""@,
        credits: None,
        text: ""@,
        insufficient: false,
        can_generate: false,
        reference_error: fault,
        ..quote
    };
    if fault.len() > 0 || !signed_in || trimmed(prompt).len() == 0 {
        (cleared, None)
    } else {
        (
            cleared,
            Some(
                plain_request(
                    "POST"@,
                    "/api/generation/quote"@,
                    generation_of(form, prompt, catalog, references).with(
                        "kind"@,
                        JsonModel::Text(kind_of(form.mode)),
                    ),
                ),
            ),
        )
    }
}

/// The view of an optional request.
pub open spec fn opt_request(r: Option<Request>) -> Option<RequestView> {
    match r {
        Some(req) => Some(req@),
        None => None,
    }
}

/// Drops the quote and asks for a new one; the result is the request of the
/// job `quote`.
pub fn refresh_quote(
    quote: &mut Quote,
    form: &GenerationForm,
    prompt: &str,
    catalog: &Catalog,
    references: &Vec<Json>,
    signed_in: bool,
) -> (r: Option<Request>)
    ensures
        (final(quote)@, opt_request(r)) == quote_refreshed(
            old(quote)@,
            form@,
            prompt@,
            catalog@,
            models(references@),
            signed_in,
        ),
{
    quote.can_generate = false;
    quote.id = "".to_owned();
    quote.credits = None;
    quote.text = "".to_owned();
    quote.insufficient = false;
    let fault: String = reference_validation(
        form.mode,
        form.model_index,
        form.reference_max,
        prompt,
        catalog,
        references,
    );
    let faulty: bool = !fault.as_str().is_empty();
    quote.reference_error = fault;
    if faulty {
        return None;
    }
    let short: String = trim(prompt);
    if !signed_in || short.as_str().is_empty() {
        return None;
    }
    let body: Json = generation_body(form, prompt, catalog, references).with(
        "kind",
        Json::from_text(model_kind(form.mode)),
    );
    Some(request("POST", "/api/generation/quote", body))
}

/// The number that a balance stands for, 0 where it is none.
pub open spec fn balance_of(balance: Option<i64>) -> int {
    match balance {
        Some(n) => n as int,
        None => 0,
    }
}

/// What the answer to a quote does. It counts only while the form still shows
/// what was quoted and no newer quote waits.
pub open spec fn quote_answered(
    quote: QuoteView,
    value: JsonModel,
    form: FormView,
    prompt: Seq<char>,
    catalog: CatalogView,
    references: Seq<JsonModel>,
    newer_waits: bool,
    balance: Option<i64>,
) -> (QuoteView, bool) {
    let current = generation_of(form, prompt, catalog, references);
    if value.at("client_request_body"@) != current || newer_waits {
        (quote, false)
    } else {
        let credits = match value.at("credits"@).as_i64() {
            Some(n) => n,
            None => 0,
        };
        (
            QuoteView {
                id: value.text("quote_id"@),
                credits: Some(credits),
                body: current,
                text: "预计消耗 "@ + signed_decimal(credits as int) + " 积分"@,
                insufficient: balance_of(balance) < credits,
                can_generate: trimmed(prompt).len() > 0 && form_reference_fault(
                    form,
                    prompt,
                    catalog,
                    references,
                ).len() == 0,
                ..quote
            },
            true,
        )
    }
}

/// Takes the answer to a quote; the result says whether it counted.
pub fn accept_quote(
    quote: &mut Quote,
    value: &Json,
    form: &GenerationForm,
    prompt: &str,
    catalog: &Catalog,
    references: &Vec<Json>,
    newer_waits: bool,
    balance: Option<i64>,
) -> (r: bool)
    ensures
        (final(quote)@, r) == quote_answered(
            old(quote)@,
            value@,
            form@,
            prompt@,
            catalog@,
            models(references@),
            newer_waits,
            balance,
        ),
{
    let current: Json = generation_body(form, prompt, catalog, references);
    let quoted: Json = value.at("client_request_body");
    if !quoted.same(&current) || newer_waits {
        return false;
    }
    let credits: i64 = match value.at("credits").as_i64() {
        Some(n) => n,
        None => 0,
    };
    let digits: String = to_signed_decimal(credits);
    quote.id = value.text("quote_id");
    quote.credits = Some(credits);
    quote.body = current;
    quote.text = cat3("预计消耗 ", digits.as_str(), " 积分");
    let available: i64 = match balance {
        Some(n) => n,
        None => 0,
    };
    quote.insufficient = available < credits;
    let short: String = trim(prompt);
    let fault: String = reference_validation(
        form.mode,
        form.model_index,
        form.reference_max,
        prompt,
        catalog,
        references,
    );
    quote.can_generate = !short.as_str().is_empty() && fault.as_str().is_empty();
    true
}

/// A quote never permits a generation that its references or its prompt forbid,
/// and an answer for another form than the one that is shown changes nothing.
pub proof fn quotes_are_for_the_shown_form(
    quote: QuoteView,
    value: JsonModel,
    form: FormView,
    prompt: Seq<char>,
    catalog: CatalogView,
    references: Seq<JsonModel>,
    newer_waits: bool,
    balance: Option<i64>,
)
    ensures
        ({
            let (after, counted) = quote_answered(
                quote,
                value,
                form,
                prompt,
                catalog,
                references,
                newer_waits,
                balance,
            );
            &&& !counted ==> after == quote
            &&& counted ==> after.body == generation_of(form, prompt, catalog, references)
            &&& counted && after.can_generate ==> form_reference_fault(
                form,
                prompt,
                catalog,
                references,
            ).len() == 0
        }),
{
}

/// The value that a form asks for: the entry at `index` of the values that the
/// model lists for a parameter, `Null` where it lists none there.
proof fn asked_value(model: JsonModel, name: Seq<char>, index: i32)
    ensures
        ({
            let values = model.at("parameters"@).at(name).list("values"@);
            &&& 0 <= index < values.len() ==> value_at(model, name, index) == values[index as int]
            &&& !(0 <= index < values.len()) ==> value_at(model, name, index) is Null
        }),
{
}

/// The members that a request starts with.
proof fn named_members()
    ensures
        "resolution"@.len() == 10,
        "duration"@.len() == 8 && "duration"@[0] == 'd',
        "aspect_ratio"@.len() == 12,
        "generate_audio"@.len() == 14,
        "size"@.len() == 4,
        "quality"@.len() == 7,
        "quantity"@.len() == 8 && "quantity"@[0] == 'q',
        "model"@.len() == 5,
        "operation"@.len() == 9,
        "prompt"@.len() == 6,
        "reference_asset_ids"@.len() == 19,
{
    reveal_strlit("resolution");
    reveal_strlit("duration");
    reveal_strlit("aspect_ratio");
    reveal_strlit("generate_audio");
    reveal_strlit("size");
    reveal_strlit("quality");
    reveal_strlit("quantity");
    reveal_strlit("model");
    reveal_strlit("operation");
    reveal_strlit("prompt");
    reveal_strlit("reference_asset_ids");
}

/// What a list of three members holds.
proof fn three_members(a: JsonModel, b: JsonModel, c: JsonModel)
    ensures
        ({
            let start = JsonModel::Object(seq![("model"@, a), ("operation"@, b), ("prompt"@, c)]);
            &&& start.get("model"@) == Some(a)
            &&& start.get("operation"@) == Some(b)
            &&& start.get("prompt"@) == Some(c)
            &&& forall|key: Seq<char>|
                key != "model"@ && key != "operation"@ && key != "prompt"@
                    ==> #[trigger] start.get(key) is None
        }),
{
    named_members();
    let entries = seq![("model"@, a), ("operation"@, b), ("prompt"@, c)];
    let second = entries.drop_first();
    let third = second.drop_first();
    let none = third.drop_first();
    assert(second[0] == ("operation"@, b));
    assert(third[0] == ("prompt"@, c));
    assert(none.len() == 0);
    reveal_with_fuel(lookup, 5);
    assert forall|key: Seq<char>|
        key != "model"@ && key != "operation"@ && key != "prompt"@ implies #[trigger] lookup(
        entries,
        key,
    ) is None by {
        assert(lookup(none, key) is None);
        assert(lookup(third, key) is None);
        assert(lookup(second, key) is None);
    }
}

/// The parameters of a request, and nothing else of it, are set.
proof fn parameters_are_set(body: JsonModel, form: FormView, model: JsonModel)
    requires
        body is Object,
    ensures
        ({
            let r = with_parameters(body, form, model);
            &&& r is Object
            &&& r.get("model"@) == body.get("model"@)
            &&& r.get("operation"@) == body.get("operation"@)
            &&& r.get("prompt"@) == body.get("prompt"@)
            &&& r.get("reference_asset_ids"@) == body.get("reference_asset_ids"@)
            &&& form.mode != 0 ==> {
                &&& r.get("resolution"@) == Some(
                    value_at(model, "resolution"@, form.resolution_index),
                )
                &&& r.get("duration"@) == Some(value_at(model, "duration"@, form.duration_index))
                &&& r.get("aspect_ratio"@) == Some(
                    value_at(model, "aspect_ratio"@, form.ratio_index),
                )
                &&& r.get("generate_audio"@) == if has_parameter(model, "generate_audio"@) {
                    Some(JsonModel::Bool(form.generate_audio))
                } else {
                    body.get("generate_audio"@)
                }
                &&& r.get("size"@) == body.get("size"@)
                &&& r.get("quality"@) == body.get("quality"@)
            }
            &&& form.mode == 0 ==> {
                &&& r.get("size"@) == Some(value_at(model, "size"@, form.resolution_index))
                &&& r.get("quality"@) == Some(value_at(model, "quality"@, form.quality_index))
                &&& r.get("resolution"@) == body.get("resolution"@)
                &&& r.get("duration"@) == body.get("duration"@)
                &&& r.get("aspect_ratio"@) == body.get("aspect_ratio"@)
                &&& r.get("generate_audio"@) == body.get("generate_audio"@)
            }
            &&& r.get("quantity"@) == if has_parameter(model, "quantity"@) {
                Some(value_at(model, "quantity"@, form.quantity_index))
            } else {
                body.get("quantity"@)
            }
        }),
{
    named_members();
    let named = if form.mode != 0 {
        let b = body.with("resolution"@, value_at(model, "resolution"@, form.resolution_index));
        let c = b.with("duration"@, value_at(model, "duration"@, form.duration_index));
        let d = c.with("aspect_ratio"@, value_at(model, "aspect_ratio"@, form.ratio_index));
        set_members_are_found(
            body,
            "resolution"@,
            value_at(model, "resolution"@, form.resolution_index),
        );
        set_members_are_found(b, "duration"@, value_at(model, "duration"@, form.duration_index));
        set_members_are_found(
            c,
            "aspect_ratio"@,
            value_at(model, "aspect_ratio"@, form.ratio_index),
        );
        set_members_are_found(d, "generate_audio"@, JsonModel::Bool(form.generate_audio));
        if has_parameter(model, "generate_audio"@) {
            d.with("generate_audio"@, JsonModel::Bool(form.generate_audio))
        } else {
            d
        }
    } else {
        let b = body.with("size"@, value_at(model, "size"@, form.resolution_index));
        set_members_are_found(body, "size"@, value_at(model, "size"@, form.resolution_index));
        set_members_are_found(b, "quality"@, value_at(model, "quality"@, form.quality_index));
        b.with("quality"@, value_at(model, "quality"@, form.quality_index))
    };
    set_members_are_found(named, "quantity"@, value_at(model, "quantity"@, form.quantity_index));
}

/// A request asks for what the form shows, each parameter taken from its own
/// place: the value that the chosen model lists for it at the form's own index
/// for it. A video has a resolution, a duration and an aspect ratio, and sound
/// where the model knows of it; a picture has a size and a quality instead.
pub proof fn requests_ask_for_what_the_form_shows(
    form: FormView,
    prompt: Seq<char>,
    catalog: CatalogView,
    references: Seq<JsonModel>,
)
    ensures
        ({
            let body = generation_of(form, prompt, catalog, references);
            let parameters = form_model(form, catalog).at("parameters"@);
            let resolutions = parameters.at("resolution"@).list("values"@);
            let durations = parameters.at("duration"@).list("values"@);
            let ratios = parameters.at("aspect_ratio"@).list("values"@);
            let sizes = parameters.at("size"@).list("values"@);
            let qualities = parameters.at("quality"@).list("values"@);
            let quantities = parameters.at("quantity"@).list("values"@);
            &&& form.mode != 0 && 0 <= form.resolution_index < resolutions.len() ==> body.get(
                "resolution"@,
            ) == Some(resolutions[form.resolution_index as int])
            &&& form.mode != 0 && 0 <= form.duration_index < durations.len() ==> body.get(
                "duration"@,
            ) == Some(durations[form.duration_index as int])
            &&& form.mode != 0 && 0 <= form.ratio_index < ratios.len() ==> body.get(
                "aspect_ratio"@,
            ) == Some(ratios[form.ratio_index as int])
            &&& form.mode != 0 && parameters.get("generate_audio"@) is Some ==> body.get(
                "generate_audio"@,
            ) == Some(JsonModel::Bool(form.generate_audio))
            &&& form.mode != 0 && parameters.get("generate_audio"@) is None ==> body.get(
                "generate_audio"@,
            ) is None
            &&& form.mode != 0 ==> body.get("size"@) is None && body.get("quality"@) is None
            &&& form.mode == 0 && 0 <= form.resolution_index < sizes.len() ==> body.get("size"@)
                == Some(sizes[form.resolution_index as int])
            &&& form.mode == 0 && 0 <= form.quality_index < qualities.len() ==> body.get(
                "quality"@,
            ) == Some(qualities[form.quality_index as int])
            &&& form.mode == 0 ==> body.get("resolution"@) is None && body.get("duration"@) is None
                && body.get("aspect_ratio"@) is None && body.get("generate_audio"@) is None
            &&& parameters.get("quantity"@) is Some && 0 <= form.quantity_index < quantities.len()
                ==> body.get("quantity"@) == Some(quantities[form.quantity_index as int])
            &&& parameters.get("quantity"@) is None ==> body.get("quantity"@) is None
        }),
{
    request_members(form, prompt, catalog, references);
    let model = form_model(form, catalog);
    asked_value(model, "resolution"@, form.resolution_index);
    asked_value(model, "duration"@, form.duration_index);
    asked_value(model, "aspect_ratio"@, form.ratio_index);
    asked_value(model, "size"@, form.resolution_index);
    asked_value(model, "quality"@, form.quality_index);
    asked_value(model, "quantity"@, form.quantity_index);
}

/// The members of a request.
pub(crate) proof fn request_members(
    form: FormView,
    prompt: Seq<char>,
    catalog: CatalogView,
    references: Seq<JsonModel>,
)
    ensures
        ({
            let body = generation_of(form, prompt, catalog, references);
            let model = form_model(form, catalog);
            let ids = sent_ids(references);
            &&& body is Object
            &&& body.get("model"@) == Some(
                JsonModel::Text(selected_id(form.mode, form.model_index, catalog)),
            )
            &&& body.get("prompt"@) == Some(JsonModel::Text(sent_prompt(form.mode, prompt)))
            &&& body.get("operation"@) == Some(
                JsonModel::Text(
                    if ids.len() > 0 && form.mode == 0 {
                        "edit"@
                    } else {
                        "generate"@
                    },
                ),
            )
            &&& body.get("reference_asset_ids"@) == if ids.len() > 0 {
                Some(JsonModel::Array(ids))
            } else {
                None
            }
            &&& form.mode != 0 ==> {
                &&& body.get("resolution"@) == Some(
                    value_at(model, "resolution"@, form.resolution_index),
                )
                &&& body.get("duration"@) == Some(
                    value_at(model, "duration"@, form.duration_index),
                )
                &&& body.get("aspect_ratio"@) == Some(
                    value_at(model, "aspect_ratio"@, form.ratio_index),
                )
                &&& body.get("generate_audio"@) == if has_parameter(model, "generate_audio"@) {
                    Some(JsonModel::Bool(form.generate_audio))
                } else {
                    None
                }
                &&& body.get("size"@) is None
                &&& body.get("quality"@) is None
            }
            &&& form.mode == 0 ==> {
                &&& body.get("size"@) == Some(value_at(model, "size"@, form.resolution_index))
                &&& body.get("quality"@) == Some(value_at(model, "quality"@, form.quality_index))
                &&& body.get("resolution"@) is None
                &&& body.get("duration"@) is None
                &&& body.get("aspect_ratio"@) is None
                &&& body.get("generate_audio"@) is None
            }
            &&& body.get("quantity"@) == if has_parameter(model, "quantity"@) {
                Some(value_at(model, "quantity"@, form.quantity_index))
            } else {
                None
            }
        }),
{
    named_members();
    let a = JsonModel::Text(selected_id(form.mode, form.model_index, catalog));
    let b = JsonModel::Text("generate"@);
    let c = JsonModel::Text(sent_prompt(form.mode, prompt));
    three_members(a, b, c);
    let start = JsonModel::Object(seq![("model"@, a), ("operation"@, b), ("prompt"@, c)]);
    let model = form_model(form, catalog);
    parameters_are_set(start, form, model);
    let body = with_parameters(start, form, model);
    let ids = sent_ids(references);
    set_members_are_found(body, "reference_asset_ids"@, JsonModel::Array(ids));
    let named = body.with("reference_asset_ids"@, JsonModel::Array(ids));
    set_members_are_found(named, "operation"@, JsonModel::Text("edit"@));
    let edit = named.with("operation"@, JsonModel::Text("edit"@));
    assert(start.get("resolution"@) is None);
    assert(start.get("duration"@) is None);
    assert(start.get("aspect_ratio"@) is None);
    assert(start.get("generate_audio"@) is None);
    assert(start.get("size"@) is None);
    assert(start.get("quality"@) is None);
    assert(start.get("quantity"@) is None);
    assert(start.get("reference_asset_ids"@) is None);
}

/// The chosen parameters do not get in each other's way: two forms that agree
/// on the model and on the place of one parameter ask for the same value of
/// it, whatever else they show, and a form that moves to another value of the
/// model's list asks for another one.
pub proof fn parameters_keep_apart(
    a: FormView,
    b: FormView,
    prompt: Seq<char>,
    catalog: CatalogView,
    references: Seq<JsonModel>,
)
    requires
        a.mode == b.mode,
        a.model_index == b.model_index,
    ensures
        ({
            let first = generation_of(a, prompt, catalog, references);
            let second = generation_of(b, prompt, catalog, references);
            let durations = form_model(a, catalog).at("parameters"@).at("duration"@).list(
                "values"@,
            );
            let ratios = form_model(a, catalog).at("parameters"@).at("aspect_ratio"@).list(
                "values"@,
            );
            let resolutions = form_model(a, catalog).at("parameters"@).at("resolution"@).list(
                "values"@,
            );
            &&& first.at("model"@) == second.at("model"@)
            &&& first.at("prompt"@) == second.at("prompt"@)
            &&& a.duration_index == b.duration_index ==> first.at("duration"@) == second.at(
                "duration"@,
            )
            &&& a.ratio_index == b.ratio_index ==> first.at("aspect_ratio"@) == second.at(
                "aspect_ratio"@,
            )
            &&& a.resolution_index == b.resolution_index ==> first.at("resolution"@) == second.at(
                "resolution"@,
            ) && first.at("size"@) == second.at("size"@)
            &&& a.quality_index == b.quality_index ==> first.at("quality"@) == second.at(
                "quality"@,
            )
            &&& a.quantity_index == b.quantity_index ==> first.at("quantity"@) == second.at(
                "quantity"@,
            )
            &&& a.generate_audio == b.generate_audio ==> first.at("generate_audio"@) == second.at(
                "generate_audio"@,
            )
            &&& a.mode != 0 && 0 <= a.duration_index < durations.len() && 0 <= b.duration_index
                < durations.len() && durations[a.duration_index as int]
                != durations[b.duration_index as int] ==> first.at("duration"@) != second.at(
                "duration"@,
            )
            &&& a.mode != 0 && 0 <= a.ratio_index < ratios.len() && 0 <= b.ratio_index
                < ratios.len() && ratios[a.ratio_index as int] != ratios[b.ratio_index as int]
                ==> first.at("aspect_ratio"@) != second.at("aspect_ratio"@)
            &&& a.mode != 0 && 0 <= a.resolution_index < resolutions.len() && 0
                <= b.resolution_index < resolutions.len() && resolutions[a.resolution_index as int]
                != resolutions[b.resolution_index as int] ==> first.at("resolution"@) != second.at(
                "resolution"@,
            )
        }),
{
    request_members(a, prompt, catalog, references);
    request_members(b, prompt, catalog, references);
    requests_ask_for_what_the_form_shows(a, prompt, catalog, references);
    requests_ask_for_what_the_form_shows(b, prompt, catalog, references);
}

/// A request names the model of the form's kind that is chosen, or, where the
/// chosen one is no longer in the catalog, the one at the form's place among
/// the models of that kind.
pub proof fn requests_name_the_chosen_model(
    form: FormView,
    prompt: Seq<char>,
    catalog: CatalogView,
    references: Seq<JsonModel>,
    id: Seq<char>,
    at: int,
)
    requires
        catalog.selected(form.mode) == Some(id),
        0 <= at < catalog.models.len(),
        catalog.models[at].text("id"@) == id,
        catalog.models[at].text("kind"@) == if form.mode == 0 {
            "image"@
        } else {
            "video"@
        },
    ensures
        generation_of(form, prompt, catalog, references).at("model"@) == JsonModel::Text(id),
        form_model(form, catalog).text("id"@) == id,
        form_model(form, catalog).text("kind"@) == catalog.models[at].text("kind"@),
{
    request_members(form, prompt, catalog, references);
    let p = is_model(kind_of(form.mode), id);
    assert(p(catalog.models[at]));
    first_from_found(catalog.models, p, 0);
}

/// The references that are sent are those that are ready and known to the
/// service, in their order. A request with one is an edit where it makes a
/// picture, and a generation otherwise.
pub proof fn requests_send_ready_references(
    form: FormView,
    prompt: Seq<char>,
    catalog: CatalogView,
    references: Seq<JsonModel>,
    next: JsonModel,
)
    ensures
        ({
            let before = generation_of(form, prompt, catalog, references);
            let after = generation_of(form, prompt, catalog, references.push(next));
            let ready = next.text("status"@) == "ready"@ && next.text("id"@).len() > 0;
            let none = generation_of(form, prompt, catalog, Seq::<JsonModel>::empty());
            &&& ready ==> after.list("reference_asset_ids"@) == before.list(
                "reference_asset_ids"@,
            ).push(JsonModel::Text(next.text("id"@)))
            &&& !ready ==> after == before
            &&& none.get("reference_asset_ids"@) is None
            &&& none.at("operation"@) == JsonModel::Text("generate"@)
            &&& ready && form.mode == 0 ==> after.at("operation"@) == JsonModel::Text("edit"@)
            &&& form.mode != 0 ==> after.at("operation"@) == JsonModel::Text("generate"@)
        }),
{
    let p = is_sent();
    let more = references.push(next);
    request_members(form, prompt, catalog, references);
    request_members(form, prompt, catalog, more);
    request_members(form, prompt, catalog, Seq::<JsonModel>::empty());
    assert(more.drop_last() =~= references);
    assert(kept(more, p) == if p(next) {
        kept(references, p).push(next)
    } else {
        kept(references, p)
    });
    if p(next) {
        assert(sent_ids(more) =~= sent_ids(references).push(JsonModel::Text(next.text("id"@))));
    }
    assert(kept(Seq::<JsonModel>::empty(), p).len() == 0);
}

/// A request is an object.
pub(crate) proof fn request_is_object(
    form: FormView,
    prompt: Seq<char>,
    catalog: CatalogView,
    references: Seq<JsonModel>,
)
    ensures
        generation_of(form, prompt, catalog, references) is Object,
{
    request_members(form, prompt, catalog, references);
}

} // verus!
