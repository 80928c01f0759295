//! The catalog of generation models and the form that follows it.
//!
//! The catalog can be fetched again, in another order, while the form is
//! open. The choice of a model is therefore kept by its id, and the chosen
//! parameters as the catalog's own values; the indices of the form are
//! computed from these.

use crate::json::{lookup, members, models, opt_model, printed, replaced, Json, JsonModel};
use crate::lists::{
    any, any_text, find_text, first_from, first_where, first_where_any, keep_text, kept, text_is,
};
use crate::text::{
    cat, cat3, contains, contains_text, opt, same, signed_decimal, to_signed_decimal, views,
};
use vstd::prelude::*;
use vstd::string::*;

verus! {

/// The kind of the models of a generation mode: 0 is image generation, every
/// other mode video generation.
pub open spec fn kind_of(mode: i32) -> Seq<char> {
    if mode == 0 {
        "image"@
    } else {
        "video"@
    }
}

pub fn model_kind(mode: i32) -> (r: &'static str)
    ensures
        r@ == kind_of(mode),
{
    if mode == 0 {
        "image"
    } else {
        "video"
    }
}

/// The models of a kind.
pub open spec fn of_kind(catalog: Seq<JsonModel>, kind: Seq<char>) -> Seq<JsonModel> {
    kept(catalog, text_is("kind"@, kind))
}

/// The id of the model at `index` among those of a mode, unless it is empty.
pub open spec fn id_at(catalog: Seq<JsonModel>, mode: i32, index: i32) -> Option<Seq<char>> {
    let list = of_kind(catalog, kind_of(mode));
    if 0 <= index < list.len() && list[index as int].text("id"@).len() > 0 {
        Some(list[index as int].text("id"@))
    } else {
        None
    }
}

pub fn model_id_at_index(catalog: &Vec<Json>, mode: i32, index: i32) -> (r: Option<String>)
    ensures
        opt(r) == id_at(models(catalog@), mode, index),
{
    let list: Vec<Json> = keep_text(catalog, "kind", model_kind(mode));
    if index < 0 || index as usize >= list.len() {
        return None;
    }
    proof {
        assert(models(list@)[index as int] == list@[index as int]@);
    }
    let id: String = list[index as usize].text("id");
    if id.as_str().is_empty() {
        None
    } else {
        Some(id)
    }
}

/// The place of a model among those of a mode, where it fits in 32 bits.
pub open spec fn index_of_id(
    catalog: Seq<JsonModel>,
    mode: i32,
    id: Seq<char>,
) -> Option<i32> {
    match first_where(of_kind(catalog, kind_of(mode)), text_is("id"@, id)) {
        Some(i) => if i <= i32::MAX {
            Some(i as i32)
        } else {
            None
        },
        None => None,
    }
}

pub fn stable_model_index(catalog: &Vec<Json>, mode: i32, model_id: &str) -> (r: Option<i32>)
    ensures
        r == index_of_id(models(catalog@), mode, model_id@),
{
    let list: Vec<Json> = keep_text(catalog, "kind", model_kind(mode));
    match find_text(&list, "id", model_id) {
        Some(i) => if i <= i32::MAX as usize {
            Some(i as i32)
        } else {
            None
        },
        None => None,
    }
}

/// A model of the given kind and id.
pub open spec fn is_model(kind: Seq<char>, id: Seq<char>) -> spec_fn(JsonModel) -> bool {
    |m: JsonModel| m.text("kind"@) == kind && m.text("id"@) == id
}

/// The first model of the given kind and id.
pub open spec fn model_named(
    catalog: Seq<JsonModel>,
    kind: Seq<char>,
    id: Seq<char>,
) -> Option<JsonModel> {
    match first_where(catalog, is_model(kind, id)) {
        Some(i) => Some(catalog[i]),
        None => None,
    }
}

pub fn model_by_id<'a>(catalog: &'a Vec<Json>, kind: &str, id: &str) -> (r: Option<&'a Json>)
    ensures
        opt_model(r) == model_named(models(catalog@), kind@, id@),
{
    let ghost p = is_model(kind@, id@);
    let ghost m = models(catalog@);
    let mut i: usize = 0;
    while i < catalog.len()
        invariant
            i <= catalog.len(),
            m == models(catalog@),
            p == is_model(kind@, id@),
            first_where(m, p) == first_from(m, p, i as int),
        decreases catalog.len() - i,
    {
        proof {
            assert(m[i as int] == catalog@[i as int]@);
        }
        if catalog[i].text_is("kind", kind) && catalog[i].text_is("id", id) {
            return Some(&catalog[i]);
        }
        i = i + 1;
    }
    None
}

/// The name under which the parameters chosen for a model are remembered.
pub open spec fn draft_key(mode: i32, model_id: Seq<char>) -> Seq<char> {
    kind_of(mode) + ":"@ + model_id
}

pub fn parameter_draft_key(mode: i32, model_id: &str) -> (r: String)
    ensures
        r@ == draft_key(mode, model_id@),
{
    cat3(model_kind(mode), ":", model_id)
}

/// The values that a model offers for a parameter.
pub open spec fn offered(model: JsonModel, name: Seq<char>) -> Seq<JsonModel> {
    model.at("parameters"@).at(name).list("values"@)
}

/// Whether a model has a parameter.
pub open spec fn has_parameter(model: JsonModel, name: Seq<char>) -> bool {
    model.at("parameters"@).get(name) is Some
}

/// The value at `index` of a parameter, `Null` outside the offered values.
pub open spec fn value_at(model: JsonModel, name: Seq<char>, index: i32) -> JsonModel {
    if 0 <= index < offered(model, name).len() {
        offered(model, name)[index as int]
    } else {
        JsonModel::Null
    }
}

pub fn offered_values(model: &Json, name: &str) -> (r: Vec<Json>)
    ensures
        models(r@) == offered(model@, name@),
{
    model.at("parameters").at(name).list("values")
}

pub fn has_param(model: &Json, name: &str) -> (r: bool)
    ensures
        r == has_parameter(model@, name@),
{
    let parameters: Json = model.at("parameters");
    parameters.get(name).is_some()
}

pub fn parameter_value(model: &Json, name: &str, index: i32) -> (r: Json)
    ensures
        r@ == value_at(model@, name@, index),
{
    let values: Vec<Json> = offered_values(model, name);
    if index < 0 || index as usize >= values.len() {
        return Json::Null;
    }
    proof {
        assert(models(values@)[index as int] == values@[index as int]@);
    }
    values[index as usize].copy()
}

/// A value as it is shown to the user.
pub open spec fn label_of(name: Seq<char>, value: JsonModel) -> Seq<char> {
    let raw = match value {
        JsonModel::Text(s) => s,
        _ => printed(value),
    };
    if name == "size"@ && raw == "auto"@ {
        "自动"@
    } else if name == "size"@ && raw == "1024x1024"@ {
        "1:1 · 1024 × 1024"@
    } else if name == "size"@ && raw == "1536x1024"@ {
        "3:2 · 1536 × 1024"@
    } else if name == "size"@ && raw == "1024x1536"@ {
        "2:3 · 1024 × 1536"@
    } else if name == "quality"@ && raw == "high"@ {
        "高清"@
    } else if name == "duration"@ {
        raw + " 秒"@
    } else {
        raw
    }
}

pub fn parameter_label(name: &str, value: &Json) -> (r: String)
    ensures
        r@ == label_of(name@, value@),
{
    let raw: String = match value {
        Json::Text(s) => s.clone(),
        _ => value.print(),
    };
    if same(name, "size") && same(raw.as_str(), "auto") {
        "自动".to_owned()
    } else if same(name, "size") && same(raw.as_str(), "1024x1024") {
        "1:1 · 1024 × 1024".to_owned()
    } else if same(name, "size") && same(raw.as_str(), "1536x1024") {
        "3:2 · 1536 × 1024".to_owned()
    } else if same(name, "size") && same(raw.as_str(), "1024x1536") {
        "2:3 · 1024 × 1536".to_owned()
    } else if same(name, "quality") && same(raw.as_str(), "high") {
        "高清".to_owned()
    } else if same(name, "duration") {
        cat(raw.as_str(), " 秒")
    } else {
        raw
    }
}

/// The documents equal to `value`.
pub open spec fn is_value(value: JsonModel) -> spec_fn(JsonModel) -> bool {
    |j: JsonModel| j == value
}

/// The place of the default among the offered values, 0 where it is not one
/// of them.
pub open spec fn default_index(model: JsonModel, name: Seq<char>) -> i32 {
    match first_where(
        offered(model, name),
        is_value(model.at("parameters"@).at(name).at("default"@)),
    ) {
        Some(i) => i as i32,
        None => 0,
    }
}

pub fn find_value(values: &Vec<Json>, wanted: &Json) -> (r: Option<usize>)
    ensures
        match r {
            Some(i) => first_where(models(values@), is_value(wanted@)) == Some(i as int) && i
                < values.len(),
            None => first_where(models(values@), is_value(wanted@)) is None,
        },
{
    let ghost p = is_value(wanted@);
    let ghost m = models(values@);
    let mut i: usize = 0;
    while i < values.len()
        invariant
            i <= values.len(),
            m == models(values@),
            p == is_value(wanted@),
            first_where(m, p) == first_from(m, p, i as int),
        decreases values.len() - i,
    {
        proof {
            assert(m[i as int] == values@[i as int]@);
        }
        if values[i].same(wanted) {
            return Some(i);
        }
        i = i + 1;
    }
    None
}

pub fn parameter_default_index(model: &Json, name: &str) -> (r: i32)
    ensures
        r == default_index(model@, name@),
{
    let values: Vec<Json> = offered_values(model, name);
    let default: Json = model.at("parameters").at(name).at("default");
    match find_value(&values, &default) {
        Some(i) => i as i32,
        None => 0,
    }
}

/// The index that shows the remembered value `expected`, and whether that
/// value is no longer offered. A model without an id has no index.
pub open spec fn shown_option(
    model: JsonModel,
    name: Seq<char>,
    expected: Option<JsonModel>,
) -> (i32, bool) {
    if model.text("id"@).len() == 0 {
        ((-1) as i32, false)
    } else {
        match expected {
            Some(value) => match first_where(offered(model, name), is_value(value)) {
                Some(i) => (i as i32, false),
                None => (default_index(model, name), true),
            },
            None => (default_index(model, name), false),
        }
    }
}

pub fn option_index(model: &Json, name: &str, expected: Option<&Json>) -> (r: (i32, bool))
    ensures
        r == shown_option(model@, name@, opt_model(expected)),
{
    let id: String = model.text("id");
    if id.as_str().is_empty() {
        return (-1, false);
    }
    match expected {
        Some(value) => {
            let values: Vec<Json> = offered_values(model, name);
            match find_value(&values, value) {
                Some(i) => (i as i32, false),
                None => (parameter_default_index(model, name), true),
            }
        },
        None => (parameter_default_index(model, name), false),
    }
}


/// The generation form: the chosen indices and the lists they point into.
pub struct GenerationForm {
    pub mode: i32,
    pub model_index: i32,
    pub ratio_index: i32,
    pub resolution_index: i32,
    pub duration_index: i32,
    pub quality_index: i32,
    pub quantity_index: i32,
    pub generate_audio: bool,
    pub model_names: Vec<String>,
    pub ratios: Vec<String>,
    pub resolutions: Vec<String>,
    pub durations: Vec<String>,
    pub qualities: Vec<String>,
    pub quantities: Vec<String>,
    pub supports_generation_audio: bool,
    pub accepts_references: bool,
    pub reference_max: i32,
    pub reference_limit: String,
    pub recovery_warning: String,
    /// The error that the window shows; a step that shows one sets it.
    pub error: String,
}

pub struct FormView {
    pub mode: i32,
    pub model_index: i32,
    pub ratio_index: i32,
    pub resolution_index: i32,
    pub duration_index: i32,
    pub quality_index: i32,
    pub quantity_index: i32,
    pub generate_audio: bool,
    pub model_names: Seq<Seq<char>>,
    pub ratios: Seq<Seq<char>>,
    pub resolutions: Seq<Seq<char>>,
    pub durations: Seq<Seq<char>>,
    pub qualities: Seq<Seq<char>>,
    pub quantities: Seq<Seq<char>>,
    pub supports_generation_audio: bool,
    pub accepts_references: bool,
    pub reference_max: i32,
    pub reference_limit: Seq<char>,
    pub recovery_warning: Seq<char>,
    pub error: Seq<char>,
}

impl View for GenerationForm {
    type V = FormView;

    open spec fn view(&self) -> FormView {
        FormView {
            mode: self.mode,
            model_index: self.model_index,
            ratio_index: self.ratio_index,
            resolution_index: self.resolution_index,
            duration_index: self.duration_index,
            quality_index: self.quality_index,
            quantity_index: self.quantity_index,
            generate_audio: self.generate_audio,
            model_names: views(self.model_names@),
            ratios: views(self.ratios@),
            resolutions: views(self.resolutions@),
            durations: views(self.durations@),
            qualities: views(self.qualities@),
            quantities: views(self.quantities@),
            supports_generation_audio: self.supports_generation_audio,
            accepts_references: self.accepts_references,
            reference_max: self.reference_max,
            reference_limit: self.reference_limit@,
            recovery_warning: self.recovery_warning@,
            error: self.error@,
        }
    }
}

/// The catalog and what is remembered of the choices made in it: the chosen
/// model of each kind, by id, and the chosen parameters of each model.
pub struct Catalog {
    pub models: Vec<Json>,
    pub selected_image: Option<String>,
    pub selected_video: Option<String>,
    pub parameter_drafts: Vec<(String, Json)>,
    pub generation_mode: Option<i32>,
    pub updating_model_options: bool,
    pub unavailable_model_id: Option<String>,
    pub unavailable_model_kind: Option<String>,
}

pub struct CatalogView {
    pub models: Seq<JsonModel>,
    pub selected_image: Option<Seq<char>>,
    pub selected_video: Option<Seq<char>>,
    pub parameter_drafts: Seq<(Seq<char>, JsonModel)>,
    pub generation_mode: Option<i32>,
    pub updating_model_options: bool,
    pub unavailable_model_id: Option<Seq<char>>,
    pub unavailable_model_kind: Option<Seq<char>>,
}

impl View for Catalog {
    type V = CatalogView;

    open spec fn view(&self) -> CatalogView {
        CatalogView {
            models: models(self.models@),
            selected_image: opt(self.selected_image),
            selected_video: opt(self.selected_video),
            parameter_drafts: members(self.parameter_drafts@),
            generation_mode: self.generation_mode,
            updating_model_options: self.updating_model_options,
            unavailable_model_id: opt(self.unavailable_model_id),
            unavailable_model_kind: opt(self.unavailable_model_kind),
        }
    }
}

impl CatalogView {
    /// The remembered choice for the kind of a mode.
    pub open spec fn selected(self, mode: i32) -> Option<Seq<char>> {
        if mode == 0 {
            self.selected_image
        } else {
            self.selected_video
        }
    }

    pub open spec fn with_selected(self, mode: i32, id: Seq<char>) -> CatalogView {
        if mode == 0 {
            CatalogView { selected_image: Some(id), ..self }
        } else {
            CatalogView { selected_video: Some(id), ..self }
        }
    }

    pub open spec fn draft(self, mode: i32, id: Seq<char>) -> Option<JsonModel> {
        lookup(self.parameter_drafts, draft_key(mode, id))
    }
}

fn copy_opt(s: &Option<String>) -> (r: Option<String>)
    ensures
        opt(r) == opt(*s),
{
    match s {
        Some(t) => Some(t.clone()),
        None => None,
    }
}

impl Catalog {
    pub fn selected(&self, mode: i32) -> (r: Option<String>)
        ensures
            opt(r) == self@.selected(mode),
    {
        if mode == 0 {
            copy_opt(&self.selected_image)
        } else {
            copy_opt(&self.selected_video)
        }
    }

    pub fn set_selected(&mut self, mode: i32, id: &str)
        ensures
            final(self)@ == old(self)@.with_selected(mode, id@),
    {
        if mode == 0 {
            self.selected_image = Some(id.to_owned());
        } else {
            self.selected_video = Some(id.to_owned());
        }
    }

    pub fn set_draft(&mut self, mode: i32, id: &str, draft: Json)
        ensures
            final(self)@ == (CatalogView {
                parameter_drafts: replaced(
                    old(self)@.parameter_drafts,
                    draft_key(mode, id@),
                    draft@,
                ),
                ..old(self)@
            }),
    {
        let key: String = parameter_draft_key(mode, id);
        let mut i: usize = 0;
        let ghost all = members(self.parameter_drafts@);
        proof {
            assert(all.skip(0) =~= all);
            assert(all.take(0) + replaced(all.skip(0), key@, draft@) =~= replaced(all, key@, draft@));
        }
        while i < self.parameter_drafts.len()
            invariant
                i <= self.parameter_drafts.len(),
                *self == *old(self),
                all == members(self.parameter_drafts@),
                key@ == draft_key(mode, id@),
                replaced(all, key@, draft@) == all.take(i as int) + replaced(
                    all.skip(i as int),
                    key@,
                    draft@,
                ),
            decreases self.parameter_drafts.len() - i,
        {
            if same(self.parameter_drafts[i].0.as_str(), key.as_str()) {
                let ghost value = draft@;
                self.parameter_drafts.set(i, (key, draft));
                proof {
                    assert(members(self.parameter_drafts@) =~= all.update(
                        i as int,
                        (key@, value),
                    ));
                    assert(all.update(i as int, (key@, value)) =~= all.take(i as int) + all.skip(
                        i as int,
                    ).update(0, (key@, value)));
                }
                return ;
            }
            proof {
                let here = all.skip(i as int);
                assert(here.drop_first() =~= all.skip(i + 1));
                let rest = replaced(all.skip(i + 1), key@, draft@);
                let head = seq![here[0]];
                assert(replaced(here, key@, draft@) == head + rest);
                assert(all.take(i as int) + (head + rest) =~= all.take(i + 1) + rest);
            }
            i = i + 1;
        }
        let ghost value = draft@;
        self.parameter_drafts.push((key, draft));
        proof {
            assert(all.skip(i as int) =~= Seq::empty());
            let last = seq![(key@, value)];
            assert(replaced(all.skip(i as int), key@, value) == last);
            assert(members(self.parameter_drafts@) =~= all.take(i as int) + last);
        }
    }

    pub fn draft(&self, mode: i32, id: &str) -> (r: Option<Json>)
        ensures
            (match r {
                Some(j) => Some(j@),
                None => None,
            }) == self@.draft(mode, id@),
    {
        let key: String = parameter_draft_key(mode, id);
        let ghost all = members(self.parameter_drafts@);
        let mut i: usize = 0;
        proof {
            assert(all.skip(0) =~= all);
        }
        while i < self.parameter_drafts.len()
            invariant
                i <= self.parameter_drafts.len(),
                all == members(self.parameter_drafts@),
                key@ == draft_key(mode, id@),
                lookup(all, key@) == lookup(all.skip(i as int), key@),
            decreases self.parameter_drafts.len() - i,
        {
            proof {
                assert(all.skip(i as int).drop_first() =~= all.skip(i + 1));
            }
            if same(self.parameter_drafts[i].0.as_str(), key.as_str()) {
                return Some(self.parameter_drafts[i].1.copy());
            }
            i = i + 1;
        }
        None
    }
}

/// The id of the model that the form shows: the remembered choice of its kind
/// while the catalog has it, otherwise the one at the index of the form. Empty
/// where there is none.
pub open spec fn selected_id(mode: i32, model_index: i32, catalog: CatalogView) -> Seq<char> {
    let fallback = match id_at(catalog.models, mode, model_index) {
        Some(id) => id,
        None => Seq::<char>::empty(),
    };
    match catalog.selected(mode) {
        Some(id) => if any(catalog.models, is_model(kind_of(mode), id)) {
            id
        } else {
            fallback
        },
        None => fallback,
    }
}

pub fn selected_model(mode: i32, model_index: i32, catalog: &Catalog) -> (r: String)
    ensures
        r@ == selected_id(mode, model_index, catalog@),
{
    if let Some(id) = catalog.selected(mode) {
        proof {
            first_where_any(catalog@.models, is_model(kind_of(mode), id@));
        }
        if model_by_id(&catalog.models, model_kind(mode), id.as_str()).is_some() {
            return id;
        }
    }
    match model_id_at_index(&catalog.models, mode, model_index) {
        Some(id) => id,
        None => String::new(),
    }
}

/// `values` with `name` set, unless the value is `Null`.
pub open spec fn with_value(values: JsonModel, name: Seq<char>, value: JsonModel) -> JsonModel {
    if value is Null {
        values
    } else {
        values.with(name, value)
    }
}

fn add_value(values: Json, name: &str, value: Json) -> (r: Json)
    requires
        values@ is Object,
    ensures
        r@ == with_value(values@, name@, value@),
        r@ is Object,
{
    if value.is_null() {
        values
    } else {
        values.with(name, value)
    }
}

/// The parameters that the form shows for a model, as the model's own values.
pub open spec fn form_values(form: FormView, model: JsonModel, mode: i32) -> JsonModel {
    let none = JsonModel::Object(Seq::empty());
    let named = if mode == 0 {
        with_value(
            with_value(none, "size"@, value_at(model, "size"@, form.resolution_index)),
            "quality"@,
            value_at(model, "quality"@, form.quality_index),
        )
    } else {
        with_value(
            with_value(
                with_value(
                    none,
                    "resolution"@,
                    value_at(model, "resolution"@, form.resolution_index),
                ),
                "duration"@,
                value_at(model, "duration"@, form.duration_index),
            ),
            "aspect_ratio"@,
            value_at(model, "aspect_ratio"@, form.ratio_index),
        )
    };
    let audio = if has_parameter(model, "generate_audio"@) {
        named.with("generate_audio"@, JsonModel::Bool(form.generate_audio))
    } else {
        named
    };
    if has_parameter(model, "quantity"@) {
        with_value(audio, "quantity"@, value_at(model, "quantity"@, form.quantity_index))
    } else {
        audio
    }
}

pub fn parameter_draft_from_ui(form: &GenerationForm, model: &Json, mode: i32) -> (r: Json)
    ensures
        r@ == form_values(form@, model@, mode),
        r@ is Object,
{
    let mut values: Json = Json::empty_object();
    if mode == 0 {
        values = add_value(values, "size", parameter_value(model, "size", form.resolution_index));
        values = add_value(values, "quality", parameter_value(model, "quality", form.quality_index));
    } else {
        values = add_value(
            values,
            "resolution",
            parameter_value(model, "resolution", form.resolution_index),
        );
        values = add_value(
            values,
            "duration",
            parameter_value(model, "duration", form.duration_index),
        );
        values = add_value(
            values,
            "aspect_ratio",
            parameter_value(model, "aspect_ratio", form.ratio_index),
        );
    }
    if has_param(model, "generate_audio") {
        values = values.with("generate_audio", Json::Bool(form.generate_audio));
    }
    if has_param(model, "quantity") {
        values = add_value(
            values,
            "quantity",
            parameter_value(model, "quantity", form.quantity_index),
        );
    }
    values
}

/// The catalog after the form's parameters have been remembered for a model,
/// and the model as the choice of its kind.
pub open spec fn remembered(
    form: FormView,
    catalog: CatalogView,
    mode: i32,
    id: Seq<char>,
) -> CatalogView {
    if id.len() == 0 {
        catalog
    } else {
        match model_named(catalog.models, kind_of(mode), id) {
            Some(model) => CatalogView {
                parameter_drafts: replaced(
                    catalog.parameter_drafts,
                    draft_key(mode, id),
                    form_values(form, model, mode),
                ),
                ..catalog
            }.with_selected(mode, id),
            None => catalog.with_selected(mode, id),
        }
    }
}

pub fn remember_model_draft(form: &GenerationForm, catalog: &mut Catalog, mode: i32, model_id: &str)
    ensures
        final(catalog)@ == remembered(form@, old(catalog)@, mode, model_id@),
{
    if model_id.is_empty() {
        return ;
    }
    let draft: Option<Json> = match model_by_id(&catalog.models, model_kind(mode), model_id) {
        Some(model) => Some(parameter_draft_from_ui(form, model, mode)),
        None => None,
    };
    if let Some(values) = draft {
        catalog.set_draft(mode, model_id, values);
    }
    catalog.set_selected(mode, model_id);
}

/// The model whose parameters the form shows: the remembered choice of a
/// mode, otherwise the model at the index of the form.
pub open spec fn shown_id(catalog: CatalogView, mode: i32, index: i32) -> Option<Seq<char>> {
    match catalog.selected(mode) {
        Some(id) => Some(id),
        None => id_at(catalog.models, mode, index),
    }
}

fn find_shown_id(catalog: &Catalog, mode: i32, index: i32) -> (r: Option<String>)
    ensures
        opt(r) == shown_id(catalog@, mode, index),
{
    match catalog.selected(mode) {
        Some(id) => Some(id),
        None => model_id_at_index(&catalog.models, mode, index),
    }
}

/// The catalog after the form has been remembered for the model it shows.
pub open spec fn current_remembered(form: FormView, catalog: CatalogView) -> CatalogView {
    match shown_id(catalog, form.mode, form.model_index) {
        Some(id) => remembered(form, catalog, form.mode, id),
        None => catalog,
    }
}

pub fn remember_current_model_draft(form: &GenerationForm, catalog: &mut Catalog)
    ensures
        final(catalog)@ == current_remembered(form@, old(catalog)@),
{
    let mode: i32 = form.mode;
    if let Some(id) = find_shown_id(catalog, mode, form.model_index) {
        remember_model_draft(form, catalog, mode, id.as_str());
    }
}


/// The catalog after the form has been remembered for the model it showed
/// before, where the options are not updated for a new catalog.
pub open spec fn captured(form: FormView, catalog: CatalogView, preserve: bool) -> CatalogView {
    match catalog.generation_mode {
        Some(mode) => if preserve {
            catalog
        } else {
            match shown_id(catalog, mode, form.model_index) {
                Some(id) => remembered(form, catalog, mode, id),
                None => catalog,
            }
        },
        None => catalog,
    }
}

/// The id of the model that the form is to show. A form that stays in its mode
/// follows its own index; in any other case the remembered choice counts.
pub open spec fn desired_id(
    form: FormView,
    previous_mode: Option<i32>,
    catalog: CatalogView,
    preserve: bool,
) -> Option<Seq<char>> {
    let current = id_at(catalog.models, form.mode, form.model_index);
    let chosen = catalog.selected(form.mode);
    let id = if preserve {
        chosen
    } else if previous_mode == Some(form.mode) {
        if current is Some {
            current
        } else {
            chosen
        }
    } else if chosen is Some {
        chosen
    } else {
        current
    };
    match id {
        Some(text) => if text.len() > 0 {
            Some(text)
        } else {
            None
        },
        None => None,
    }
}

/// Whether the wanted model is one that has been reported as unavailable.
pub open spec fn is_unavailable(
    catalog: CatalogView,
    kind: Seq<char>,
    desired: Option<Seq<char>>,
) -> bool {
    match desired {
        None => catalog.unavailable_model_kind == Some(kind)
            && catalog.unavailable_model_id is Some,
        Some(id) => !any(of_kind(catalog.models, kind), text_is("id"@, id))
            && catalog.unavailable_model_id == Some(id),
    }
}

/// The index of the wanted model, the first one where it is gone, -1 where
/// there is none to show.
pub open spec fn chosen_index(
    list: Seq<JsonModel>,
    mode: i32,
    desired: Option<Seq<char>>,
    unavailable: bool,
) -> i32 {
    if unavailable || (desired is None && list.len() == 0) {
        (-1) as i32
    } else {
        match desired {
            Some(id) => match index_of_id(list, mode, id) {
                Some(i) => i,
                None => if list.len() > 0 {
                    0
                } else {
                    (-1) as i32
                },
            },
            None => 0,
        }
    }
}

/// The model at an index, `Null` outside the list.
pub open spec fn model_at(list: Seq<JsonModel>, index: i32) -> JsonModel {
    if 0 <= index < list.len() {
        list[index as int]
    } else {
        JsonModel::Null
    }
}

/// The labels of the values offered for a parameter.
pub open spec fn labels_of(model: JsonModel, name: Seq<char>) -> Seq<Seq<char>> {
    Seq::new(offered(model, name).len(), |i: int| label_of(name, offered(model, name)[i]))
}

/// The name under which a model is shown.
pub open spec fn shown_name(model: JsonModel) -> Seq<char> {
    if model.text("display_name"@).len() == 0 {
        model.text("id"@)
    } else {
        model.text("display_name"@)
    }
}

pub open spec fn names_of(list: Seq<JsonModel>) -> Seq<Seq<char>> {
    Seq::new(list.len(), |i: int| shown_name(list[i]))
}

/// The remembered value of a parameter.
pub open spec fn expected_of(draft: Option<JsonModel>, name: Seq<char>) -> Option<JsonModel> {
    match draft {
        Some(values) => values.get(name),
        None => None,
    }
}

/// The parameter that the resolution list shows.
pub open spec fn size_name(mode: i32) -> Seq<char> {
    if mode == 0 {
        "size"@
    } else {
        "resolution"@
    }
}

/// Whether generated audio is to be switched on: the remembered choice,
/// otherwise the model's default, otherwise yes.
pub open spec fn audio_choice(model: JsonModel, draft: Option<JsonModel>) -> bool {
    let remembered = match expected_of(draft, "generate_audio"@) {
        Some(value) => value.as_bool(),
        None => None,
    };
    match remembered {
        Some(b) => b,
        None => match model.at("parameters"@).at("generate_audio"@).at("default"@).as_bool() {
            Some(b) => b,
            None => true,
        },
    }
}

/// Whether something remembered for the model is no longer offered.
pub open spec fn values_dropped(model: JsonModel, mode: i32, draft: Option<JsonModel>) -> bool {
    let ratio = if mode == 0 {
        None
    } else {
        expected_of(draft, "aspect_ratio"@)
    };
    let audio = mode != 0 && has_parameter(model, "generate_audio"@);
    ||| shown_option(model, "aspect_ratio"@, ratio).1
    ||| shown_option(model, size_name(mode), expected_of(draft, size_name(mode))).1
    ||| shown_option(model, "duration"@, expected_of(draft, "duration"@)).1
    ||| shown_option(model, "quality"@, expected_of(draft, "quality"@)).1
    ||| shown_option(model, "quantity"@, expected_of(draft, "quantity"@)).1
    ||| expected_of(draft, "generate_audio"@) is Some && !audio
}

/// How many references a model takes.
pub open spec fn reference_limit(model: JsonModel) -> int {
    match model.at("parameters"@).at("reference_asset_ids"@).at("max_items"@).as_i64() {
        Some(n) => n as int,
        None => 0,
    }
}

pub open spec fn limit_text(mode: i32, limit: int) -> Seq<char> {
    if mode != 0 {
        "全能参考 · 最多 "@ + signed_decimal(limit)
            + " 项\n图片 PNG/JPG/WebP，视频 MP4/MOV，音频 MP3/WAV\n视频、音频各最多 3 项，各累计 2–15 秒；音频需搭配图片或视频"@
    } else {
        "PNG / JPG / WebP · 最多 "@ + signed_decimal(limit) + " 张"@
    }
}

/// The form as it shows a model of a list, without its warnings.
pub open spec fn form_showing(
    form: FormView,
    list: Seq<JsonModel>,
    index: i32,
    draft: Option<JsonModel>,
) -> FormView {
    let mode = form.mode;
    let model = model_at(list, index);
    let ratio = if mode == 0 {
        None
    } else {
        expected_of(draft, "aspect_ratio"@)
    };
    FormView {
        mode,
        model_index: index,
        ratio_index: shown_option(model, "aspect_ratio"@, ratio).0,
        resolution_index: shown_option(
            model,
            size_name(mode),
            expected_of(draft, size_name(mode)),
        ).0,
        duration_index: shown_option(model, "duration"@, expected_of(draft, "duration"@)).0,
        quality_index: shown_option(model, "quality"@, expected_of(draft, "quality"@)).0,
        quantity_index: shown_option(model, "quantity"@, expected_of(draft, "quantity"@)).0,
        generate_audio: audio_choice(model, draft),
        model_names: names_of(list),
        ratios: labels_of(model, "aspect_ratio"@),
        resolutions: labels_of(model, size_name(mode)),
        durations: labels_of(model, "duration"@),
        qualities: labels_of(model, "quality"@),
        quantities: labels_of(model, "quantity"@),
        supports_generation_audio: mode != 0 && has_parameter(model, "generate_audio"@),
        accepts_references: reference_limit(model) > 0,
        reference_max: reference_limit(model) as i32,
        reference_limit: limit_text(mode, reference_limit(model)),
        recovery_warning: form.recovery_warning,
        error: form.error,
    }
}

/// The form with a warning that is also shown as the error.
pub open spec fn warned(form: FormView, message: Seq<char>) -> FormView {
    FormView { recovery_warning: message, error: message, ..form }
}

/// The form without its warning; an error that repeats it goes as well.
pub open spec fn unwarned(form: FormView) -> FormView {
    FormView {
        recovery_warning: ""@,
        error: if form.error == form.recovery_warning {
            ""@
        } else {
            form.error
        },
        ..form
    }
}

/// The form and the catalog after the options have been updated.
pub open spec fn options_updated(
    form: FormView,
    catalog: CatalogView,
    references: Seq<JsonModel>,
    preserve: bool,
) -> (FormView, CatalogView) {
    let kind = kind_of(form.mode);
    let before = captured(form, catalog, preserve);
    let list = of_kind(before.models, kind);
    let desired = desired_id(form, catalog.generation_mode, before, preserve);
    let unavailable = is_unavailable(before, kind, desired);
    let draft = match desired {
        Some(id) => before.draft(form.mode, id),
        None => None,
    };
    let index = chosen_index(list, form.mode, desired, unavailable);
    let model = model_at(list, index);
    let replaced_model = desired is Some && !any(list, text_is("id"@, desired->0)) && !unavailable;
    let shown = form_showing(form, list, index, draft);
    let live = if model.text("id"@).len() > 0 {
        Some(model.text("id"@))
    } else {
        desired
    };
    let chosen = match live {
        Some(id) => before.with_selected(form.mode, id),
        None => before,
    };
    let settled = !unavailable && index >= 0;
    let after = CatalogView {
        generation_mode: Some(form.mode),
        unavailable_model_id: if settled {
            None
        } else {
            before.unavailable_model_id
        },
        ..chosen
    };
    let finished = if replaced_model {
        warned(shown, "当前模型已下线，已切换到可用模型并保留可用参数"@)
    } else if values_dropped(model, form.mode, draft) {
        warned(shown, "当前模型不再支持部分已保存参数，已恢复可用默认值"@)
    } else if settled && !any(references, crate::lists::text_is_not("status"@, "ready"@))
        && contains_text(form.recovery_warning, "模型"@) {
        unwarned(shown)
    } else {
        shown
    };
    (finished, after)
}

fn labels(model: &Json, name: &str) -> (r: Vec<String>)
    ensures
        views(r@) == labels_of(model@, name@),
{
    let values: Vec<Json> = offered_values(model, name);
    let ghost all = models(values@);
    let mut out: Vec<String> = Vec::new();
    let mut i: usize = 0;
    while i < values.len()
        invariant
            i <= values.len(),
            all == models(values@),
            all == offered(model@, name@),
            out@.len() == i,
            forall|j: int| 0 <= j < i ==> (#[trigger] out@[j])@ == label_of(name@, all[j]),
        decreases values.len() - i,
    {
        proof {
            assert(all[i as int] == values@[i as int]@);
        }
        out.push(parameter_label(name, &values[i]));
        i = i + 1;
    }
    proof {
        assert(views(out@) =~= labels_of(model@, name@));
    }
    out
}

fn shown_names(list: &Vec<Json>) -> (r: Vec<String>)
    ensures
        views(r@) == names_of(models(list@)),
{
    let ghost all = models(list@);
    let mut out: Vec<String> = Vec::new();
    let mut i: usize = 0;
    while i < list.len()
        invariant
            i <= list.len(),
            all == models(list@),
            out@.len() == i,
            forall|j: int| 0 <= j < i ==> (#[trigger] out@[j])@ == shown_name(all[j]),
        decreases list.len() - i,
    {
        proof {
            assert(all[i as int] == list@[i as int]@);
        }
        let label: String = list[i].text("display_name");
        if label.as_str().is_empty() {
            out.push(list[i].text("id"));
        } else {
            out.push(label);
        }
        i = i + 1;
    }
    proof {
        assert(views(out@) =~= names_of(all));
    }
    out
}

fn expected_value<'a>(draft: &'a Option<Json>, name: &str) -> (r: Option<&'a Json>)
    ensures
        opt_model(r) == expected_of(
            match *draft {
                Some(j) => Some(j@),
                None => None,
            },
            name@,
        ),
{
    match draft {
        Some(values) => values.get(name),
        None => None,
    }
}

fn model_at_index(list: &Vec<Json>, index: i32) -> (r: Json)
    ensures
        r@ == model_at(models(list@), index),
{
    if index < 0 || index as usize >= list.len() {
        return Json::Null;
    }
    proof {
        assert(models(list@)[index as int] == list@[index as int]@);
    }
    list[index as usize].copy()
}

fn find_desired(
    form: &GenerationForm,
    previous_mode: Option<i32>,
    catalog: &Catalog,
    preserve: bool,
) -> (r: Option<String>)
    ensures
        opt(r) == desired_id(form@, previous_mode, catalog@, preserve),
{
    let current: Option<String> = model_id_at_index(&catalog.models, form.mode, form.model_index);
    let chosen: Option<String> = catalog.selected(form.mode);
    let stays: bool = match previous_mode {
        Some(mode) => mode == form.mode,
        None => false,
    };
    let id: Option<String> = if preserve {
        chosen
    } else if stays {
        if current.is_some() {
            current
        } else {
            chosen
        }
    } else if chosen.is_some() {
        chosen
    } else {
        current
    };
    match id {
        Some(text) => if text.as_str().is_empty() {
            None
        } else {
            Some(text)
        },
        None => None,
    }
}

fn opt_is(s: &Option<String>, t: &str) -> (r: bool)
    ensures
        r == (opt(*s) == Some(t@)),
{
    match s {
        Some(x) => same(x.as_str(), t),
        None => false,
    }
}

fn pick_index(
    list: &Vec<Json>,
    mode: i32,
    desired: &Option<String>,
    unavailable: bool,
) -> (r: i32)
    ensures
        r == chosen_index(models(list@), mode, opt(*desired), unavailable),
{
    if unavailable {
        return -1;
    }
    match desired {
        Some(id) => match stable_model_index(list, mode, id.as_str()) {
            Some(i) => i,
            None => if list.len() > 0 {
                0
            } else {
                -1
            },
        },
        None => if list.len() > 0 {
            0
        } else {
            -1
        },
    }
}

fn find_unavailable(
    catalog: &Catalog,
    kind: &str,
    desired: &Option<String>,
    known: bool,
) -> (r: bool)
    requires
        known == (desired is Some && any(
            of_kind(catalog@.models, kind@),
            text_is("id"@, desired->0@),
        )),
    ensures
        r == is_unavailable(catalog@, kind@, opt(*desired)),
{
    match desired {
        Some(id) => !known && opt_is(&catalog.unavailable_model_id, id.as_str()),
        None => opt_is(&catalog.unavailable_model_kind, kind)
            && catalog.unavailable_model_id.is_some(),
    }
}

/// The view of an optional document.
pub open spec fn opt_json(v: Option<Json>) -> Option<JsonModel> {
    match v {
        Some(j) => Some(j@),
        None => None,
    }
}

fn find_audio(model: &Json, draft: &Option<Json>) -> (r: bool)
    ensures
        r == audio_choice(model@, opt_json(*draft)),
{
    let remembered: Option<bool> = match expected_value(draft, "generate_audio") {
        Some(value) => value.as_bool(),
        None => None,
    };
    match remembered {
        Some(b) => b,
        None => match model.at("parameters").at("generate_audio").at("default").as_bool() {
            Some(b) => b,
            None => true,
        },
    }
}

fn find_limit(model: &Json) -> (r: i64)
    ensures
        r == reference_limit(model@),
{
    match model.at("parameters").at("reference_asset_ids").at("max_items").as_i64() {
        Some(n) => n,
        None => 0,
    }
}

fn write_limit(mode: i32, limit: i64) -> (r: String)
    ensures
        r@ == limit_text(mode, limit as int),
{
    let digits: String = to_signed_decimal(limit);
    if mode != 0 {
        cat3(
            "全能参考 · 最多 ",
            digits.as_str(),
            " 项\n图片 PNG/JPG/WebP，视频 MP4/MOV，音频 MP3/WAV\n视频、音频各最多 3 项，各累计 2–15 秒；音频需搭配图片或视频",
        )
    } else {
        cat3("PNG / JPG / WebP · 最多 ", digits.as_str(), " 张")
    }
}

/// Shows the model at `index` of a list; the result says whether something
/// remembered for it is no longer offered.
fn show_model(
    form: &mut GenerationForm,
    list: &Vec<Json>,
    index: i32,
    draft: &Option<Json>,
) -> (dropped: bool)
    ensures
        final(form)@ == form_showing(old(form)@, models(list@), index, opt_json(*draft)),
        dropped == values_dropped(
            model_at(models(list@), index),
            old(form).mode,
            opt_json(*draft),
        ),
{
    let mode: i32 = form.mode;
    let model: Json = model_at_index(list, index);
    let size: &'static str = if mode == 0 {
        "size"
    } else {
        "resolution"
    };
    let ratio: Option<&Json> = if mode == 0 {
        None
    } else {
        expected_value(draft, "aspect_ratio")
    };
    let shown_ratio: (i32, bool) = option_index(&model, "aspect_ratio", ratio);
    let shown_size: (i32, bool) = option_index(&model, size, expected_value(draft, size));
    let shown_duration: (i32, bool) = option_index(
        &model,
        "duration",
        expected_value(draft, "duration"),
    );
    let shown_quality: (i32, bool) = option_index(
        &model,
        "quality",
        expected_value(draft, "quality"),
    );
    let shown_quantity: (i32, bool) = option_index(
        &model,
        "quantity",
        expected_value(draft, "quantity"),
    );
    let supports_audio: bool = mode != 0 && has_param(&model, "generate_audio");
    let audio_expected: bool = expected_value(draft, "generate_audio").is_some();
    let limit: i64 = find_limit(&model);
    form.model_names = shown_names(list);
    form.model_index = index;
    form.ratios = labels(&model, "aspect_ratio");
    form.resolutions = labels(&model, size);
    form.durations = labels(&model, "duration");
    form.qualities = labels(&model, "quality");
    form.quantities = labels(&model, "quantity");
    form.ratio_index = shown_ratio.0;
    form.resolution_index = shown_size.0;
    form.duration_index = shown_duration.0;
    form.quality_index = shown_quality.0;
    form.quantity_index = shown_quantity.0;
    form.supports_generation_audio = supports_audio;
    form.generate_audio = find_audio(&model, draft);
    form.accepts_references = limit > 0;
    form.reference_max = limit as i32;
    form.reference_limit = write_limit(mode, limit);
    shown_ratio.1 || shown_size.1 || shown_duration.1 || shown_quality.1 || shown_quantity.1 || (
    audio_expected && !supports_audio)
}

/// Takes the warning off the form, and the error that repeats it.
pub fn clear_warning(form: &mut GenerationForm)
    ensures
        final(form)@ == unwarned(old(form)@),
{
    let repeats: bool = same(form.error.as_str(), form.recovery_warning.as_str());
    form.recovery_warning = "".to_owned();
    if repeats {
        form.error = "".to_owned();
    }
}

/// Shows a warning, also as the error.
pub fn set_recovery_warning(form: &mut GenerationForm, warning: &str)
    ensures
        final(form)@ == warned(old(form)@, warning@),
{
    form.recovery_warning = warning.to_owned();
    form.error = warning.to_owned();
}

/// Updates the lists, indices and warnings of the form for the catalog and
/// the remembered choices. `preserve` is set where the catalog has just been
/// replaced, so that the indices of the form say nothing of the choice.
pub fn update_model_options_inner(
    form: &mut GenerationForm,
    catalog: &mut Catalog,
    references: &Vec<Json>,
    preserve: bool,
) -> (r: bool)
    ensures
        r == !old(catalog).updating_model_options,
        !r ==> *final(form) == *old(form) && *final(catalog) == *old(catalog),
        r ==> (final(form)@, final(catalog)@) == options_updated(
            old(form)@,
            old(catalog)@,
            models(references@),
            preserve,
        ),
{
    if catalog.updating_model_options {
        return false;
    }
    let ghost form0 = form@;
    let ghost catalog0 = catalog@;
    let mode: i32 = form.mode;
    let kind: &'static str = model_kind(mode);
    let previous_mode: Option<i32> = catalog.generation_mode;
    if let Some(previous) = previous_mode {
        if !preserve {
            if let Some(id) = find_shown_id(catalog, previous, form.model_index) {
                remember_model_draft(form, catalog, previous, id.as_str());
            }
        }
    }
    let ghost before = catalog@;
    assert(before == captured(form0, catalog0, preserve));
    let list: Vec<Json> = keep_text(&catalog.models, "kind", kind);
    let desired: Option<String> = find_desired(form, previous_mode, catalog, preserve);
    let known: bool = match &desired {
        Some(id) => any_text(&list, "id", id.as_str()),
        None => false,
    };
    let unavailable: bool = find_unavailable(catalog, kind, &desired, known);
    let draft: Option<Json> = match &desired {
        Some(id) => catalog.draft(mode, id.as_str()),
        None => None,
    };
    let index: i32 = pick_index(&list, mode, &desired, unavailable);
    let model: Json = model_at_index(&list, index);
    let replaced_model: bool = desired.is_some() && !known && !unavailable;
    let dropped: bool = show_model(form, &list, index, &draft);
    let live: String = model.text("id");
    if !live.as_str().is_empty() {
        catalog.set_selected(mode, live.as_str());
    } else if let Some(id) = &desired {
        catalog.set_selected(mode, id.as_str());
    }
    catalog.generation_mode = Some(mode);
    let settled: bool = !unavailable && index >= 0;
    if settled {
        catalog.unavailable_model_id = None;
    }
    if replaced_model {
        set_recovery_warning(form, "当前模型已下线，已切换到可用模型并保留可用参数");
    } else if dropped {
        set_recovery_warning(form, "当前模型不再支持部分已保存参数，已恢复可用默认值");
    } else if settled && !crate::lists::any_text_not(references, "status", "ready") && contains(
        form.recovery_warning.as_str(),
        "模型",
    ) {
        clear_warning(form);
    }
    true
}

/// Updates the form after the user has changed it.
pub fn update_model_options(
    form: &mut GenerationForm,
    catalog: &mut Catalog,
    references: &Vec<Json>,
) -> (r: bool)
    ensures
        r == !old(catalog).updating_model_options,
        !r ==> *final(form) == *old(form) && *final(catalog) == *old(catalog),
        r ==> (final(form)@, final(catalog)@) == options_updated(
            old(form)@,
            old(catalog)@,
            models(references@),
            false,
        ),
{
    update_model_options_inner(form, catalog, references, false)
}

/// Updates the form after a new catalog has arrived.
pub fn update_model_options_preserving_catalog(
    form: &mut GenerationForm,
    catalog: &mut Catalog,
    references: &Vec<Json>,
) -> (r: bool)
    ensures
        r == !old(catalog).updating_model_options,
        !r ==> *final(form) == *old(form) && *final(catalog) == *old(catalog),
        r ==> (final(form)@, final(catalog)@) == options_updated(
            old(form)@,
            old(catalog)@,
            models(references@),
            true,
        ),
{
    update_model_options_inner(form, catalog, references, true)
}

/// The catalog with a saved configuration as the choice of its mode; the form
/// is remembered first.
pub open spec fn configured(
    form: FormView,
    catalog: CatalogView,
    mode: i32,
    id: Seq<char>,
    parameters: JsonModel,
) -> CatalogView {
    let before = current_remembered(form, catalog);
    let chosen = before.with_selected(mode, id);
    let drafted = if id.len() > 0 {
        CatalogView {
            parameter_drafts: replaced(chosen.parameter_drafts, draft_key(mode, id), parameters),
            ..chosen
        }
    } else {
        chosen
    };
    let available = any(before.models, is_model(kind_of(mode), id));
    CatalogView {
        generation_mode: Some(mode),
        updating_model_options: false,
        unavailable_model_id: if available {
            None
        } else {
            Some(id)
        },
        unavailable_model_kind: if available {
            None
        } else {
            Some(kind_of(mode))
        },
        ..drafted
    }
}

/// Shows a saved template or task: its model by id, its parameters by value.
pub fn update_model_options_for_configuration(
    form: &mut GenerationForm,
    catalog: &mut Catalog,
    references: &Vec<Json>,
    mode: i32,
    model_id: &str,
    parameters: &Json,
)
    ensures
        (final(form)@, final(catalog)@) == options_updated(
            FormView { mode, ..old(form)@ },
            configured(old(form)@, old(catalog)@, mode, model_id@, parameters@),
            models(references@),
            true,
        ),
{
    remember_current_model_draft(form, catalog);
    let kind: &'static str = model_kind(mode);
    proof {
        first_where_any(catalog@.models, is_model(kind_of(mode), model_id@));
    }
    let available: bool = model_by_id(&catalog.models, kind, model_id).is_some();
    catalog.generation_mode = Some(mode);
    catalog.set_selected(mode, model_id);
    if !model_id.is_empty() {
        catalog.set_draft(mode, model_id, parameters.copy());
    }
    catalog.unavailable_model_id = if available {
        None
    } else {
        Some(model_id.to_owned())
    };
    catalog.unavailable_model_kind = if available {
        None
    } else {
        Some(kind.to_owned())
    };
    catalog.updating_model_options = false;
    form.mode = mode;
    let ghost start = form@;
    let ghost configured_catalog = catalog@;
    let done: bool = update_model_options_inner(form, catalog, references, true);
}

/// A catalog that has the remembered model shows it, wherever it stands in the
/// catalog: the index of the form leads to a model of that id, and that id
/// stays the choice.
pub proof fn catalog_order_keeps_the_chosen_model(
    form: FormView,
    catalog: CatalogView,
    references: Seq<JsonModel>,
    id: Seq<char>,
)
    requires
        catalog.selected(form.mode) == Some(id),
        id.len() > 0,
        any(of_kind(catalog.models, kind_of(form.mode)), text_is("id"@, id)),
        catalog.models.len() <= i32::MAX,
    ensures
        ({
            let (shown, after) = options_updated(form, catalog, references, true);
            let list = of_kind(catalog.models, kind_of(form.mode));
            &&& 0 <= shown.model_index < list.len()
            &&& list[shown.model_index as int].text("id"@) == id
            &&& after.selected(form.mode) == Some(id)
        }),
{
    let kind = kind_of(form.mode);
    let list = of_kind(catalog.models, kind);
    let by_kind = text_is("kind"@, kind);
    let p = text_is("id"@, id);
    crate::lists::kept_len(catalog.models, by_kind);
    kept_twice(catalog.models, by_kind);
    assert(of_kind(list, kind) == list);
    first_where_any(list, p);
    crate::lists::first_from_found(list, p, 0);
}

/// Filtering twice by the same condition changes nothing.
proof fn kept_twice(v: Seq<JsonModel>, p: spec_fn(JsonModel) -> bool)
    ensures
        kept(kept(v, p), p) == kept(v, p),
    decreases v.len(),
{
    if v.len() > 0 {
        kept_twice(v.drop_last(), p);
        let before = kept(v.drop_last(), p);
        if p(v.last()) {
            assert(before.push(v.last()).drop_last() =~= before);
        }
    }
}

/// A remembered value that the model still offers is shown by the index of
/// that very value.
pub proof fn offered_value_is_kept(model: JsonModel, name: Seq<char>, value: JsonModel)
    requires
        model.text("id"@).len() > 0,
        any(offered(model, name), is_value(value)),
        offered(model, name).len() <= i32::MAX,
    ensures
        ({
            let (index, dropped) = shown_option(model, name, Some(value));
            value_at(model, name, index) == value && !dropped
        }),
{
    first_where_any(offered(model, name), is_value(value));
    crate::lists::first_from_found(offered(model, name), is_value(value), 0);
}

} // verus!
