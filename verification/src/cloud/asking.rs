//! What the form of a generation shows, keeps and asks for, seen from outside.

use crate::cloud::catalog::{
    captured, chosen_index, desired_id, draft_key, expected_of, form_showing, form_values, has_parameter,
    is_unavailable, is_value, kind_of, label_of, labels_of, model_at, model_named, names_of, of_kind, offered, offered_value_is_kept,
    options_updated, remembered, selected_id, shown_option, size_name, unwarned, value_at,
    warned, with_value, CatalogView, FormView,
};
use crate::cloud::generation::{
    form_reference_fault, generation_of, quote_answered, quote_refreshed, sent_prompt, QuoteView,
};
use crate::cloud::mentions::{pieces, rendered, token_text, Piece};
use crate::cloud::references::{
    accepts, add_fault, has_label, kind_of_path, label_of_kind, model_with_id, most_items,
    most_of_kind, number_of, references_fault,
};
use crate::json::{replaced_lookup, set_members_are_found, JsonModel};
use crate::lists::{any, count, kept, text_is, text_is_not};
use crate::paths::extension_of;
use crate::text::{ascii_lowercase, decimal, trimmed};
use vstd::prelude::*;

verus! {

/// The names of the parameters are told apart.
proof fn parameter_names()
    ensures
        "aspect_ratio"@.len() == 12,
        "resolution"@.len() == 10,
        "size"@.len() == 4,
        "duration"@.len() == 8 && "duration"@[0] == 'd',
        "quality"@.len() == 7,
        "quantity"@.len() == 8 && "quantity"@[0] == 'q',
        "generate_audio"@.len() == 14,
{
    reveal_strlit("aspect_ratio");
    reveal_strlit("resolution");
    reveal_strlit("size");
    reveal_strlit("duration");
    reveal_strlit("quality");
    reveal_strlit("quantity");
    reveal_strlit("generate_audio");
}

/// The media are told apart.
pub(crate) proof fn media_differ()
    ensures
        "image"@ != "video"@,
        "image"@ != "audio"@,
        "video"@ != "audio"@,
        "unsupported"@ != "image"@,
        "unsupported"@ != "video"@,
        "unsupported"@ != "audio"@,
        ""@.len() == 0,
        "image"@.len() == 5,
        "video"@.len() == 5,
        "audio"@.len() == 5,
{
    reveal_strlit("");
    reveal_strlit("image");
    reveal_strlit("video");
    reveal_strlit("audio");
    reveal_strlit("unsupported");
    assert("image"@[0] == 'i');
    assert("video"@[0] == 'v');
    assert("audio"@[0] == 'a');
}

/// The lists of a form after it was brought up to date.
#[verifier::rlimit(60)]
proof fn shown_lists(
    form: FormView,
    catalog: CatalogView,
    references: Seq<JsonModel>,
    preserve: bool,
)
    ensures
        ({
            let shown = options_updated(form, catalog, references, preserve).0;
            let list = of_kind(catalog.models, kind_of(form.mode));
            let model = model_at(list, shown.model_index);
            &&& shown.mode == form.mode
            &&& shown.model_names == names_of(list)
            &&& shown.ratios == labels_of(model, "aspect_ratio"@)
            &&& shown.durations == labels_of(model, "duration"@)
            &&& shown.qualities == labels_of(model, "quality"@)
            &&& shown.quantities == labels_of(model, "quantity"@)
            &&& shown.resolutions == labels_of(model, size_name(form.mode))
            &&& shown.supports_generation_audio == (form.mode != 0 && has_parameter(
                model,
                "generate_audio"@,
            ))
        }),
{
    captured_models(form, catalog, preserve);
    let before = captured(form, catalog, preserve);
    let kind = kind_of(form.mode);
    let list = of_kind(before.models, kind);
    let desired = desired_id(form, catalog.generation_mode, before, preserve);
    let draft = match desired {
        Some(id) => before.draft(form.mode, id),
        None => None,
    };
    let index = chosen_index(list, form.mode, desired, is_unavailable(before, kind, desired));
    let plain = form_showing(form, list, index, draft);
    let shown = options_updated(form, catalog, references, preserve).0;
    assert(shown == unwarned(plain) || shown == plain || shown == warned(
        plain,
        shown.recovery_warning,
    ));
}

proof fn captured_models(form: FormView, catalog: CatalogView, preserve: bool)
    ensures
        captured(form, catalog, preserve).models == catalog.models,
{
}

/// How an entry that is a text is shown.
proof fn text_label(name: Seq<char>, text: Seq<char>)
    ensures
        name == "aspect_ratio"@ || name == "resolution"@ || name == "quantity"@ ==> label_of(
            name,
            JsonModel::Text(text),
        ) == text,
        name == "duration"@ ==> label_of(name, JsonModel::Text(text)) == text + " 秒"@,
        name == "quality"@ && text != "high"@ ==> label_of(name, JsonModel::Text(text)) == text,
{
    parameter_names();
}

/// The lists of the form are those of the model that it shows, each the list of
/// its own parameter, entry by entry: the ratios and resolutions as they are
/// written, the durations in seconds. A picture has sizes in the place of
/// resolutions.
pub proof fn forms_list_what_the_model_offers(
    form: FormView,
    catalog: CatalogView,
    references: Seq<JsonModel>,
    preserve: bool,
    i: int,
)
    ensures
        ({
            let shown = options_updated(form, catalog, references, preserve).0;
            let list = kept(
                catalog.models,
                text_is(
                    "kind"@,
                    if form.mode == 0 {
                        "image"@
                    } else {
                        "video"@
                    },
                ),
            );
            let model = list[shown.model_index as int];
            let parameters = model.at("parameters"@);
            let ratios = parameters.at("aspect_ratio"@).list("values"@);
            let durations = parameters.at("duration"@).list("values"@);
            let qualities = parameters.at("quality"@).list("values"@);
            let quantities = parameters.at("quantity"@).list("values"@);
            let resolutions = parameters.at("resolution"@).list("values"@);
            let sizes = parameters.at("size"@).list("values"@);
            &&& shown.mode == form.mode
            &&& shown.model_names.len() == list.len()
            &&& 0 <= i < list.len() && list[i].text("display_name"@).len() > 0
                ==> shown.model_names[i] == list[i].text("display_name"@)
            &&& 0 <= i < list.len() && list[i].text("display_name"@).len() == 0
                ==> shown.model_names[i] == list[i].text("id"@)
            &&& 0 <= shown.model_index < list.len() ==> {
                &&& shown.ratios.len() == ratios.len()
                &&& 0 <= i < ratios.len() && ratios[i] is Text ==> shown.ratios[i]
                    == ratios[i]->Text_0
                &&& shown.durations.len() == durations.len()
                &&& 0 <= i < durations.len() && durations[i] is Text ==> shown.durations[i]
                    == durations[i]->Text_0 + " 秒"@
                &&& shown.qualities.len() == qualities.len()
                &&& 0 <= i < qualities.len() && qualities[i] is Text && qualities[i]->Text_0
                    != "high"@ ==> shown.qualities[i] == qualities[i]->Text_0
                &&& shown.quantities.len() == quantities.len()
                &&& 0 <= i < quantities.len() && quantities[i] is Text ==> shown.quantities[i]
                    == quantities[i]->Text_0
                &&& form.mode != 0 ==> shown.resolutions.len() == resolutions.len()
                &&& form.mode != 0 && 0 <= i < resolutions.len() && resolutions[i] is Text
                    ==> shown.resolutions[i] == resolutions[i]->Text_0
                &&& form.mode == 0 ==> shown.resolutions.len() == sizes.len()
                &&& shown.supports_generation_audio == (form.mode != 0 && parameters.get(
                    "generate_audio"@,
                ) is Some)
            }
        }),
{
    shown_lists(form, catalog, references, preserve);
    let shown = options_updated(form, catalog, references, preserve).0;
    let list = of_kind(catalog.models, kind_of(form.mode));
    let model = list[shown.model_index as int];
    if 0 <= shown.model_index < list.len() {
        text_entries(model, "aspect_ratio"@, i);
        text_entries(model, "duration"@, i);
        text_entries(model, "quality"@, i);
        text_entries(model, "quantity"@, i);
        text_entries(model, "resolution"@, i);
    }
}

proof fn text_entries(model: JsonModel, name: Seq<char>, i: int)
    ensures
        ({
            let values = model.at("parameters"@).at(name).list("values"@);
            let shown = labels_of(model, name);
            &&& shown.len() == values.len()
            &&& 0 <= i < values.len() && values[i] is Text ==> {
                &&& name == "aspect_ratio"@ || name == "resolution"@ || name == "quantity"@
                    ==> shown[i] == values[i]->Text_0
                &&& name == "duration"@ ==> shown[i] == values[i]->Text_0 + " 秒"@
                &&& name == "quality"@ && values[i]->Text_0 != "high"@ ==> shown[i]
                    == values[i]->Text_0
            }
        }),
{
    let values = model.at("parameters"@).at(name).list("values"@);
    if 0 <= i < values.len() && values[i] is Text {
        text_label(name, values[i]->Text_0);
    }
}

/// A parameter of a form that was put away is found again: the entry that is
/// then shown has the value that was chosen.
proof fn value_comes_back(model: JsonModel, name: Seq<char>, index: i32, draft: JsonModel)
    requires
        model.text("id"@).len() > 0,
        0 <= index < offered(model, name).len() <= i32::MAX,
        draft.get(name) == Some(offered(model, name)[index as int]),
    ensures
        value_at(model, name, shown_option(model, name, expected_of(Some(draft), name)).0)
            == offered(model, name)[index as int],
        !shown_option(model, name, expected_of(Some(draft), name)).1,
{
    let value = offered(model, name)[index as int];
    assert(is_value(value)(offered(model, name)[index as int]));
    offered_value_is_kept(model, name, value);
}

/// What a form puts away.
proof fn put_away(form: FormView, model: JsonModel, mode: i32)
    requires
        0 <= form.resolution_index < offered(model, "size"@).len() || mode != 0,
        0 <= form.resolution_index < offered(model, "resolution"@).len() || mode == 0,
    ensures
        ({
            let values = form_values(form, model, mode);
            let size = value_at(model, "size"@, form.resolution_index);
            let quality = value_at(model, "quality"@, form.quality_index);
            let resolution = value_at(model, "resolution"@, form.resolution_index);
            let duration = value_at(model, "duration"@, form.duration_index);
            let ratio = value_at(model, "aspect_ratio"@, form.ratio_index);
            let quantity = value_at(model, "quantity"@, form.quantity_index);
            &&& mode == 0 && !(size is Null) ==> values.get("size"@) == Some(size)
            &&& mode == 0 && !(quality is Null) ==> values.get("quality"@) == Some(quality)
            &&& mode != 0 && !(resolution is Null) ==> values.get("resolution"@) == Some(resolution)
            &&& mode != 0 && !(duration is Null) ==> values.get("duration"@) == Some(duration)
            &&& mode != 0 && !(ratio is Null) ==> values.get("aspect_ratio"@) == Some(ratio)
            &&& has_parameter(model, "generate_audio"@) ==> values.get("generate_audio"@) == Some(
                JsonModel::Bool(form.generate_audio),
            )
            &&& has_parameter(model, "quantity"@) && !(quantity is Null) ==> values.get(
                "quantity"@,
            ) == Some(quantity)
        }),
{
    parameter_names();
    let size = value_at(model, "size"@, form.resolution_index);
    let quality = value_at(model, "quality"@, form.quality_index);
    let resolution = value_at(model, "resolution"@, form.resolution_index);
    let duration = value_at(model, "duration"@, form.duration_index);
    let ratio = value_at(model, "aspect_ratio"@, form.ratio_index);
    let quantity = value_at(model, "quantity"@, form.quantity_index);
    let none = JsonModel::Object(Seq::<(Seq<char>, JsonModel)>::empty());
    let named = if mode == 0 {
        let a = with_value(none, "size"@, size);
        set_members_are_found(none, "size"@, size);
        set_members_are_found(a, "quality"@, quality);
        with_value(a, "quality"@, quality)
    } else {
        let a = with_value(none, "resolution"@, resolution);
        let b = with_value(a, "duration"@, duration);
        set_members_are_found(none, "resolution"@, resolution);
        set_members_are_found(a, "duration"@, duration);
        set_members_are_found(b, "aspect_ratio"@, ratio);
        with_value(b, "aspect_ratio"@, ratio)
    };
    set_members_are_found(named, "generate_audio"@, JsonModel::Bool(form.generate_audio));
    let audio = if has_parameter(model, "generate_audio"@) {
        named.with("generate_audio"@, JsonModel::Bool(form.generate_audio))
    } else {
        named
    };
    set_members_are_found(audio, "quantity"@, quantity);
}

/// A form that goes to another model and comes back shows what it showed: each
/// choice that was put away for a video model is chosen again.
pub proof fn video_drafts_come_back(
    form: FormView,
    catalog: CatalogView,
    id: Seq<char>,
    list: Seq<JsonModel>,
    index: i32,
)
    requires
        form.mode != 0,
        id.len() > 0,
        0 <= index < list.len(),
        model_named(catalog.models, "video"@, id) == Some(list[index as int]),
        list[index as int].text("id"@) == id,
        0 <= form.resolution_index < offered(list[index as int], "resolution"@).len() <= i32::MAX,
        0 <= form.duration_index < offered(list[index as int], "duration"@).len() <= i32::MAX,
        0 <= form.ratio_index < offered(list[index as int], "aspect_ratio"@).len() <= i32::MAX,
        !(value_at(list[index as int], "resolution"@, form.resolution_index) is Null),
        !(value_at(list[index as int], "duration"@, form.duration_index) is Null),
        !(value_at(list[index as int], "aspect_ratio"@, form.ratio_index) is Null),
    ensures
        ({
            let model = list[index as int];
            let kept_catalog = remembered(form, catalog, form.mode, id);
            let again = form_showing(form, list, index, kept_catalog.draft(form.mode, id));
            &&& kept_catalog.selected(form.mode) == Some(id)
            &&& value_at(model, "resolution"@, again.resolution_index) == value_at(
                model,
                "resolution"@,
                form.resolution_index,
            )
            &&& value_at(model, "duration"@, again.duration_index) == value_at(
                model,
                "duration"@,
                form.duration_index,
            )
            &&& value_at(model, "aspect_ratio"@, again.ratio_index) == value_at(
                model,
                "aspect_ratio"@,
                form.ratio_index,
            )
            &&& has_parameter(model, "generate_audio"@) ==> again.generate_audio
                == form.generate_audio
        }),
{
    let model = list[index as int];
    let draft = form_values(form, model, form.mode);
    put_away(form, model, form.mode);
    replaced_lookup(
        catalog.parameter_drafts,
        draft_key(form.mode, id),
        draft,
        draft_key(form.mode, id),
    );
    value_comes_back(model, "resolution"@, form.resolution_index, draft);
    value_comes_back(model, "duration"@, form.duration_index, draft);
    value_comes_back(model, "aspect_ratio"@, form.ratio_index, draft);
}

/// The same of a picture model: its size and its quality.
pub proof fn picture_drafts_come_back(
    form: FormView,
    catalog: CatalogView,
    id: Seq<char>,
    list: Seq<JsonModel>,
    index: i32,
)
    requires
        form.mode == 0,
        id.len() > 0,
        0 <= index < list.len(),
        model_named(catalog.models, "image"@, id) == Some(list[index as int]),
        list[index as int].text("id"@) == id,
        0 <= form.resolution_index < offered(list[index as int], "size"@).len() <= i32::MAX,
        0 <= form.quality_index < offered(list[index as int], "quality"@).len() <= i32::MAX,
        !(value_at(list[index as int], "size"@, form.resolution_index) is Null),
        !(value_at(list[index as int], "quality"@, form.quality_index) is Null),
    ensures
        ({
            let model = list[index as int];
            let kept_catalog = remembered(form, catalog, form.mode, id);
            let again = form_showing(form, list, index, kept_catalog.draft(form.mode, id));
            &&& kept_catalog.selected(form.mode) == Some(id)
            &&& value_at(model, "size"@, again.resolution_index) == value_at(
                model,
                "size"@,
                form.resolution_index,
            )
            &&& value_at(model, "quality"@, again.quality_index) == value_at(
                model,
                "quality"@,
                form.quality_index,
            )
        }),
{
    let model = list[index as int];
    let draft = form_values(form, model, form.mode);
    put_away(form, model, form.mode);
    replaced_lookup(
        catalog.parameter_drafts,
        draft_key(form.mode, id),
        draft,
        draft_key(form.mode, id),
    );
    value_comes_back(model, "size"@, form.resolution_index, draft);
    value_comes_back(model, "quality"@, form.quality_index, draft);
}

/// Without anything put away a parameter starts at the model's default, where
/// the model offers it, and at its first value otherwise.
pub proof fn forms_start_at_the_default(model: JsonModel, name: Seq<char>)
    requires
        model.text("id"@).len() > 0,
        offered(model, name).len() <= i32::MAX,
    ensures
        ({
            let values = model.at("parameters"@).at(name).list("values"@);
            let wanted = model.at("parameters"@).at(name).at("default"@);
            let (index, dropped) = shown_option(model, name, None);
            &&& !dropped
            &&& values.contains(wanted) ==> 0 <= index < values.len() && values[index as int]
                == wanted
            &&& !values.contains(wanted) ==> index == 0
        }),
{
    let values = offered(model, name);
    let p = is_value(model.at("parameters"@).at(name).at("default"@));
    crate::lists::first_from_found(values, p, 0);
}

/// What is put away for one model touches no other: not another of its kind,
/// and not one of the other kind that has the same name.
pub proof fn drafts_are_kept_apart(
    form: FormView,
    catalog: CatalogView,
    mode: i32,
    id: Seq<char>,
    other_mode: i32,
    other: Seq<char>,
)
    requires
        (mode == 0) != (other_mode == 0) || id != other,
    ensures
        remembered(form, catalog, mode, id).draft(other_mode, other) == catalog.draft(
            other_mode,
            other,
        ),
        (mode == 0) != (other_mode == 0) ==> remembered(form, catalog, mode, id).selected(
            other_mode,
        ) == catalog.selected(other_mode),
{
    reveal_strlit("image");
    reveal_strlit("video");
    reveal_strlit(":");
    let a = draft_key(mode, id);
    let b = draft_key(other_mode, other);
    if (mode == 0) != (other_mode == 0) {
        assert(a[0] != b[0]);
    } else {
        assert(a.skip(6) =~= id);
        assert(b.skip(6) =~= other);
    }
    if let Some(model) = model_named(catalog.models, kind_of(mode), id) {
        replaced_lookup(catalog.parameter_drafts, a, form_values(form, model, mode), b);
    }
}

/// A quote is asked for what would be generated, and only where it could be:
/// somebody is signed in, the prompt is not blank and the references are in
/// order. The quote that was there is dropped.
pub proof fn quotes_are_asked_for_what_would_be_generated(
    quote: QuoteView,
    form: FormView,
    prompt: Seq<char>,
    catalog: CatalogView,
    references: Seq<JsonModel>,
    signed_in: bool,
)
    ensures
        ({
            let (now, asked) = quote_refreshed(
                quote,
                form,
                prompt,
                catalog,
                references,
                signed_in,
            );
            let fault = form_reference_fault(form, prompt, catalog, references);
            let body = generation_of(form, prompt, catalog, references);
            &&& !now.can_generate && now.credits is None && now.id.len() == 0 && now.text.len()
                == 0 && !now.insufficient
            &&& now.reference_error == fault
            &&& asked is Some <==> signed_in && trimmed(prompt).len() > 0 && fault.len() == 0
            &&& asked matches Some(r) ==> r.method == "POST"@ && r.path
                == "/api/generation/quote"@ && r.body == body.with(
                "kind"@,
                JsonModel::Text(
                    if form.mode == 0 {
                        "image"@
                    } else {
                        "video"@
                    },
                ),
            )
        }),
{
    reveal_strlit("");
}

/// A quote that counts says what the service asks: its number, its price, and
/// whether the balance covers it.
pub proof fn quotes_say_what_the_service_asks(
    quote: QuoteView,
    value: JsonModel,
    form: FormView,
    prompt: Seq<char>,
    catalog: CatalogView,
    references: Seq<JsonModel>,
    balance: i64,
    price: i64,
)
    requires
        value.at("client_request_body"@) == generation_of(form, prompt, catalog, references),
        value.at("credits"@).as_i64() == Some(price),
    ensures
        ({
            let (now, counted) = quote_answered(
                quote,
                value,
                form,
                prompt,
                catalog,
                references,
                false,
                Some(balance),
            );
            &&& counted
            &&& now.id == value.text("quote_id"@)
            &&& now.credits == Some(price)
            &&& now.insufficient <==> balance < price
            &&& now.can_generate <==> trimmed(prompt).len() > 0 && form_reference_fault(
                form,
                prompt,
                catalog,
                references,
            ).len() == 0
        }),
        !quote_answered(
            quote,
            value,
            form,
            prompt,
            catalog,
            references,
            true,
            Some(balance),
        ).1,
{
}

/// References that are in order are complete: a model is chosen, every one is
/// ready, there are no more than the model takes in all and of each kind, the
/// model takes each kind that is there, and sound does not stand alone.
pub proof fn references_in_order_fit_the_model(
    mode: i32,
    model_index: i32,
    reference_max: i32,
    prompt: Seq<char>,
    catalog: CatalogView,
    references: Seq<JsonModel>,
    i: int,
)
    requires
        references_fault(mode, model_index, reference_max, prompt, catalog, references).len() == 0,
        0 <= i < references.len(),
    ensures
        ({
            let id = selected_id(mode, model_index, catalog);
            let model = model_with_id(catalog.models, id);
            let kind = references[i].text("kind"@);
            let images = count(references, has_label("图片"@));
            let videos = count(references, has_label("视频"@));
            let sounds = count(references, has_label("音频"@));
            &&& id.len() > 0
            &&& references[i].text("status"@) == "ready"@
            &&& kind != "unknown"@
            &&& references.len() <= reference_max
            &&& exists|k: int|
                0 <= k < references.len() && (#[trigger] references[k]).text("kind"@) != "audio"@
            &&& images > 0 ==> accepts(model, "image"@)
            &&& videos > 0 ==> accepts(model, "video"@)
            &&& sounds > 0 ==> accepts(model, "audio"@)
            &&& images <= most_of_kind(model, "image"@, reference_max as u64)
            &&& videos <= most_of_kind(model, "video"@, reference_max as u64)
            &&& sounds <= most_of_kind(model, "audio"@, reference_max as u64)
        }),
{
    reveal_strlit("请选择可用的生成模型后再继续");
    reveal_strlit("部分历史参考素材缺少本机文件，请替换后再生成");
    reveal_strlit("历史参考素材类型未知，请替换后再生成");
    reveal_strlit("当前模型不支持");
    reveal_strlit("参考，请移除对应素材");
    reveal_strlit("参考最多 ");
    reveal_strlit("参考音频需要搭配至少一张图片或一段视频");
    reveal_strlit("参考素材已过期，请重新上传或移除");
    reveal_strlit("当前模型最多支持 ");
    reveal_strlit("参考素材上传失败，请重试或移除");
    reveal_strlit("参考素材上传中");
    media_differ();
    let not_ready = text_is_not("status"@, "ready"@);
    let unknown = text_is("kind"@, "unknown"@);
    assert(!any(references, not_ready));
    assert(!not_ready(references[i]));
    assert(!any(references, unknown));
    assert(!unknown(references[i]));
    let sounding = text_is_not("kind"@, "audio"@);
    assert(any(references, sounding));
    let k = choose|k: int| 0 <= k < references.len() && sounding(#[trigger] references[k]);
    assert(references[k].text("kind"@) != "audio"@);
    assert(label_of_kind("image"@) == "图片"@);
    assert(label_of_kind("video"@) == "视频"@);
    assert(label_of_kind("audio"@) == "音频"@);
}

/// A reference that may be added leaves the references within what the model
/// takes, in all and of its kind.
pub proof fn added_references_fit_the_model(
    mode: i32,
    model_index: i32,
    catalog: CatalogView,
    references: Seq<JsonModel>,
    next: JsonModel,
)
    requires
        add_fault(mode, model_index, catalog, references, next.text("kind"@)) is None,
    ensures
        ({
            let model = model_named(
                catalog.models,
                if mode == 0 {
                    "image"@
                } else {
                    "video"@
                },
                selected_id(mode, model_index, catalog),
            );
            let kind = next.text("kind"@);
            let more = references.push(next);
            &&& model is Some
            &&& more.len() <= most_items(model->0)
            &&& count(more, text_is("kind"@, kind)) <= most_of_kind(
                model->0,
                kind,
                most_items(model->0) as u64,
            )
            &&& accepts(model->0, kind)
        }),
{
    let more = references.push(next);
    assert(more.drop_last() =~= references);
}

/// The endings of files are told apart.
proof fn endings_differ()
    ensures
        ""@.len() == 0,
        "png"@.len() == 3 && "png"@[2] == 'g' && "png"@[0] == 'p',
        "jpg"@.len() == 3 && "jpg"@[2] == 'g' && "jpg"@[0] == 'j',
        "mp4"@.len() == 3 && "mp4"@[2] == '4' && "mp4"@[0] == 'm',
        "mov"@.len() == 3 && "mov"@[2] == 'v' && "mov"@[0] == 'm',
        "mp3"@.len() == 3 && "mp3"@[2] == '3' && "mp3"@[0] == 'm',
        "wav"@.len() == 3 && "wav"@[2] == 'v' && "wav"@[0] == 'w',
        "jpeg"@.len() == 4 && "jpeg"@[0] == 'j',
        "webp"@.len() == 4 && "webp"@[0] == 'w',
{
    reveal_strlit("");
    reveal_strlit("png");
    reveal_strlit("jpg");
    reveal_strlit("jpeg");
    reveal_strlit("webp");
    reveal_strlit("mp4");
    reveal_strlit("mov");
    reveal_strlit("mp3");
    reveal_strlit("wav");
}

/// What a file is used as follows from its name alone: pictures, videos and
/// sound have their endings, in any case, and nothing else is taken.
pub proof fn files_are_used_by_their_ending(path: Seq<char>)
    ensures
        ({
            let ending = match extension_of(path) {
                Some(e) => ascii_lowercase(e),
                None => ""@,
            };
            let kind = kind_of_path(path);
            &&& kind == "image"@ <==> ending == "png"@ || ending == "jpg"@ || ending == "jpeg"@
                || ending == "webp"@
            &&& kind == "video"@ <==> ending == "mp4"@ || ending == "mov"@
            &&& kind == "audio"@ <==> ending == "mp3"@ || ending == "wav"@
        }),
{
    media_differ();
    endings_differ();
}

/// References of a label are numbered from one in their order: the next of a
/// label has the number after all of those before it, and the numbers of the
/// others stay.
pub proof fn references_are_numbered_in_order(references: Seq<JsonModel>, next: JsonModel, i: int)
    ensures
        number_of(references.push(next), references.len() as int) == count(
            references,
            has_label(label_of_kind(next.text("kind"@))),
        ) + 1,
        0 <= i < references.len() ==> number_of(references.push(next), i) == number_of(
            references,
            i,
        ),
{
    let more = references.push(next);
    assert(more.take(more.len() as int) =~= more);
    assert(more.drop_last() =~= references);
    if 0 <= i < references.len() {
        assert(more.take(i + 1) =~= references.take(i + 1));
    }
}

/// A prompt without mentions is sent as it is typed, but for the blanks around
/// it.
pub proof fn plain_prompts_are_sent_as_typed(mode: i32, prompt: Seq<char>)
    requires
        !trimmed(prompt).contains('@'),
    ensures
        sent_prompt(mode, prompt) == trimmed(prompt),
{
    let s = trimmed(prompt);
    plain_pieces(s, 0, crate::cloud::generation::video_mention());
    plain_pieces(
        s,
        0,
        crate::cloud::mentions::images_only(crate::cloud::generation::image_mention()),
    );
    assert(s.skip(0) =~= s);
}

proof fn first_and_rest(head: Piece, rest: Seq<Piece>)
    ensures
        crate::cloud::mentions::cons(head, rest).len() == rest.len() + 1,
        crate::cloud::mentions::cons(head, rest)[0] == head,
        crate::cloud::mentions::cons(head, rest).drop_first() == rest,
{
    let both = crate::cloud::mentions::cons(head, rest);
    let one = seq![head];
    assert(one.len() == 1);
    assert(both == one + rest);
    assert(both.drop_first() =~= rest);
}

proof fn plain_pieces(s: Seq<char>, i: int, g: spec_fn(Seq<char>, nat) -> Seq<char>)
    requires
        !s.contains('@'),
        0 <= i <= s.len(),
    ensures
        rendered(pieces(s, i), g) == s.skip(i),
    decreases s.len() - i,
{
    reveal_strlit("@[");
    if i < s.len() {
        plain_pieces(s, i + 1, g);
        assert(s.contains(s[i]));
        if crate::text::occurs_at(s, "@["@, i) {
            assert(s.subrange(i, i + 2)[0] == s[i]);
            assert(s[i] == '@');
        }
        let rest = pieces(s, i + 1);
        first_and_rest(Piece::Text(s[i]), rest);
        assert(pieces(s, i) == crate::cloud::mentions::cons(Piece::Text(s[i]), rest));
        assert(seq![s[i]] + s.skip(i + 1) =~= s.skip(i));
    } else {
        assert(s.skip(i) =~= Seq::<char>::empty());
    }
}

/// A mention of a reference is sent in the words of the provider: its label and
/// its number for a video, the number of the picture for a picture. A picture
/// request leaves a mention of anything else as it is.
pub proof fn mentions_are_sent_in_words(prompt: Seq<char>, label: Seq<char>, number: nat)
    requires
        pieces(trimmed(prompt), 0) == seq![Piece::Mention(label, number)],
    ensures
        sent_prompt(1, prompt) == label + decimal(number),
        label == "图片"@ ==> sent_prompt(0, prompt) == "第"@ + decimal(number) + "张参考图片"@,
        label != "图片"@ ==> sent_prompt(0, prompt) == "@["@ + label + decimal(number) + "]"@,
{
    let one = seq![Piece::Mention(label, number)];
    assert(one.drop_first().len() == 0);
    reveal_with_fuel(rendered, 3);
    assert(sent_prompt(1, prompt) =~= label + decimal(number));
    if label == "图片"@ {
        assert(sent_prompt(0, prompt) =~= "第"@ + decimal(number) + "张参考图片"@);
    } else {
        assert(sent_prompt(0, prompt) =~= token_text(label, number));
    }
}

/// A form that is brought up to date stays of its kind.
pub(crate) proof fn shown_mode(
    form: FormView,
    catalog: CatalogView,
    references: Seq<JsonModel>,
    preserve: bool,
)
    ensures
        options_updated(form, catalog, references, preserve).0.mode == form.mode,
{
    shown_lists(form, catalog, references, preserve);
}

} // verus!
