//! The reference media of a generation.
//!
//! A reference is a document with, among others, a `client_id`, a `kind`
//! (`image`, `video` or `audio`), a `status` and, once it is uploaded, an `id`.
//! References of one medium are numbered from 1 in their order.

use crate::cloud::catalog::{
    kind_of, model_by_id, model_kind, model_named, selected_id, selected_model, Catalog,
    CatalogView, GenerationForm, FormView,
};
use crate::cloud::mentions::{
    complete_mention, cursor_of, has_missing_mention, label_counts, mention_span, names_nothing,
    pieces, rendered, rewrite_media_mentions, token, token_text, PromptForm, computes, with_token,
};
use crate::generation_templates::{reference_views, ReferenceView, TemplateReference};
use crate::json::{models, Json, JsonModel};
use crate::lists::{
    all, any, any_text, any_text_not, count, count_text, find_text, first_from, first_where, kept,
    kept_all, kept_step, text_is, text_is_not,
};
use crate::paths::{extension, extension_of};
use crate::text::{
    ascii_lowercase, byte_len, cat, cat3, contains, contains_text, decimal, joined, opt, same,
    signed_decimal, to_ascii_lowercase, to_decimal, to_signed_decimal, verdict, views,
};
use vstd::prelude::*;
use vstd::string::*;

verus! {

/// The medium of a file, by the extension of its name.
pub open spec fn kind_of_path(path: Seq<char>) -> Seq<char> {
    let extension = match extension_of(path) {
        Some(e) => ascii_lowercase(e),
        None => ""@,
    };
    if extension == "png"@ || extension == "jpg"@ || extension == "jpeg"@ || extension == "webp"@ {
        "image"@
    } else if extension == "mp4"@ || extension == "mov"@ {
        "video"@
    } else if extension == "mp3"@ || extension == "wav"@ {
        "audio"@
    } else {
        "unsupported"@
    }
}

pub fn reference_kind(path: &str) -> (r: &'static str)
    ensures
        r@ == kind_of_path(path@),
{
    let found: String = match extension(path) {
        Some(e) => to_ascii_lowercase(e.as_str()),
        None => "".to_owned(),
    };
    let e: &str = found.as_str();
    if same(e, "png") || same(e, "jpg") || same(e, "jpeg") || same(e, "webp") {
        "image"
    } else if same(e, "mp4") || same(e, "mov") {
        "video"
    } else if same(e, "mp3") || same(e, "wav") {
        "audio"
    } else {
        "unsupported"
    }
}

/// The label of a medium in a prompt; an unknown medium counts as an image.
pub open spec fn label_of_kind(kind: Seq<char>) -> Seq<char> {
    if kind == "video"@ {
        "视频"@
    } else if kind == "audio"@ {
        "音频"@
    } else {
        "图片"@
    }
}

pub fn reference_label(kind: &str) -> (r: &'static str)
    ensures
        r@ == label_of_kind(kind@),
{
    if same(kind, "video") {
        "视频"
    } else if same(kind, "audio") {
        "音频"
    } else {
        "图片"
    }
}

/// A reference of a label.
pub open spec fn has_label(label: Seq<char>) -> spec_fn(JsonModel) -> bool {
    |v: JsonModel| label_of_kind(v.text("kind"@)) == label
}

/// The number of a reference among those of its label.
pub open spec fn number_of(references: Seq<JsonModel>, index: int) -> nat {
    count(
        references.take(index + 1),
        has_label(label_of_kind(references[index].text("kind"@))),
    )
}

/// How many of the first `to` references have a label.
fn count_label(references: &Vec<Json>, to: usize, label: &str) -> (r: usize)
    requires
        to <= references.len(),
    ensures
        r == count(models(references@).take(to as int), has_label(label@)),
        r <= to,
{
    let ghost p = has_label(label@);
    let ghost m = models(references@);
    let mut n: usize = 0;
    let mut i: usize = 0;
    proof {
        kept_all(m, p);
    }
    while i < to
        invariant
            n <= i <= to <= references.len(),
            m == models(references@),
            p == has_label(label@),
            n == kept(m.take(i as int), p).len(),
        decreases to - i,
    {
        proof {
            kept_step(m, p, i as int);
            assert(m[i as int] == references@[i as int]@);
        }
        let kind: String = references[i].text("kind");
        if same(reference_label(kind.as_str()), label) {
            n = n + 1;
        }
        i = i + 1;
    }
    n
}

/// How many references have a label.
pub fn label_count(references: &Vec<Json>, label: &str) -> (r: usize)
    ensures
        r == count(models(references@), has_label(label@)),
{
    proof {
        kept_all(models(references@), has_label(label@));
    }
    count_label(references, references.len(), label)
}

pub fn reference_number(references: &Vec<Json>, index: usize) -> (r: usize)
    requires
        index < references.len(),
    ensures
        r == number_of(models(references@), index as int),
        1 <= r <= index + 1,
{
    let kind: String = references[index].text("kind");
    let label: &'static str = reference_label(kind.as_str());
    proof {
        let m = models(references@);
        assert(m[index as int] == references@[index as int]@);
        kept_step(m, has_label(label@), index as int);
    }
    count_label(references, index + 1, label)
}

/// The rules of a model for references.
pub open spec fn reference_rules(model: JsonModel) -> JsonModel {
    model.at("parameters"@).at("reference_asset_ids"@)
}

/// A document that is the given text.
pub open spec fn is_text(s: Seq<char>) -> spec_fn(JsonModel) -> bool {
    |j: JsonModel| j == JsonModel::Text(s)
}

/// Whether a model takes references of a medium.
pub open spec fn accepts(model: JsonModel, kind: Seq<char>) -> bool {
    any(reference_rules(model).list("accepted_media"@), is_text(kind + "/*"@))
}

pub fn accepts_reference(model: &Json, kind: &str) -> (r: bool)
    ensures
        r == accepts(model@, kind@),
{
    let media: Vec<Json> = model.at("parameters").at("reference_asset_ids").list("accepted_media");
    let wanted: String = cat(kind, "/*");
    let ghost p = is_text(wanted@);
    let ghost m = models(media@);
    let mut i: usize = 0;
    while i < media.len()
        invariant
            i <= media.len(),
            m == models(media@),
            m == reference_rules(model@).list("accepted_media"@),
            wanted@ == kind@ + "/*"@,
            p == is_text(wanted@),
            forall|j: int| 0 <= j < i ==> !p(#[trigger] m[j]),
        decreases media.len() - i,
    {
        proof {
            assert(m[i as int] == media@[i as int]@);
        }
        if let Json::Text(s) = &media[i] {
            if same(s.as_str(), wanted.as_str()) {
                proof {
                    assert(p(m[i as int]));
                }
                return true;
            }
        }
        i = i + 1;
    }
    false
}

/// How many references a model takes in all.
pub open spec fn most_items(model: JsonModel) -> usize {
    match reference_rules(model).at("max_items"@).as_u64() {
        Some(n) => n as usize,
        None => 0,
    }
}

/// How many references of a medium a model takes, `otherwise` where it does
/// not say.
pub open spec fn most_of_kind(model: JsonModel, kind: Seq<char>, otherwise: u64) -> usize {
    match reference_rules(model).at("max_per_kind"@).at(kind).as_u64() {
        Some(n) => n as usize,
        None => otherwise as usize,
    }
}

pub fn max_items(model: &Json) -> (r: usize)
    ensures
        r == most_items(model@),
{
    match model.at("parameters").at("reference_asset_ids").at("max_items").as_u64() {
        Some(n) => n as usize,
        None => 0,
    }
}

pub fn max_of_kind(model: &Json, kind: &str, otherwise: u64) -> (r: usize)
    ensures
        r == most_of_kind(model@, kind@, otherwise),
{
    match model.at("parameters").at("reference_asset_ids").at("max_per_kind").at(kind).as_u64() {
        Some(n) => n as usize,
        None => otherwise as usize,
    }
}

/// A saved reference of a medium.
pub open spec fn saved_kind(kind: Seq<char>) -> spec_fn(ReferenceView) -> bool {
    |r: ReferenceView| r.kind == kind
}

/// What is wrong with the saved reference `i` of a configuration.
pub open spec fn saved_fault(
    model: JsonModel,
    references: Seq<ReferenceView>,
    i: int,
    source: Seq<char>,
) -> Option<Seq<char>> {
    let r = references[i];
    let most = most_of_kind(model, r.kind, most_items(model) as u64);
    if r.kind != "image"@ && r.kind != "video"@ && r.kind != "audio"@ {
        Some(source + "包含不支持的参考素材类型"@)
    } else if exists|j: int| 0 <= j < i && (#[trigger] references[j]).path == r.path {
        Some(source + "包含重复的参考素材："@ + r.name)
    } else if !accepts(model, r.kind) {
        Some("当前模型不再支持"@ + source + "中的"@ + label_of_kind(r.kind) + "素材"@)
    } else if count(references, saved_kind(r.kind)) > most {
        Some(
            source + "中的"@ + label_of_kind(r.kind) + "参考最多 "@ + decimal(most as nat) + " 项"@,
        )
    } else {
        None
    }
}

/// The first fault of the saved references from `i` on.
pub open spec fn first_saved_fault(
    model: JsonModel,
    references: Seq<ReferenceView>,
    i: int,
    source: Seq<char>,
) -> Option<Seq<char>>
    decreases references.len() - i,
{
    if i < 0 || i >= references.len() {
        None
    } else if saved_fault(model, references, i, source) is Some {
        saved_fault(model, references, i, source)
    } else {
        first_saved_fault(model, references, i + 1, source)
    }
}

/// What keeps a saved configuration from being applied to a model: too many
/// references, then the first fault of one of them, then audio alone.
pub open spec fn configuration_fault(
    model: JsonModel,
    references: Seq<ReferenceView>,
    source: Seq<char>,
) -> Option<Seq<char>> {
    if references.len() > most_items(model) {
        Some(
            source + "包含 "@ + decimal(references.len()) + " 项参考素材，当前模型最多支持 "@
                + decimal(most_items(model) as nat) + " 项"@,
        )
    } else if first_saved_fault(model, references, 0, source) is Some {
        first_saved_fault(model, references, 0, source)
    } else if references.len() > 0 && all(references, saved_kind("audio"@)) {
        Some(source + "中的参考音频需要搭配至少一张图片或一段视频"@)
    } else {
        None
    }
}

fn count_saved(references: &Vec<TemplateReference>, kind: &str) -> (r: usize)
    ensures
        r == count(reference_views(references@), saved_kind(kind@)),
{
    let ghost p = saved_kind(kind@);
    let ghost m = reference_views(references@);
    let mut n: usize = 0;
    let mut i: usize = 0;
    proof {
        kept_all(m, p);
    }
    while i < references.len()
        invariant
            n <= i <= references.len(),
            m == reference_views(references@),
            p == saved_kind(kind@),
            n == kept(m.take(i as int), p).len(),
        decreases references.len() - i,
    {
        proof {
            kept_step(m, p, i as int);
            assert(m[i as int] == references@[i as int]@);
        }
        if same(references[i].kind.as_str(), kind) {
            n = n + 1;
        }
        i = i + 1;
    }
    proof {
        kept_all(m, p);
    }
    n
}

fn find_saved_fault(
    model: &Json,
    references: &Vec<TemplateReference>,
    i: usize,
    source: &str,
) -> (r: Option<String>)
    requires
        i < references.len(),
    ensures
        opt(r) == saved_fault(model@, reference_views(references@), i as int, source@),
{
    let ghost m = reference_views(references@);
    let kind: &str = references[i].kind.as_str();
    proof {
        assert(m[i as int] == references@[i as int]@);
    }
    if !same(kind, "image") && !same(kind, "video") && !same(kind, "audio") {
        return Some(cat(source, "包含不支持的参考素材类型"));
    }
    let mut j: usize = 0;
    while j < i
        invariant
            j <= i < references.len(),
            m == reference_views(references@),
            m[i as int] == references@[i as int]@,
            kind@ == m[i as int].kind,
            kind@ == "image"@ || kind@ == "video"@ || kind@ == "audio"@,
            forall|k: int| 0 <= k < j ==> (#[trigger] m[k]).path != m[i as int].path,
        decreases i - j,
    {
        proof {
            assert(m[j as int] == references@[j as int]@);
        }
        if same(references[j].path.as_str(), references[i].path.as_str()) {
            return Some(cat3(source, "包含重复的参考素材：", references[i].name.as_str()));
        }
        j = j + 1;
    }
    let label: &'static str = reference_label(kind);
    if !accepts_reference(model, kind) {
        let mut message: String = cat3("当前模型不再支持", source, "中的");
        message.append(label);
        message.append("素材");
        return Some(message);
    }
    let most: usize = max_of_kind(model, kind, max_items(model) as u64);
    if count_saved(references, kind) > most {
        let digits: String = to_decimal(most as u64);
        let mut message: String = cat3(source, "中的", label);
        message.append("参考最多 ");
        message.append(digits.as_str());
        message.append(" 项");
        return Some(message);
    }
    None
}

/// Checks the references of a saved configuration against a model.
pub fn validate_configuration_references(
    model: &Json,
    references: &Vec<TemplateReference>,
    source: &str,
) -> (r: Result<(), String>)
    ensures
        verdict(r) == match configuration_fault(model@, reference_views(references@), source@) {
            Some(message) => Err(message),
            None => Ok(()),
        },
{
    let ghost m = reference_views(references@);
    let most: usize = max_items(model);
    if references.len() > most {
        let n: String = to_decimal(references.len() as u64);
        let limit: String = to_decimal(most as u64);
        let mut message: String = cat3(source, "包含 ", n.as_str());
        message.append(" 项参考素材，当前模型最多支持 ");
        message.append(limit.as_str());
        message.append(" 项");
        return Err(message);
    }
    let mut audio_only: bool = true;
    let mut i: usize = 0;
    while i < references.len()
        invariant
            i <= references.len() <= most_items(model@),
            m == reference_views(references@),
            first_saved_fault(model@, m, 0, source@) == first_saved_fault(
                model@,
                m,
                i as int,
                source@,
            ),
            audio_only == forall|j: int| 0 <= j < i ==> (#[trigger] m[j]).kind == "audio"@,
        decreases references.len() - i,
    {
        proof {
            assert(m[i as int] == references@[i as int]@);
        }
        if let Some(message) = find_saved_fault(model, references, i, source) {
            return Err(message);
        }
        audio_only = audio_only && same(references[i].kind.as_str(), "audio");
        i = i + 1;
    }
    proof {
        assert(audio_only == all(m, saved_kind("audio"@))) by {
            let p = saved_kind("audio"@);
            if audio_only {
                assert forall|j: int| 0 <= j < m.len() implies p(#[trigger] m[j]) by {}
            } else {
                let j = choose|j: int| 0 <= j < m.len() && (#[trigger] m[j]).kind != "audio"@;
                assert(!p(m[j]));
            }
        }
    }
    if references.len() > 0 && audio_only {
        return Err(cat(source, "中的参考音频需要搭配至少一张图片或一段视频"));
    }
    Ok(())
}

/// What is wrong with the references of a medium.
pub open spec fn kind_fault(
    model: JsonModel,
    references: Seq<JsonModel>,
    kind: Seq<char>,
    reference_max: i32,
) -> Seq<char> {
    let n = count(references, has_label(label_of_kind(kind)));
    let most = most_of_kind(model, kind, cursor_of(reference_max) as u64);
    if n > 0 && !accepts(model, kind) {
        "当前模型不支持"@ + label_of_kind(kind) + "参考，请移除对应素材"@
    } else if n > most {
        label_of_kind(kind) + "参考最多 "@ + decimal(most as nat) + " 项"@
    } else {
        ""@
    }
}

fn find_kind_fault(
    model: &Json,
    references: &Vec<Json>,
    kind: &str,
    reference_max: i32,
) -> (r: String)
    ensures
        r@ == kind_fault(model@, models(references@), kind@, reference_max),
{
    let label: &'static str = reference_label(kind);
    let n: usize = label_count(references, label);
    if n > 0 && !accepts_reference(model, kind) {
        return cat3("当前模型不支持", label, "参考，请移除对应素材");
    }
    let otherwise: u64 = if reference_max < 0 {
        0
    } else {
        reference_max as u64
    };
    let most: usize = max_of_kind(model, kind, otherwise);
    if n > most {
        let digits: String = to_decimal(most as u64);
        let mut message: String = cat3(label, "参考最多 ", digits.as_str());
        message.append(" 项");
        return message;
    }
    "".to_owned()
}

/// The first model with an id, `Null` where there is none.
pub open spec fn model_with_id(catalog: Seq<JsonModel>, id: Seq<char>) -> JsonModel {
    match first_where(catalog, text_is("id"@, id)) {
        Some(i) => catalog[i],
        None => JsonModel::Null,
    }
}

/// Why the form cannot be generated as far as its references go, empty where
/// it can. The checks are made in this order.
pub open spec fn references_fault(
    mode: i32,
    model_index: i32,
    reference_max: i32,
    prompt: Seq<char>,
    catalog: CatalogView,
    references: Seq<JsonModel>,
) -> Seq<char> {
    let id = selected_id(mode, model_index, catalog);
    let model = model_with_id(catalog.models, id);
    let counts = label_counts(
        count(references, has_label("图片"@)),
        count(references, has_label("视频"@)),
        count(references, has_label("音频"@)),
    );
    if id.len() == 0 {
        "请选择可用的生成模型后再继续"@
    } else if any(references, text_is("status"@, "missing"@)) {
        "部分历史参考素材缺少本机文件，请替换后再生成"@
    } else if any(references, text_is("kind"@, "unknown"@)) {
        "历史参考素材类型未知，请替换后再生成"@
    } else if kind_fault(model, references, "image"@, reference_max).len() > 0 {
        kind_fault(model, references, "image"@, reference_max)
    } else if kind_fault(model, references, "video"@, reference_max).len() > 0 {
        kind_fault(model, references, "video"@, reference_max)
    } else if kind_fault(model, references, "audio"@, reference_max).len() > 0 {
        kind_fault(model, references, "audio"@, reference_max)
    } else if references.len() > 0 && !any(references, text_is_not("kind"@, "audio"@)) {
        "参考音频需要搭配至少一张图片或一段视频"@
    } else if any(references, text_is("status"@, "expired"@)) {
        "参考素材已过期，请重新上传或移除"@
    } else if references.len() > cursor_of(reference_max) {
        "当前模型最多支持 "@ + signed_decimal(reference_max as int)
            + " 项参考素材，请移除多余素材"@
    } else if any(references, text_is("status"@, "failed"@)) {
        "参考素材上传失败，请重试或移除"@
    } else if any(references, text_is_not("status"@, "ready"@)) {
        "参考素材上传中"@
    } else if contains_text(prompt, "[已移除参考"@) || exists|k: int|
        0 <= k < pieces(prompt, 0).len() && names_nothing(#[trigger] pieces(prompt, 0)[k], counts) {
        "提示词包含已移除或无效的素材引用，请修改后生成"@
    } else {
        ""@
    }
}

/// Checks the references and the mentions of the form.
pub fn reference_validation(
    mode: i32,
    model_index: i32,
    reference_max: i32,
    prompt: &str,
    catalog: &Catalog,
    references: &Vec<Json>,
) -> (r: String)
    ensures
        r@ == references_fault(
            mode,
            model_index,
            reference_max,
            prompt@,
            catalog@,
            models(references@),
        ),
{
    let id: String = selected_model(mode, model_index, catalog);
    if id.as_str().is_empty() {
        return "请选择可用的生成模型后再继续".to_owned();
    }
    let model: Json = match find_text(&catalog.models, "id", id.as_str()) {
        Some(i) => {
            proof {
                assert(models(catalog.models@)[i as int] == catalog.models@[i as int]@);
            }
            catalog.models[i].copy()
        },
        None => Json::Null,
    };
    if any_text(references, "status", "missing") {
        return "部分历史参考素材缺少本机文件，请替换后再生成".to_owned();
    }
    if any_text(references, "kind", "unknown") {
        return "历史参考素材类型未知，请替换后再生成".to_owned();
    }
    let image: String = find_kind_fault(&model, references, "image", reference_max);
    if !image.as_str().is_empty() {
        return image;
    }
    let video: String = find_kind_fault(&model, references, "video", reference_max);
    if !video.as_str().is_empty() {
        return video;
    }
    let audio: String = find_kind_fault(&model, references, "audio", reference_max);
    if !audio.as_str().is_empty() {
        return audio;
    }
    if references.len() > 0 && !any_text_not(references, "kind", "audio") {
        return "参考音频需要搭配至少一张图片或一段视频".to_owned();
    }
    if any_text(references, "status", "expired") {
        return "参考素材已过期，请重新上传或移除".to_owned();
    }
    if reference_max < 0 && references.len() > 0 || reference_max >= 0 && references.len()
        > reference_max as usize {
        let digits: String = to_signed_decimal(reference_max as i64);
        return cat3("当前模型最多支持 ", digits.as_str(), " 项参考素材，请移除多余素材");
    }
    if any_text(references, "status", "failed") {
        return "参考素材上传失败，请重试或移除".to_owned();
    }
    if any_text_not(references, "status", "ready") {
        return "参考素材上传中".to_owned();
    }
    let images: usize = label_count(references, "图片");
    let videos: usize = label_count(references, "视频");
    let audios: usize = label_count(references, "音频");
    if contains(prompt, "[已移除参考") || has_missing_mention(prompt, images, videos, audios) {
        "提示词包含已移除或无效的素材引用，请修改后生成".to_owned()
    } else {
        "".to_owned()
    }
}

/// Why a reference of a medium cannot be added.
pub open spec fn add_fault(
    mode: i32,
    model_index: i32,
    catalog: CatalogView,
    references: Seq<JsonModel>,
    kind: Seq<char>,
) -> Option<Seq<char>> {
    match model_named(catalog.models, kind_of(mode), selected_id(mode, model_index, catalog)) {
        None => Some("当前模型目录尚未加载，请刷新后重试"@),
        Some(model) => {
            let most = most_items(model);
            let most_here = most_of_kind(model, kind, most as u64);
            if references.len() >= most {
                Some("当前模型最多支持 "@ + decimal(most as nat) + " 项参考素材"@)
            } else if !accepts(model, kind) {
                Some(
                    if mode == 0 {
                        "图片生成支持 PNG、JPG、WebP 参考图"@
                    } else {
                        "视频参考支持 PNG、JPG、WebP、MP4、MOV、MP3、WAV"@
                    },
                )
            } else if count(references, text_is("kind"@, kind)) >= most_here {
                Some(label_of_kind(kind) + "参考最多 "@ + decimal(most_here as nat) + " 项"@)
            } else {
                None
            }
        },
    }
}

pub fn reference_add_error(
    mode: i32,
    model_index: i32,
    catalog: &Catalog,
    references: &Vec<Json>,
    kind: &str,
) -> (r: Option<String>)
    ensures
        opt(r) == add_fault(mode, model_index, catalog@, models(references@), kind@),
{
    let id: String = selected_model(mode, model_index, catalog);
    let model: &Json = match model_by_id(&catalog.models, model_kind(mode), id.as_str()) {
        Some(model) => model,
        None => return Some("当前模型目录尚未加载，请刷新后重试".to_owned()),
    };
    let most: usize = max_items(model);
    if references.len() >= most {
        let digits: String = to_decimal(most as u64);
        return Some(cat3("当前模型最多支持 ", digits.as_str(), " 项参考素材"));
    }
    if !accepts_reference(model, kind) {
        return Some(
            if mode == 0 {
                "图片生成支持 PNG、JPG、WebP 参考图".to_owned()
            } else {
                "视频参考支持 PNG、JPG、WebP、MP4、MOV、MP3、WAV".to_owned()
            },
        );
    }
    let most_here: usize = max_of_kind(model, kind, most as u64);
    if count_text(references, "kind", kind) >= most_here {
        let digits: String = to_decimal(most_here as u64);
        let mut message: String = cat3(reference_label(kind), "参考最多 ", digits.as_str());
        message.append(" 项");
        return Some(message);
    }
    None
}

/// Whether some reference is the file `path`.
pub fn has_reference_path(references: &Vec<Json>, path: &str) -> (r: bool)
    ensures
        r == any(models(references@), text_is("local_path"@, path@)),
{
    any_text(references, "local_path", path)
}


/// The index of the reference with a client id.
pub open spec fn place_of_client(references: Seq<JsonModel>, id: Seq<char>) -> Option<int> {
    first_where(references, text_is("client_id"@, id))
}

/// How a token is rewritten when the reference `number` of `label` goes: it is
/// marked as removed, later ones of the label move down by one, all others
/// stay.
pub open spec fn renumbered(label: Seq<char>, number: nat) -> spec_fn(
    Seq<char>,
    nat,
) -> Seq<char> {
    |other: Seq<char>, n: nat|
        if other != label {
            token_text(other, n)
        } else if n == number {
            "[已移除参考"@ + label + "]"@
        } else if n > number {
            token_text(label, (n - 1) as nat)
        } else {
            token_text(label, n)
        }
}

/// The prompt after the reference `number` of `label` has been removed.
pub open spec fn prompt_without(prompt: Seq<char>, label: Seq<char>, number: nat) -> Seq<char> {
    rendered(pieces(prompt, 0), renumbered(label, number))
}

pub fn remove_mention(prompt: &str, label: &str, number: usize) -> (r: String)
    ensures
        r@ == prompt_without(prompt@, label@, number as nat),
{
    let rewrite = |other: &str, n: usize| -> (out: String)
        ensures
            out@ == renumbered(label@, number as nat)(other@, n as nat),
        {
            if !same(other, label) {
                token(other, n)
            } else if n == number {
                cat3("[已移除参考", label, "]")
            } else if n > number {
                token(label, n - 1)
            } else {
                token(label, n)
            }
        };
    let r: String = rewrite_media_mentions(prompt, rewrite);
    proof {
        assert(computes(rewrite, renumbered(label@, number as nat)));
    }
    r
}

/// Takes a reference out and rewrites the prompt for it. The result is false
/// where no reference has the id; nothing changes then. The upload of the
/// reference, named `reference:` and the id, is no longer wanted.
pub fn remove_reference(references: &mut Vec<Json>, form: &mut PromptForm, id: &str) -> (r: bool)
    ensures
        match place_of_client(models(old(references)@), id@) {
            None => !r && *final(references) == *old(references) && *final(form) == *old(form),
            Some(i) => {
                let before = models(old(references)@);
                let label = label_of_kind(before[i].text("kind"@));
                &&& r
                &&& models(final(references)@) == before.remove(i)
                &&& final(form).prompt@ == prompt_without(
                    old(form).prompt@,
                    label,
                    number_of(before, i),
                )
                &&& !final(form).mention_open
                &&& final(form).prompt_cursor == old(form).prompt_cursor
            },
        },
{
    let ghost before = models(references@);
    let i: usize = match find_text(references, "client_id", id) {
        Some(i) => i,
        None => return false,
    };
    proof {
        assert(before[i as int] == references@[i as int]@);
    }
    let kind: String = references[i].text("kind");
    let label: &'static str = reference_label(kind.as_str());
    let number: usize = reference_number(references, i);
    references.remove(i);
    form.prompt = remove_mention(form.prompt.as_str(), label, number);
    form.mention_open = false;
    proof {
        assert(models(references@) =~= before.remove(i as int));
    }
    true
}

/// A ready reference with a client id.
pub open spec fn ready_client(id: Seq<char>) -> spec_fn(JsonModel) -> bool {
    |v: JsonModel| v.text("client_id"@) == id && v.text("status"@) == "ready"@
}

fn find_ready(references: &Vec<Json>, id: &str) -> (r: Option<usize>)
    ensures
        match r {
            Some(i) => first_where(models(references@), ready_client(id@)) == Some(i as int) && i
                < references.len(),
            None => first_where(models(references@), ready_client(id@)) is None,
        },
{
    let ghost p = ready_client(id@);
    let ghost m = models(references@);
    let mut i: usize = 0;
    while i < references.len()
        invariant
            i <= references.len(),
            m == models(references@),
            p == ready_client(id@),
            first_where(m, p) == first_from(m, p, i as int),
        decreases references.len() - i,
    {
        proof {
            assert(m[i as int] == references@[i as int]@);
        }
        if references[i].text_is("client_id", id) && references[i].text_is("status", "ready") {
            return Some(i);
        }
        i = i + 1;
    }
    None
}

/// Writes the token of a ready reference in the place of the mention that is
/// being typed. Nothing changes where no ready reference has the id or no
/// mention is being typed; the result says whether the prompt has changed.
pub fn insert_mention(references: &Vec<Json>, form: &mut PromptForm, id: &str) -> (r: bool)
    ensures
        match first_where(models(references@), ready_client(id@)) {
            None => !r && *final(form) == *old(form),
            Some(i) => match mention_span(old(form).prompt@, cursor_of(old(form).prompt_cursor)) {
                None => !r && *final(form) == *old(form),
                Some((j, k)) => {
                    let all = models(references@);
                    let s = old(form).prompt@;
                    let text = token_text(
                        label_of_kind(all[i].text("kind"@)),
                        number_of(all, i),
                    ) + " "@;
                    &&& r
                    &&& final(form).prompt@ == with_token(s, j, k, text)
                    &&& final(form).prompt_cursor == (byte_len(s.take(j)) + byte_len(text)) as i32
                    &&& !final(form).mention_open
                },
            },
        },
{
    let i: usize = match find_ready(references, id) {
        Some(i) => i,
        None => return false,
    };
    proof {
        assert(models(references@)[i as int] == references@[i as int]@);
    }
    let kind: String = references[i].text("kind");
    let label: &'static str = reference_label(kind.as_str());
    let number: usize = reference_number(references, i);
    complete_mention(form, label, number)
}

/// The name of an unresolved reference, as the warning lists it.
pub open spec fn unresolved_name(v: JsonModel) -> Seq<char> {
    if v.text("display_name"@).len() == 0 {
        "未命名素材"@
    } else {
        v.text("display_name"@)
    }
}

pub open spec fn unresolved_names(references: Seq<JsonModel>) -> Seq<Seq<char>> {
    let open = kept(references, text_is_not("status"@, "ready"@));
    Seq::new(open.len(), |i: int| unresolved_name(open[i]))
}

/// The form after its warning has been brought in line with the references:
/// a warning lists the references that are not ready; once all are, a warning
/// about references goes, and the error that repeats it.
pub open spec fn warning_synced(form: FormView, references: Seq<JsonModel>) -> FormView {
    let names = unresolved_names(references);
    if names.len() > 0 {
        crate::cloud::catalog::warned(
            form,
            decimal(names.len()) + "项参考素材仍需处理："@ + joined(names, "、"@),
        )
    } else if contains_text(form.recovery_warning, "参考素材"@) {
        crate::cloud::catalog::unwarned(form)
    } else {
        form
    }
}

fn open_names(references: &Vec<Json>) -> (r: Vec<String>)
    ensures
        views(r@) == unresolved_names(models(references@)),
        r@.len() <= references@.len(),
{
    let ghost p = text_is_not("status"@, "ready"@);
    let ghost m = models(references@);
    let mut out: Vec<String> = Vec::new();
    let mut i: usize = 0;
    proof {
        kept_all(m, p);
    }
    while i < references.len()
        invariant
            i <= references.len(),
            m == models(references@),
            p == text_is_not("status"@, "ready"@),
            out@.len() == kept(m.take(i as int), p).len(),
            out@.len() <= i,
            forall|j: int|
                0 <= j < out@.len() ==> (#[trigger] out@[j])@ == unresolved_name(
                    kept(m.take(i as int), p)[j],
                ),
        decreases references.len() - i,
    {
        proof {
            kept_step(m, p, i as int);
            assert(m[i as int] == references@[i as int]@);
        }
        if !references[i].text_is("status", "ready") {
            let name: String = references[i].text("display_name");
            if name.as_str().is_empty() {
                out.push("未命名素材".to_owned());
            } else {
                out.push(name);
            }
        }
        i = i + 1;
    }
    proof {
        kept_all(m, p);
        assert(views(out@) =~= unresolved_names(m));
    }
    out
}

/// Brings the warning of the form in line with the references.
pub fn sync_reference_recovery_warning(form: &mut GenerationForm, references: &Vec<Json>)
    ensures
        final(form)@ == warning_synced(old(form)@, models(references@)),
{
    let names: Vec<String> = open_names(references);
    if names.len() > 0 {
        let n: String = to_decimal(names.len() as u64);
        let list: String = crate::text::join(&names, "、");
        let message: String = cat3(n.as_str(), "项参考素材仍需处理：", list.as_str());
        crate::cloud::catalog::set_recovery_warning(form, message.as_str());
    } else if contains(form.recovery_warning.as_str(), "参考素材") {
        crate::cloud::catalog::clear_warning(form);
    }
}

/// Removing a reference leaves every token of another label as it names it,
/// and turns a token of its label that is still there into the number that its
/// reference has afterwards.
pub proof fn removal_renumbers(references: Seq<JsonModel>, removed: int, other: int)
    requires
        0 <= removed < references.len(),
        0 <= other < references.len(),
        other != removed,
    ensures
        ({
            let label = label_of_kind(references[removed].text("kind"@));
            let label_other = label_of_kind(references[other].text("kind"@));
            let after = references.remove(removed);
            let place = if other < removed {
                other
            } else {
                other - 1
            };
            renumbered(label, number_of(references, removed))(
                label_other,
                number_of(references, other),
            ) == token_text(label_other, number_of(after, place))
        }),
{
    let label = label_of_kind(references[removed].text("kind"@));
    let label_other = label_of_kind(references[other].text("kind"@));
    let after = references.remove(removed);
    let p = has_label(label_other);
    if other < removed {
        assert(after.take(other + 1) =~= references.take(other + 1));
        if label == label_other {
            count_grows(references, p, other, removed);
        }
    } else {
        removed_count(references, p, removed, other);
        if label == label_other {
            count_grows(references, p, removed, other);
        }
    }
}

/// An element that is counted makes the count larger.
proof fn count_grows(v: Seq<JsonModel>, p: spec_fn(JsonModel) -> bool, i: int, j: int)
    requires
        0 <= i < j < v.len(),
        p(v[j]),
    ensures
        count(v.take(i + 1), p) < count(v.take(j + 1), p),
    decreases j - i,
{
    kept_step(v, p, j);
    count_monotone(v, p, i + 1, j);
}

proof fn count_monotone(v: Seq<JsonModel>, p: spec_fn(JsonModel) -> bool, i: int, j: int)
    requires
        0 <= i <= j <= v.len(),
    ensures
        count(v.take(i), p) <= count(v.take(j), p),
    decreases j - i,
{
    if i < j {
        kept_step(v, p, j - 1);
        count_monotone(v, p, i, j - 1);
    }
}

/// What is counted up to `j` once the element `i` before it is gone.
proof fn removed_count(v: Seq<JsonModel>, p: spec_fn(JsonModel) -> bool, i: int, j: int)
    requires
        0 <= i < j < v.len(),
    ensures
        count(v.remove(i).take(j), p) == count(v.take(j + 1), p) - (if p(v[i]) {
            1int
        } else {
            0
        }),
    decreases j - i,
{
    let w = v.remove(i);
    kept_step(v, p, j);
    kept_step(w, p, j - 1);
    assert(w[j - 1] == v[j]);
    if i + 1 < j {
        removed_count(v, p, i, j - 1);
    } else {
        assert(w.take(i) =~= v.take(i));
        kept_step(v, p, i);
    }
}

} // verus!
