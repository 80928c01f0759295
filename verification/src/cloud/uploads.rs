//! Uploading files: references of the form and files of a team.

use crate::cloud::catalog::{options_updated, update_model_options, FormView};
use crate::cloud::intents::{enqueue_personal_reference, enqueued, Intents, IntentsView};
use crate::cloud::personal::{get_number, number_at, seconds_of, whole_seconds};
use crate::cloud::references::{
    add_fault, has_reference_path, kind_of_path, label_of_kind, number_of, place_of_client,
    reference_add_error, reference_kind, reference_label, reference_number,
    sync_reference_recovery_warning, warning_synced,
};
use crate::cloud::rows::{blank, blank_item, row_views, CloudItem, ItemRow};
use crate::cloud::steps::{
    ask, asking, fail, none, one, step_views, then_do, Panel, Step, StepView,
};
use crate::cloud::studio::{make_upload_job, upload_job, Studio, StudioView};
use crate::cloud::teams::{team_id, team_of, TeamPage, TeamView};
use crate::collections::TextMap;
use crate::ids::{fresh_id, is_uuid};
use crate::json::{models, Json, JsonModel};
use crate::lists::{any, find_text, first_where, text_is};
use crate::paths::{file_name, file_name_of};
use crate::text::{
    cat, cat3, decimal, minutes_and_seconds, same, to_decimal, to_minutes_and_seconds,
};
use vstd::prelude::*;
use vstd::string::*;

verus! {

/// The name of a file, empty where a path has none.
pub open spec fn name_of_file(path: Seq<char>) -> Seq<char> {
    match file_name_of(path) {
        Some(name) => name,
        None => ""@,
    }
}

pub fn file_label(path: &str) -> (r: String)
    ensures
        r@ == name_of_file(path@),
{
    match file_name(path) {
        Some(name) => name,
        None => "".to_owned(),
    }
}

/// A team file that was brought to a path on this machine.
pub open spec fn kept_at(
    local: Map<Seq<char>, Seq<char>>,
    path: Seq<char>,
) -> spec_fn(JsonModel) -> bool {
    |v: JsonModel| local.contains_key(v.text("id"@)) && local[v.text("id"@)] == path
}

/// The name that a reference is shown under: that of the team file, where it
/// is one, or else that of the file.
pub open spec fn shown_name_of(
    assets: Seq<JsonModel>,
    local: Map<Seq<char>, Seq<char>>,
    path: Seq<char>,
) -> Seq<char> {
    match first_where(assets, kept_at(local, path)) {
        Some(i) => assets[i].text("filename"@),
        None => name_of_file(path),
    }
}

fn show_name(assets: &Vec<Json>, local: &TextMap<String>, path: &str) -> (r: String)
    ensures
        r@ == shown_name_of(models(assets@), local@, path@),
{
    let ghost p = kept_at(local@, path@);
    let mut i: usize = 0;
    while i < assets.len()
        invariant
            i <= assets.len(),
            p == kept_at(local@, path@),
            first_where(models(assets@), p) == crate::lists::first_from(
                models(assets@),
                p,
                i as int,
            ),
        decreases assets.len() - i,
    {
        proof {
            assert(models(assets@)[i as int] == assets@[i as int]@);
        }
        let id: String = assets[i].text("id");
        if let Some(kept) = local.get(id.as_str()) {
            if same(kept.as_str(), path) {
                return assets[i].text("filename");
            }
        }
        i = i + 1;
    }
    file_label(path)
}

/// A new reference that is being uploaded.
pub open spec fn new_reference(
    client_id: Seq<char>,
    path: Seq<char>,
    name: Seq<char>,
) -> JsonModel {
    JsonModel::Object(
        seq![
            ("client_id"@, JsonModel::Text(client_id)),
            ("local_path"@, JsonModel::Text(path)),
            ("kind"@, JsonModel::Text(kind_of_path(path))),
            ("display_name"@, JsonModel::Text(name)),
            ("status"@, JsonModel::Text("uploading"@)),
        ],
    )
}

fn make_reference(client_id: &str, path: &str, name: &str) -> (r: Json)
    ensures
        r@ == new_reference(client_id@, path@, name@),
{
    let mut fields: Vec<(String, Json)> = Vec::new();
    fields.push(("client_id".to_owned(), Json::from_text(client_id)));
    fields.push(("local_path".to_owned(), Json::from_text(path)));
    fields.push(("kind".to_owned(), Json::from_text(reference_kind(path))));
    fields.push(("display_name".to_owned(), Json::from_text(name)));
    fields.push(("status".to_owned(), Json::from_text("uploading")));
    let r: Json = Json::from_members(fields);
    proof {
        assert(r@->Object_0 =~= new_reference(client_id@, path@, name@)->Object_0);
    }
    r
}

/// The body of an upload.
pub open spec fn upload_body(
    path: Seq<char>,
    client_id: Seq<char>,
    purpose: Seq<char>,
    team: Seq<char>,
) -> JsonModel {
    JsonModel::Object(
        seq![
            ("path"@, JsonModel::Text(path)),
            ("client_id"@, JsonModel::Text(client_id)),
            ("purpose"@, JsonModel::Text(purpose)),
            (
                "team"@,
                JsonModel::Text(
                    if purpose == "team_asset"@ {
                        team
                    } else {
                        ""@
                    },
                ),
            ),
        ],
    )
}

/// The step that uploads a file.
pub open spec fn upload_step(
    path: Seq<char>,
    client_id: Seq<char>,
    purpose: Seq<char>,
    team: Seq<char>,
) -> StepView {
    ask(
        if purpose == "team_asset"@ {
            "asset-change"@
        } else {
            "reference:"@ + client_id
        },
        "POST"@,
        "local:upload"@,
        upload_body(path, client_id, purpose, team),
    )
}

fn make_upload(path: &str, client_id: &str, purpose: &str, team: &str) -> (r: Step)
    ensures
        r@ == upload_step(path@, client_id@, purpose@, team@),
{
    let to_team: bool = same(purpose, "team_asset");
    let mut fields: Vec<(String, Json)> = Vec::new();
    fields.push(("path".to_owned(), Json::from_text(path)));
    fields.push(("client_id".to_owned(), Json::from_text(client_id)));
    fields.push(("purpose".to_owned(), Json::from_text(purpose)));
    fields.push(
        (
            "team".to_owned(),
            Json::from_text(
                if to_team {
                    team
                } else {
                    ""
                },
            ),
        ),
    );
    let body: Json = Json::from_members(fields);
    proof {
        assert(body@->Object_0 =~= upload_body(path@, client_id@, purpose@, team@)->Object_0);
    }
    let name: String = if to_team {
        "asset-change".to_owned()
    } else {
        cat("reference:", client_id)
    };
    asking(name.as_str(), "POST", "local:upload", body)
}

/// What an upload does: the references after it, the intents and the steps.
/// `client_id` is the identity that a new reference gets.
pub open spec fn upload_planned(
    studio: StudioView,
    intents: IntentsView,
    assets: Seq<JsonModel>,
    local: Map<Seq<char>, Seq<char>>,
    path: Seq<char>,
    purpose: Seq<char>,
    team: Seq<char>,
    client_id: Seq<char>,
) -> (Seq<JsonModel>, IntentsView, Seq<StepView>) {
    let references = studio.references;
    let fault = add_fault(
        studio.form.mode,
        studio.form.model_index,
        studio.catalog,
        references,
        kind_of_path(path),
    );
    if !studio.signed_in {
        if purpose == "generation_input"@ {
            (
                references,
                IntentsView {
                    references: enqueued(intents.references, path, name_of_file(path)),
                    ..intents
                },
                seq![StepView::ShowAuth(Some(1))],
            )
        } else {
            (references, intents, seq![StepView::ShowAuth(Some(2))])
        }
    } else if purpose == "team_asset"@ && team.len() == 0 {
        (references, intents, seq![StepView::Error("请选择要上传的团队"@)])
    } else if purpose != "generation_input"@ {
        (references, intents, seq![upload_step(path, ""@, purpose, team)])
    } else if any(references, text_is("local_path"@, path)) {
        (references, intents, seq![StepView::Notice("该结果已在参考列表中"@)])
    } else if fault is Some {
        (references, intents, seq![StepView::Error(fault->0)])
    } else {
        (
            references.push(new_reference(client_id, path, shown_name_of(assets, local, path))),
            intents,
            seq![
                StepView::Draw(Panel::References),
                StepView::RefreshQuote,
                upload_step(path, client_id, purpose, team),
            ],
        )
    }
}

/// Uploads a file; a new reference gets the identity `client_id`.
pub fn upload_with(
    studio: &mut Studio,
    intents: &mut Intents,
    assets: &Vec<Json>,
    local: &TextMap<String>,
    path: &str,
    purpose: &str,
    team: &str,
    client_id: &str,
) -> (r: Vec<Step>)
    ensures
        ({
            let (references, after, steps) = upload_planned(
                old(studio)@,
                old(intents)@,
                models(assets@),
                local@,
                path@,
                purpose@,
                team@,
                client_id@,
            );
            &&& final(studio)@ == (StudioView { references, ..old(studio)@ })
            &&& final(intents)@ == after
            &&& step_views(r@) == steps
        }),
{
    let reference: bool = same(purpose, "generation_input");
    if !studio.signed_in {
        if reference {
            enqueue_personal_reference(&mut intents.references, path.to_owned(), file_label(path));
            return one(Step::ShowAuth(Some(1)));
        }
        return one(Step::ShowAuth(Some(2)));
    }
    if same(purpose, "team_asset") && team.is_empty() {
        return fail("请选择要上传的团队");
    }
    if !reference {
        return one(make_upload(path, "", purpose, team));
    }
    if has_reference_path(&studio.references, path) {
        return one(Step::Notice("该结果已在参考列表中".to_owned()));
    }
    if let Some(e) = reference_add_error(
        studio.form.mode,
        studio.form.model_index,
        &studio.catalog,
        &studio.references,
        reference_kind(path),
    ) {
        return one(Step::Error(e));
    }
    let name: String = show_name(assets, local, path);
    let ghost before = studio.references@;
    let added: Json = make_reference(client_id, path, name.as_str());
    let ghost view = added@;
    studio.references.push(added);
    proof {
        assert(models(studio.references@) =~= models(before).push(view));
    }
    let mut steps: Vec<Step> = one(Step::Draw(Panel::References));
    then_do(&mut steps, Step::RefreshQuote);
    then_do(&mut steps, make_upload(path, client_id, purpose, team));
    proof {
        assert(step_views(steps@) =~= seq![
            StepView::Draw(Panel::References),
            StepView::RefreshQuote,
            upload_step(path@, client_id@, purpose@, team@),
        ]);
    }
    steps
}

/// Uploads a file for a purpose; a new reference gets an identity by chance.
pub fn upload_file_for_team(
    studio: &mut Studio,
    intents: &mut Intents,
    assets: &Vec<Json>,
    local: &TextMap<String>,
    path: &str,
    purpose: &str,
    team: &str,
) -> (r: Vec<Step>)
    ensures
        exists|client_id: Seq<char>|
            {
                &&& is_uuid(client_id)
                &&& (final(studio)@.references, final(intents)@, step_views(r@))
                    == #[trigger] upload_planned(
                    old(studio)@,
                    old(intents)@,
                    models(assets@),
                    local@,
                    path@,
                    purpose@,
                    team@,
                    client_id,
                )
            },
        final(studio)@ == (StudioView { references: final(studio)@.references, ..old(studio)@ }),
{
    let client_id: String = fresh_id();
    upload_with(studio, intents, assets, local, path, purpose, team, client_id.as_str())
}

/// The team that a file goes to.
pub open spec fn upload_team(page: TeamView, purpose: Seq<char>) -> Seq<char> {
    if purpose == "team_asset"@ {
        team_of(page)
    } else {
        ""@
    }
}

/// Uploads a file; a team file goes to the chosen team.
pub fn upload_file(
    studio: &mut Studio,
    intents: &mut Intents,
    page: &TeamPage,
    local: &TextMap<String>,
    path: &str,
    purpose: &str,
) -> (r: Vec<Step>)
    ensures
        exists|client_id: Seq<char>|
            {
                &&& is_uuid(client_id)
                &&& (final(studio)@.references, final(intents)@, step_views(r@))
                    == #[trigger] upload_planned(
                    old(studio)@,
                    old(intents)@,
                    page@.assets,
                    local@,
                    path@,
                    purpose@,
                    upload_team(page@, purpose@),
                    client_id,
                )
            },
        final(studio)@ == (StudioView { references: final(studio)@.references, ..old(studio)@ }),
{
    let team: String = if same(purpose, "team_asset") {
        team_id(page)
    } else {
        "".to_owned()
    };
    let client_id: String = fresh_id();
    let ghost before = (studio@, intents@);
    let steps: Vec<Step> = upload_with(
        studio,
        intents,
        &page.assets,
        local,
        path,
        purpose,
        team.as_str(),
        client_id.as_str(),
    );
    proof {
        assert(is_uuid(client_id@));
        assert((studio@.references, intents@, step_views(steps@)) == upload_planned(
            before.0,
            before.1,
            page@.assets,
            local@,
            path@,
            purpose@,
            upload_team(page@, purpose@),
            client_id@,
        ));
    }
    steps
}

/// The studio in which a file can become a reference: moving media and sound
/// switch the form to videos.
pub open spec fn fitted(studio: StudioView, path: Seq<char>) -> StudioView {
    let kind = kind_of_path(path);
    if (kind == "video"@ || kind == "audio"@) && studio.form.mode == 0 {
        let form = FormView { mode: 1, model_index: 0, ..studio.form };
        if studio.catalog.updating_model_options {
            StudioView { form, ..studio }
        } else {
            let (shown, catalog) = options_updated(
                form,
                studio.catalog,
                studio.references,
                false,
            );
            StudioView { form: shown, catalog, ..studio }
        }
    } else {
        studio
    }
}

pub fn fit_form(studio: &mut Studio, path: &str)
    ensures
        final(studio)@ == fitted(old(studio)@, path@),
{
    let kind: &'static str = reference_kind(path);
    if (same(kind, "video") || same(kind, "audio")) && studio.form.mode == 0 {
        studio.form.mode = 1;
        studio.form.model_index = 0;
        update_model_options(&mut studio.form, &mut studio.catalog, &studio.references);
    }
}

/// What using a file of the personal library as a reference does: the studio,
/// the intents and the steps. A reference that is new is shown under the name
/// in the library.
pub open spec fn personal_upload(
    studio: StudioView,
    intents: IntentsView,
    assets: Seq<JsonModel>,
    local: Map<Seq<char>, Seq<char>>,
    path: Seq<char>,
    name: Seq<char>,
    client_id: Seq<char>,
) -> (StudioView, IntentsView, Seq<StepView>) {
    let ready = fitted(studio, path);
    let (references, after, steps) = upload_planned(
        ready,
        intents,
        assets,
        local,
        path,
        "generation_input"@,
        ""@,
        client_id,
    );
    if references.len() > ready.references.len() {
        (
            StudioView {
                references: references.update(
                    references.len() - 1,
                    references.last().with("display_name"@, JsonModel::Text(name)),
                ),
                ..ready
            },
            after,
            steps.push(StepView::Draw(Panel::References)),
        )
    } else {
        (StudioView { references, ..ready }, after, steps)
    }
}

pub fn upload_personal_with(
    studio: &mut Studio,
    intents: &mut Intents,
    assets: &Vec<Json>,
    local: &TextMap<String>,
    path: &str,
    name: &str,
    client_id: &str,
) -> (r: Vec<Step>)
    ensures
        (final(studio)@, final(intents)@, step_views(r@)) == personal_upload(
            old(studio)@,
            old(intents)@,
            models(assets@),
            local@,
            path@,
            name@,
            client_id@,
        ),
{
    fit_form(studio, path);
    let ghost ready = studio@;
    let before: usize = studio.references.len();
    let mut steps: Vec<Step> = upload_with(
        studio,
        intents,
        assets,
        local,
        path,
        "generation_input",
        "",
        client_id,
    );
    proof {
        assert(models(studio.references@).len() == studio.references@.len());
    }
    if studio.references.len() > before {
        let last: usize = studio.references.len() - 1;
        let ghost prior = models(studio.references@);
        let shown: Json = studio.references[last].copy();
        proof {
            assert(prior.last() == studio.references@[last as int]@);
            assert(shown@ is Object);
        }
        let renamed: Json = shown.with("display_name", Json::from_text(name));
        let ghost view = renamed@;
        studio.references.set(last, renamed);
        proof {
            assert(models(studio.references@) =~= prior.update(last as int, view));
        }
        then_do(&mut steps, Step::Draw(Panel::References));
    }
    steps
}

/// Uses a file of the personal library as a reference.
pub fn upload_personal_reference(
    studio: &mut Studio,
    intents: &mut Intents,
    assets: &Vec<Json>,
    local: &TextMap<String>,
    path: &str,
    name: &str,
) -> (r: Vec<Step>)
    ensures
        exists|client_id: Seq<char>|
            is_uuid(client_id) && (final(studio)@, final(intents)@, step_views(r@))
                == #[trigger] personal_upload(
                old(studio)@,
                old(intents)@,
                models(assets@),
                local@,
                path@,
                name@,
                client_id,
            ),
{
    let client_id: String = fresh_id();
    upload_personal_with(studio, intents, assets, local, path, name, client_id.as_str())
}

/// Why a file cannot take the place of a reference.
pub open spec fn replacement_refused(
    references: Seq<JsonModel>,
    client_id: Seq<char>,
    path: Seq<char>,
    is_file: bool,
) -> Option<Seq<char>> {
    let kind = kind_of_path(path);
    if !is_file {
        Some("替换素材文件不可用，请重新选择"@)
    } else if kind != "image"@ && kind != "video"@ && kind != "audio"@ {
        Some("替换素材格式不受支持"@)
    } else {
        match place_of_client(references, client_id) {
            None => Some("未找到待替换的参考素材"@),
            Some(i) => {
                let expected = references[i].text("kind"@);
                if expected != "unknown"@ && expected != kind {
                    Some("替换素材类型不匹配，需要"@ + label_of_kind(expected))
                } else {
                    None
                }
            },
        }
    }
}

/// A reference whose file has been replaced: it keeps its place and its
/// identity.
pub open spec fn with_file(reference: JsonModel, path: Seq<char>) -> JsonModel {
    reference.with("local_path"@, JsonModel::Text(path)).with(
        "kind"@,
        JsonModel::Text(kind_of_path(path)),
    ).with("display_name"@, JsonModel::Text(name_of_file(path))).with(
        "status"@,
        JsonModel::Text("uploading"@),
    ).with("missing"@, JsonModel::Bool(false)).with("id"@, JsonModel::Null)
}

/// The studio and the steps when the file of a reference is replaced.
pub open spec fn reference_replaced(
    studio: StudioView,
    client_id: Seq<char>,
    path: Seq<char>,
) -> (StudioView, Seq<StepView>) {
    let i = place_of_client(studio.references, client_id)->0;
    let references = studio.references.update(i, with_file(studio.references[i], path));
    let (name, req) = upload_job(client_id, path);
    (
        StudioView { references, form: warning_synced(studio.form, references), ..studio },
        seq![
            StepView::Draw(Panel::References),
            StepView::RefreshQuote,
            StepView::Job(name, req),
        ],
    )
}

/// Every reference is an object, as the functions of this crate make them.
pub open spec fn are_objects(references: Seq<JsonModel>) -> bool {
    forall|i: int| 0 <= i < references.len() ==> (#[trigger] references[i]) is Object
}

/// Puts another file in the place of a reference.
pub fn replace_reference_from_path(
    studio: &mut Studio,
    client_id: &str,
    path: &str,
    is_file: bool,
) -> (r: Result<Vec<Step>, String>)
    requires
        are_objects(old(studio)@.references),
    ensures
        match replacement_refused(old(studio)@.references, client_id@, path@, is_file) {
            Some(message) => r matches Err(e) && e@ == message && final(studio)@ == old(studio)@,
            None => r matches Ok(steps) && (final(studio)@, step_views(steps@))
                == reference_replaced(old(studio)@, client_id@, path@),
        },
{
    let kind: &'static str = reference_kind(path);
    if !is_file {
        return Err("替换素材文件不可用，请重新选择".to_owned());
    }
    if !same(kind, "image") && !same(kind, "video") && !same(kind, "audio") {
        return Err("替换素材格式不受支持".to_owned());
    }
    let i: usize = match find_text(&studio.references, "client_id", client_id) {
        Some(i) => i,
        None => return Err("未找到待替换的参考素材".to_owned()),
    };
    let expected: String = studio.references[i].text("kind");
    if !same(expected.as_str(), "unknown") && !same(expected.as_str(), kind) {
        return Err(cat("替换素材类型不匹配，需要", reference_label(expected.as_str())));
    }
    let ghost before = models(studio.references@);
    let old_reference: Json = studio.references[i].copy();
    proof {
        assert(before[i as int] is Object);
        assert(old_reference@ == before[i as int]);
    }
    let mut new_one: Json = old_reference.with("local_path", Json::from_text(path));
    new_one = new_one.with("kind", Json::from_text(kind));
    new_one = new_one.with("display_name", Json::Text(file_label(path)));
    new_one = new_one.with("status", Json::from_text("uploading"));
    new_one = new_one.with("missing", Json::from_bool(false));
    new_one = new_one.with("id", Json::Null);
    let ghost view = new_one@;
    studio.references.set(i, new_one);
    proof {
        assert(models(studio.references@) =~= before.update(i as int, view));
    }
    sync_reference_recovery_warning(&mut studio.form, &studio.references);
    let (name, req) = make_upload_job(client_id, path);
    let mut steps: Vec<Step> = one(Step::Draw(Panel::References));
    then_do(&mut steps, Step::RefreshQuote);
    then_do(&mut steps, Step::Job(name, req));
    proof {
        assert(step_views(steps@) =~= reference_replaced(old(studio)@, client_id@, path@).1);
    }
    Ok(steps)
}

/// A reference after its upload: what the service says of it, with what only
/// the client knows.
pub open spec fn uploaded_reference(old_one: JsonModel, value: JsonModel) -> JsonModel {
    let named = value.with("display_name"@, old_one.at("display_name"@));
    let owned = kept_where_empty(named, old_one, "client_id"@);
    let placed = kept_where_empty(owned, old_one, "local_path"@);
    let typed = kept_where_empty(placed, old_one, "kind"@);
    kept_where_empty(typed, old_one, "source_id"@)
}

/// `value` with the old entry under a key where it has no text there.
pub open spec fn kept_where_empty(
    value: JsonModel,
    old_one: JsonModel,
    key: Seq<char>,
) -> JsonModel {
    if value.text(key).len() == 0 {
        value.with(key, old_one.at(key))
    } else {
        value
    }
}

fn keep_where_empty(value: Json, old_one: &Json, key: &str) -> (r: Json)
    requires
        value@.settable(),
    ensures
        r@ == kept_where_empty(value@, old_one@, key@),
        r@.settable(),
{
    let text: String = value.text(key);
    if text.as_str().is_empty() {
        value.with(key, old_one.at(key))
    } else {
        value
    }
}

/// The studio and the steps when an upload has been answered.
pub open spec fn reference_uploaded(studio: StudioView, id: Seq<char>, value: JsonModel) -> (
    StudioView,
    Seq<StepView>,
) {
    let references = match place_of_client(studio.references, id) {
        Some(i) => studio.references.update(i, uploaded_reference(studio.references[i], value)),
        None => studio.references,
    };
    (
        StudioView { references, form: warning_synced(studio.form, references), ..studio },
        seq![StepView::Draw(Panel::References), StepView::RefreshQuote],
    )
}

/// Takes the answer to an upload.
pub fn reference_answered(studio: &mut Studio, id: &str, value: Json) -> (r: Vec<Step>)
    requires
        value@.settable(),
    ensures
        (final(studio)@, step_views(r@)) == reference_uploaded(old(studio)@, id@, value@),
{
    let ghost before = models(studio.references@);
    if let Some(i) = find_text(&studio.references, "client_id", id) {
        let old_one: Json = studio.references[i].copy();
        proof {
            assert(old_one@ == before[i as int]);
        }
        let named: Json = value.with("display_name", old_one.at("display_name"));
        let owned: Json = keep_where_empty(named, &old_one, "client_id");
        let placed: Json = keep_where_empty(owned, &old_one, "local_path");
        let typed: Json = keep_where_empty(placed, &old_one, "kind");
        let whole: Json = keep_where_empty(typed, &old_one, "source_id");
        let ghost view = whole@;
        studio.references.set(i, whole);
        proof {
            assert(models(studio.references@) =~= before.update(i as int, view));
        }
    }
    sync_reference_recovery_warning(&mut studio.form, &studio.references);
    let mut steps: Vec<Step> = one(Step::Draw(Panel::References));
    then_do(&mut steps, Step::RefreshQuote);
    proof {
        assert(step_views(steps@) =~= seq![
            StepView::Draw(Panel::References),
            StepView::RefreshQuote,
        ]);
    }
    steps
}

/// A reference whose upload can be tried again.
pub open spec fn can_retry(id: Seq<char>) -> spec_fn(JsonModel) -> bool {
    |v: JsonModel|
        v.text("client_id"@) == id && (v.text("status"@) == "failed"@ || v.text("status"@)
            == "expired"@)
}

fn find_retry(references: &Vec<Json>, id: &str) -> (r: Option<usize>)
    ensures
        match r {
            Some(i) => first_where(models(references@), can_retry(id@)) == Some(i as int) && i
                < references.len(),
            None => first_where(models(references@), can_retry(id@)) is None,
        },
{
    let ghost p = can_retry(id@);
    let mut i: usize = 0;
    while i < references.len()
        invariant
            i <= references.len(),
            p == can_retry(id@),
            first_where(models(references@), p) == crate::lists::first_from(
                models(references@),
                p,
                i as int,
            ),
        decreases references.len() - i,
    {
        if references[i].text_is("client_id", id) && (references[i].text_is("status", "failed")
            || references[i].text_is("status", "expired")) {
            return Some(i);
        }
        i = i + 1;
    }
    None
}

/// The studio and the steps when the upload of a reference is tried again.
pub open spec fn reference_retried(studio: StudioView, id: Seq<char>) -> (
    StudioView,
    Seq<StepView>,
) {
    match first_where(studio.references, can_retry(id)) {
        None => (studio, Seq::empty()),
        Some(i) => {
            let k = place_of_client(studio.references, id)->0;
            let references = studio.references.update(
                k,
                studio.references[k].with("status"@, JsonModel::Text("uploading"@)),
            );
            (
                StudioView { references, form: warning_synced(studio.form, references), ..studio },
                seq![
                    StepView::Draw(Panel::References),
                    StepView::RefreshQuote,
                    ask(
                        "reference:"@ + id,
                        "POST"@,
                        "local:upload"@,
                        JsonModel::Object(
                            seq![
                                ("path"@, studio.references[i].at("local_path"@)),
                                ("client_id"@, JsonModel::Text(id)),
                                ("purpose"@, JsonModel::Text("generation_input"@)),
                                ("team"@, JsonModel::Text(""@)),
                            ],
                        ),
                    ),
                ],
            )
        },
    }
}

fn retry_body(path: Json, id: &str) -> (r: Json)
    ensures
        r@ == JsonModel::Object(
            seq![
                ("path"@, path@),
                ("client_id"@, JsonModel::Text(id@)),
                ("purpose"@, JsonModel::Text("generation_input"@)),
                ("team"@, JsonModel::Text(""@)),
            ],
        ),
{
    let ghost view = path@;
    let mut fields: Vec<(String, Json)> = Vec::new();
    fields.push(("path".to_owned(), path));
    fields.push(("client_id".to_owned(), Json::from_text(id)));
    fields.push(("purpose".to_owned(), Json::from_text("generation_input")));
    fields.push(("team".to_owned(), Json::from_text("")));
    let r: Json = Json::from_members(fields);
    proof {
        assert(r@->Object_0 =~= seq![
            ("path"@, view),
            ("client_id"@, JsonModel::Text(id@)),
            ("purpose"@, JsonModel::Text("generation_input"@)),
            ("team"@, JsonModel::Text(""@)),
        ]);
    }
    r
}

/// Tries the upload of a reference again.
pub fn retry_reference(studio: &mut Studio, id: &str) -> (r: Vec<Step>)
    requires
        are_objects(old(studio)@.references),
    ensures
        (final(studio)@, step_views(r@)) == reference_retried(old(studio)@, id@),
{
    let ghost before = models(studio.references@);
    let i: usize = match find_retry(&studio.references, id) {
        Some(i) => i,
        None => return none(),
    };
    let path: Json = studio.references[i].at("local_path");
    proof {
        assert(before[i as int] == studio.references@[i as int]@);
        crate::lists::first_from_found(before, can_retry(id@), 0);
        crate::lists::first_from_found(before, text_is("client_id"@, id@), 0);
        assert(text_is("client_id"@, id@)(before[i as int]));
    }
    if let Some(k) = find_text(&studio.references, "client_id", id) {
        let old_one: Json = studio.references[k].copy();
        proof {
            assert(before[k as int] is Object);
            assert(old_one@ == before[k as int]);
        }
        let waiting: Json = old_one.with("status", Json::from_text("uploading"));
        let ghost view = waiting@;
        studio.references.set(k, waiting);
        proof {
            assert(models(studio.references@) =~= before.update(k as int, view));
        }
    }
    sync_reference_recovery_warning(&mut studio.form, &studio.references);
    let mut steps: Vec<Step> = one(Step::Draw(Panel::References));
    then_do(&mut steps, Step::RefreshQuote);
    then_do(
        &mut steps,
        asking(cat("reference:", id).as_str(), "POST", "local:upload", retry_body(path, id)),
    );
    proof {
        assert(step_views(steps@) =~= reference_retried(old(studio)@, id@).1);
    }
    steps
}

/// What the row of a reference says of its state.
pub open spec fn reference_status(v: JsonModel) -> Seq<char> {
    let status = v.text("status"@);
    let kind = v.text("kind"@);
    let ms = number_at(v, "media_duration_ms"@);
    if status == "ready"@ {
        if kind == "image"@ {
            "图片"@
        } else {
            (if kind == "video"@ {
                "视频"@
            } else {
                "音频"@
            }) + (if ms > 0 {
                " · "@ + minutes_and_seconds(whole_seconds(ms))
            } else {
                ""@
            })
        }
    } else if status == "failed"@ {
        "上传失败"@
    } else if status == "expired"@ {
        "已过期"@
    } else if status == "missing"@ {
        "缺少文件，可替换"@
    } else {
        "上传中"@
    }
}

fn tell_reference(v: &Json) -> (r: String)
    ensures
        r@ == reference_status(v@),
{
    if v.text_is("status", "ready") {
        if v.text_is("kind", "image") {
            return "图片".to_owned();
        }
        let medium: &'static str = if v.text_is("kind", "video") {
            "视频"
        } else {
            "音频"
        };
        let ms: u64 = get_number(v, "media_duration_ms");
        let time: String = if ms > 0 {
            cat(" · ", to_minutes_and_seconds(seconds_of(ms)).as_str())
        } else {
            "".to_owned()
        };
        return cat(medium, time.as_str());
    }
    if v.text_is("status", "failed") {
        "上传失败".to_owned()
    } else if v.text_is("status", "expired") {
        "已过期".to_owned()
    } else if v.text_is("status", "missing") {
        "缺少文件，可替换".to_owned()
    } else {
        "上传中".to_owned()
    }
}

/// The row of the reference at a place.
pub open spec fn reference_row(references: Seq<JsonModel>, i: int) -> ItemRow {
    let v = references[i];
    ItemRow {
        id: v.text("client_id"@),
        name: v.text("display_name"@),
        kind: v.text("kind"@),
        detail: "@["@ + label_of_kind(v.text("kind"@)) + decimal(number_of(references, i)) + "]"@,
        status: reference_status(v),
        local: true,
        missing: v.text("status"@) == "missing"@,
        ready: v.text("status"@) == "ready"@,
        preview: v.text("preview_path"@),
        ..blank()
    }
}

pub open spec fn reference_rows(references: Seq<JsonModel>) -> Seq<ItemRow> {
    Seq::new(references.len(), |i: int| reference_row(references, i))
}

/// The rows of the references.
pub fn render_references(references: &Vec<Json>) -> (r: Vec<CloudItem>)
    ensures
        row_views(r@) == reference_rows(models(references@)),
{
    let mut out: Vec<CloudItem> = Vec::new();
    let mut i: usize = 0;
    while i < references.len()
        invariant
            i <= references.len(),
            out@.len() == i,
            forall|j: int|
                0 <= j < i ==> (#[trigger] out@[j])@ == reference_row(models(references@), j),
        decreases references.len() - i,
    {
        let v: &Json = &references[i];
        let kind: String = v.text("kind");
        let number: usize = reference_number(references, i);
        let head: String = cat3(
            "@[",
            reference_label(kind.as_str()),
            to_decimal(number as u64).as_str(),
        );
        out.push(
            CloudItem {
                id: v.text("client_id"),
                name: v.text("display_name"),
                kind,
                detail: cat(head.as_str(), "]"),
                status: tell_reference(v),
                local: true,
                missing: v.text_is("status", "missing"),
                ready: v.text_is("status", "ready"),
                preview: v.text("preview_path"),
                ..blank_item()
            },
        );
        i = i + 1;
    }
    proof {
        assert(row_views(out@) =~= reference_rows(models(references@)));
    }
    out
}

/// A file is a reference at most once, however often it is uploaded.
pub proof fn references_are_unique(
    studio: StudioView,
    intents: IntentsView,
    assets: Seq<JsonModel>,
    local: Map<Seq<char>, Seq<char>>,
    path: Seq<char>,
    client_id: Seq<char>,
)
    requires
        any(studio.references, text_is("local_path"@, path)),
    ensures
        upload_planned(
            studio,
            intents,
            assets,
            local,
            path,
            "generation_input"@,
            ""@,
            client_id,
        ).0 == studio.references,
{
}

/// The answer to an upload keeps the place of a reference and the name it is
/// shown under.
pub proof fn answers_keep_places(studio: StudioView, id: Seq<char>, value: JsonModel, i: int)
    requires
        place_of_client(studio.references, id) == Some(i),
    ensures
        reference_uploaded(studio, id, value).0.references.len() == studio.references.len(),
        forall|j: int|
            0 <= j < studio.references.len() && j != i ==> reference_uploaded(
                studio,
                id,
                value,
            ).0.references[j] == studio.references[j],
{
    crate::lists::first_from_found(studio.references, text_is("client_id"@, id), 0);
}

} // verus!
