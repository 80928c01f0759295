//! Checks of the state of a client that is never signed in: what is put into
//! it, and what has to come of it.

use crate::cloud::actions::{
    drop_reference, mention_reference, reference_dropped, reference_mentioned,
};
use crate::cloud::catalog::{
    options_updated, selected_id, selected_model, update_model_options, FormView,
};
use crate::cloud::client::{catalog_replaced, replace_catalog, Client, ClientView};
use crate::cloud::configuration::{
    configuration_parameter_index, current_template_parameters, saved_index, shown_parameters,
    SnapshotView, TaskInputSnapshot,
};
use crate::cloud::generation::{form_model, quote_refreshed, refresh_quote, QuoteView};
use crate::cloud::imports::{cancel_project_import, import_cancelled};
use crate::cloud::mentions::{mention_opened, PromptView};
use crate::cloud::personal::PersonalView;
use crate::cloud::personal_actions::{personal_acted, personal_action, ActionFacts, ActionView};
use crate::cloud::picker::{
    batch_continued, clear_picker_selection, continue_picker_batch, picker_confirm,
    picker_confirmed, picker_synced, picker_toggle, picker_toggled, sync_picker_selection,
    FactsView, PickerFacts, PickerView,
};
use crate::cloud::preview::{
    fail_media_preview, finish_media_preview, preview_failed, preview_finished, preview_set,
    set_media_preview, MediaPreview, PreviewView,
};
use crate::cloud::references::model_with_id;
use crate::cloud::rows::{blank_item, row_views, CloudItem, ItemRow};
use crate::cloud::steps::Step;
use crate::cloud::studio::{open_reference_mention, StudioView};
use crate::cloud::templates::{apply_task_snapshot, task_taken_up};
use crate::cloud::uploads::{reference_rows, render_references};
use crate::collections::{TextMap, TextSet};
use crate::json::{lookup, members, models, printed, Json, JsonModel};
use crate::text::{cat, cat3, contains, contains_text, decimal, same, to_decimal, verdict, views};
use vstd::prelude::*;
use vstd::string::*;

verus! {

/// What is said of a check that fails.
pub open spec fn fault(message: Seq<char>) -> Seq<char> {
    "offline state validation: "@ + message
}

/// What a check comes to.
pub open spec fn verified(condition: bool, message: Seq<char>) -> Result<(), Seq<char>> {
    if condition {
        Ok(())
    } else {
        Err(fault(message))
    }
}

fn verify(condition: bool, message: &str) -> (r: Result<(), String>)
    ensures
        verdict(r) == verified(condition, message@),
{
    if condition {
        Ok(())
    } else {
        Err(cat("offline state validation: ", message))
    }
}

/// Whether two objects have the same members, in whatever order.
pub open spec fn alike(a: JsonModel, b: JsonModel) -> bool {
    match (a, b) {
        (JsonModel::Object(x), JsonModel::Object(y)) => x.len() == y.len() && forall|i: int|
            0 <= i < y.len() ==> lookup(x, (#[trigger] y[i]).0) == Some(y[i].1),
        _ => a == b,
    }
}

fn are_alike(a: &Json, b: &Json) -> (r: bool)
    ensures
        r == alike(a@, b@),
{
    match (a, b) {
        (Json::Object(x), Json::Object(y)) => {
            proof {
                assert(a@->Object_0 =~= members(x@));
                assert(b@->Object_0 =~= members(y@));
            }
            if x.len() != y.len() {
                return false;
            }
            let mut i: usize = 0;
            while i < y.len()
                invariant
                    i <= y.len(),
                    a@ == JsonModel::Object(members(x@)),
                    b@ == JsonModel::Object(members(y@)),
                    x.len() == y.len(),
                    forall|j: int|
                        0 <= j < i ==> lookup(members(x@), (#[trigger] members(y@)[j]).0) == Some(
                            members(y@)[j].1,
                        ),
                decreases y.len() - i,
            {
                proof {
                    assert(members(y@)[i as int] == (y@[i as int].0@, y@[i as int].1@));
                }
                let found: bool = match a.get(y[i].0.as_str()) {
                    Some(v) => v.same(&y[i].1),
                    None => false,
                };
                if !found {
                    return false;
                }
                i = i + 1;
            }
            true
        },
        _ => a.same(b),
    }
}

/// The parameters that the form shows.
pub open spec fn shown(s: StudioView) -> JsonModel {
    shown_parameters(s.form, form_model(s.form, s.catalog))
}

/// What the check of the parameters that the form shows comes to.
#[verifier::opaque]
pub open spec fn expected(s: StudioView, wanted: JsonModel, message: Seq<char>) -> Result<
    (),
    Seq<char>,
> {
    if alike(shown(s), wanted) {
        Ok(())
    } else {
        Err(
            fault(message) + "; expected "@ + printed(wanted) + ", got "@ + printed(shown(s)),
        )
    }
}

fn expect_parameters(c: &Client, wanted: &Json, message: &str) -> (r: Result<(), String>)
    ensures
        verdict(r) == expected(c@.studio, wanted@, message@),
{
    proof {
        reveal(expected);
    }
    let actual: Json = current_template_parameters(&c.studio.form, &c.studio.catalog);
    if are_alike(&actual, wanted) {
        return Ok(());
    }
    let head: String = cat3(
        cat("offline state validation: ", message).as_str(),
        "; expected ",
        wanted.print().as_str(),
    );
    Err(cat3(head.as_str(), ", got ", actual.print().as_str()))
}

/// The model that the form has chosen.
#[verifier::opaque]
pub open spec fn chosen(s: StudioView) -> Seq<char> {
    selected_id(s.form.mode, s.form.model_index, s.catalog)
}

fn chosen_model(c: &Client) -> (r: String)
    ensures
        r@ == chosen(c@.studio),
{
    proof {
        reveal(chosen);
    }
    selected_model(c.studio.form.mode, c.studio.form.model_index, &c.studio.catalog)
}

/// The client after a task was taken up whose files are all gone.
#[verifier::opaque]
pub open spec fn taken_up(c: ClientView, snapshot: SnapshotView) -> ClientView {
    let n = snapshot.references.len();
    let (studio, tasks, steps) = task_taken_up(
        c.studio,
        c.tasks,
        snapshot,
        Seq::new(n, |i: int| false),
        Seq::new(n, |i: int| ""@),
    );
    ClientView { studio, tasks, ..c }
}

fn take_up(c: &mut Client, snapshot: TaskInputSnapshot)
    ensures
        final(c)@ == taken_up(old(c)@, snapshot@),
{
    proof {
        reveal(taken_up);
    }
    let n: usize = snapshot.references.len();
    let mut exists: Vec<bool> = Vec::new();
    let mut ids: Vec<String> = Vec::new();
    let mut i: usize = 0;
    while i < n
        invariant
            i <= n,
            exists@ == Seq::new(i as nat, |j: int| false),
            views(ids@) == Seq::new(i as nat, |j: int| ""@),
            ids@.len() == i,
        decreases n - i,
    {
        let ghost before = ids@;
        exists.push(false);
        ids.push("".to_owned());
        proof {
            assert(exists@ =~= Seq::new((i + 1) as nat, |j: int| false));
            assert(views(ids@) =~= views(before).push(""@));
            assert(views(ids@) =~= Seq::new((i + 1) as nat, |j: int| ""@));
        }
        i = i + 1;
    }
    proof {
        assert(snapshot@.references.len() == n);
    }
    apply_task_snapshot(&mut c.studio, &mut c.tasks, snapshot, &exists, &ids);
}

/// The client after the mode of the form was changed.
#[verifier::opaque]
pub open spec fn mode_set(c: ClientView, mode: i32) -> ClientView {
    let form = FormView { mode, ..c.studio.form };
    if c.studio.catalog.updating_model_options {
        ClientView { studio: StudioView { form, ..c.studio }, ..c }
    } else {
        let (after, catalog) = options_updated(form, c.studio.catalog, c.studio.references, false);
        ClientView { studio: StudioView { form: after, catalog, ..c.studio }, ..c }
    }
}

fn set_mode(c: &mut Client, mode: i32)
    ensures
        final(c)@ == mode_set(old(c)@, mode),
{
    proof {
        reveal(mode_set);
    }
    c.studio.form.mode = mode;
    update_model_options(&mut c.studio.form, &mut c.studio.catalog, &c.studio.references);
}

/// How a check of a client ended.
pub open spec fn ended(
    r: Result<(), String>,
    after: ClientView,
    told: Result<ClientView, Seq<char>>,
) -> bool {
    match (r, told) {
        (Ok(_), Ok(client)) => after == client,
        (Err(e), Err(message)) => e@ == message,
        _ => false,
    }
}

/// A task is taken up with the model that is chosen and then one of another
/// model: its parameters are shown, and the form is no longer that of a
/// template.
#[verifier::opaque]
pub open spec fn history_checked(
    c: ClientView,
    first: SnapshotView,
    second: SnapshotView,
    wanted: JsonModel,
) -> Result<ClientView, Seq<char>> {
    let a = taken_up(c, first);
    let b = taken_up(a, second);
    match expected(a.studio, wanted, "same-model history restore"@) {
        Err(e) => Err(e),
        Ok(()) => if a.studio.template.id != ""@ {
            Err(fault("history must detach template id"@))
        } else if chosen(b.studio) != second.model_id {
            Err(fault("cross-model history id"@))
        } else {
            match expected(b.studio, wanted, "cross-model history values"@) {
                Err(e) => Err(e),
                Ok(()) => Ok(b),
            }
        },
    }
}

/// Checks that tasks are taken up.
fn check_history(
    c: &mut Client,
    first: TaskInputSnapshot,
    second: TaskInputSnapshot,
    wanted: &Json,
) -> (r: Result<(), String>)
    ensures
        ended(r, final(c)@, history_checked(old(c)@, first@, second@, wanted@)),
{
    proof {
        reveal(history_checked);
    }
    take_up(c, first);
    if let Err(e) = expect_parameters(c, wanted, "same-model history restore") {
        return Err(e);
    }
    if let Err(e) = verify(
        same(c.studio.template.id.as_str(), ""),
        "history must detach template id",
    ) {
        return Err(e);
    }
    let id: String = second.model_id.clone();
    take_up(c, second);
    if let Err(e) = verify(
        same(chosen_model(c).as_str(), id.as_str()),
        "cross-model history id",
    ) {
        return Err(e);
    }
    expect_parameters(c, wanted, "cross-model history values")
}

/// A catalog comes in another order: the chosen model and its parameters stay.
#[verifier::opaque]
pub open spec fn reorder_checked(
    c: ClientView,
    list: Seq<JsonModel>,
    id: Seq<char>,
    wanted: JsonModel,
) -> Result<ClientView, Seq<char>> {
    let a = ClientView { studio: catalog_replaced(c.studio, list), ..c };
    if chosen(a.studio) != id {
        Err(fault("catalog reorder must preserve model id"@))
    } else {
        match expected(
            a.studio,
            wanted,
            "catalog reorder must preserve raw parameter values"@,
        ) {
            Err(e) => Err(e),
            Ok(()) => Ok(a),
        }
    }
}

/// Checks that a new order of the catalog changes no choice.
fn check_reorder(c: &mut Client, list: Vec<Json>, id: &str, wanted: &Json) -> (r: Result<
    (),
    String,
>)
    ensures
        ended(r, final(c)@, reorder_checked(old(c)@, models(list@), id@, wanted@)),
{
    proof {
        reveal(reorder_checked);
    }
    replace_catalog(&mut c.studio, list);
    if let Err(e) = verify(
        same(chosen_model(c).as_str(), id),
        "catalog reorder must preserve model id",
    ) {
        return Err(e);
    }
    expect_parameters(c, wanted, "catalog reorder must preserve raw parameter values")
}

/// The parameters of a video are there again after a look at the pictures.
#[verifier::opaque]
pub open spec fn drafts_checked(c: ClientView, video: SnapshotView, wanted: JsonModel) -> Result<
    ClientView,
    Seq<char>,
> {
    let a = taken_up(c, video);
    let b = mode_set(mode_set(a, 0), 1);
    match expected(a.studio, wanted, "video history restore"@) {
        Err(e) => Err(e),
        Ok(()) => match expected(b.studio, wanted, "video/image/video draft retention"@) {
            Err(e) => Err(e),
            Ok(()) => Ok(b),
        },
    }
}

/// Checks that the parameters of a mode are kept.
fn check_drafts(c: &mut Client, video: TaskInputSnapshot, wanted: &Json) -> (r: Result<
    (),
    String,
>)
    ensures
        ended(r, final(c)@, drafts_checked(old(c)@, video@, wanted@)),
{
    proof {
        reveal(drafts_checked);
    }
    take_up(c, video);
    if let Err(e) = expect_parameters(c, wanted, "video history restore") {
        return Err(e);
    }
    set_mode(c, 0);
    set_mode(c, 1);
    expect_parameters(c, wanted, "video/image/video draft retention")
}

/// The form with other values for a video.
pub open spec fn video_edited(form: FormView, model: JsonModel, changed: JsonModel) -> Result<
    FormView,
    Seq<char>,
> {
    match saved_index(model, "resolution"@, changed.at("resolution"@), "check"@) {
        Err(e) => Err(e),
        Ok(resolution) => match saved_index(
            model,
            "duration"@,
            changed.at("duration"@),
            "check"@,
        ) {
            Err(e) => Err(e),
            Ok(duration) => match saved_index(
                model,
                "aspect_ratio"@,
                changed.at("aspect_ratio"@),
                "check"@,
            ) {
                Err(e) => Err(e),
                Ok(ratio) => match saved_index(
                    model,
                    "quantity"@,
                    changed.at("quantity"@),
                    "check"@,
                ) {
                    Err(e) => Err(e),
                    Ok(quantity) => Ok(
                        FormView {
                            resolution_index: resolution,
                            duration_index: duration,
                            ratio_index: ratio,
                            quantity_index: quantity,
                            generate_audio: true,
                            ..form
                        },
                    ),
                },
            },
        },
    }
}

/// Edits of a video are there again after a picture was taken up.
#[verifier::opaque]
pub open spec fn outgoing_checked(
    c: ClientView,
    id: Seq<char>,
    changed: JsonModel,
    image: SnapshotView,
) -> Result<ClientView, Seq<char>> {
    match video_edited(c.studio.form, model_with_id(c.studio.catalog.models, id), changed) {
        Err(e) => Err(e),
        Ok(form) => {
            let edited = ClientView { studio: StudioView { form, ..c.studio }, ..c };
            let b = mode_set(taken_up(edited, image), 1);
            match expected(
                b.studio,
                changed,
                "image refill must preserve outgoing live video draft"@,
            ) {
                Err(e) => Err(e),
                Ok(()) => Ok(b),
            }
        },
    }
}

fn index_in(model: &Json, name: &str, changed: &Json) -> (r: Result<i32, String>)
    ensures
        match saved_index(model@, name@, changed@.at(name@), "check"@) {
            Ok(i) => r == Ok::<i32, String>(i),
            Err(message) => r matches Err(e) && e@ == message,
        },
{
    configuration_parameter_index(model, name, &changed.at(name), "check")
}

/// Checks that edits of a mode are kept when another is taken up.
fn check_outgoing(c: &mut Client, id: &str, changed: &Json, image: TaskInputSnapshot) -> (r:
    Result<(), String>)
    ensures
        ended(r, final(c)@, outgoing_checked(old(c)@, id@, changed@, image@)),
{
    proof {
        reveal(outgoing_checked);
    }
    let model: Json = match crate::lists::find_text(&c.studio.catalog.models, "id", id) {
        Some(i) => {
            proof {
                assert(models(c.studio.catalog.models@)[i as int]
                    == c.studio.catalog.models@[i as int]@);
            }
            c.studio.catalog.models[i].copy()
        },
        None => Json::Null,
    };
    let resolution: i32 = match index_in(&model, "resolution", changed) {
        Ok(i) => i,
        Err(e) => {
            return Err(e);
        },
    };
    let duration: i32 = match index_in(&model, "duration", changed) {
        Ok(i) => i,
        Err(e) => {
            return Err(e);
        },
    };
    let ratio: i32 = match index_in(&model, "aspect_ratio", changed) {
        Ok(i) => i,
        Err(e) => {
            return Err(e);
        },
    };
    let quantity: i32 = match index_in(&model, "quantity", changed) {
        Ok(i) => i,
        Err(e) => {
            return Err(e);
        },
    };
    c.studio.form.resolution_index = resolution;
    c.studio.form.duration_index = duration;
    c.studio.form.ratio_index = ratio;
    c.studio.form.quantity_index = quantity;
    c.studio.form.generate_audio = true;
    take_up(c, image);
    set_mode(c, 1);
    expect_parameters(c, changed, "image refill must preserve outgoing live video draft")
}

/// The client after the quote was asked for anew.
#[verifier::opaque]
pub open spec fn quote_asked(c: ClientView) -> ClientView {
    let (quote, request) = quote_refreshed(
        c.studio.quote,
        c.studio.form,
        c.studio.prompt.prompt,
        c.studio.catalog,
        c.studio.references,
        c.studio.signed_in,
    );
    ClientView { studio: StudioView { quote, ..c.studio }, ..c }
}

fn ask_quote(c: &mut Client)
    ensures
        final(c)@ == quote_asked(old(c)@),
{
    proof {
        reveal(quote_asked);
    }
    refresh_quote(
        &mut c.studio.quote,
        &c.studio.form,
        c.studio.prompt.prompt.as_str(),
        &c.studio.catalog,
        &c.studio.references,
        c.studio.signed_in,
    );
}

/// A task of a model that is gone: its prompt is shown, no model is chosen,
/// and nothing is offered.
#[verifier::opaque]
pub open spec fn missing_checked(c: ClientView, snapshot: SnapshotView) -> Result<
    ClientView,
    Seq<char>,
> {
    let a = taken_up(c, snapshot);
    let b = quote_asked(a);
    if a.studio.prompt.prompt != snapshot.prompt {
        Err(fault("missing model prompt recovery"@))
    } else if !(a.studio.form.model_index == -1 && chosen(a.studio) == ""@) {
        Err(fault("missing model must stay unselected"@))
    } else if !(!b.studio.quote.can_generate && b.studio.quote.text == ""@ && b.studio.quote.id
        == ""@) {
        Err(fault("missing model quote/generate gate"@))
    } else {
        Ok(b)
    }
}

/// Checks that a task of a model that is gone is taken up.
fn check_missing_model(c: &mut Client, snapshot: TaskInputSnapshot) -> (r: Result<(), String>)
    ensures
        ended(r, final(c)@, missing_checked(old(c)@, snapshot@)),
{
    proof {
        reveal(missing_checked);
    }
    let prompt: String = snapshot.prompt.clone();
    take_up(c, snapshot);
    if let Err(e) = verify(
        same(c.studio.prompt.prompt.as_str(), prompt.as_str()),
        "missing model prompt recovery",
    ) {
        return Err(e);
    }
    if let Err(e) = verify(
        c.studio.form.model_index == -1 && same(chosen_model(c).as_str(), ""),
        "missing model must stay unselected",
    ) {
        return Err(e);
    }
    ask_quote(c);
    verify(
        !c.studio.quote.can_generate && same(c.studio.quote.text.as_str(), "") && same(
            c.studio.quote.id.as_str(),
            "",
        ),
        "missing model quote/generate gate",
    )
}

/// The references with one of them uploaded.
pub open spec fn settled(references: Seq<JsonModel>, i: int) -> Seq<JsonModel> {
    if 0 <= i < references.len() && references[i].settable() {
        references.update(
            i,
            references[i].with("status"@, JsonModel::Text("ready"@)).with(
                "missing"@,
                JsonModel::Bool(false),
            ),
        )
    } else {
        references
    }
}

fn settle(references: &mut Vec<Json>, i: usize)
    ensures
        models(final(references)@) == settled(models(old(references)@), i as int),
{
    proof {
        assert(models(references@).len() == references@.len());
    }
    if i < references.len() {
        let ghost before = references@;
        proof {
            assert(models(before)[i as int] == before[i as int]@);
        }
        let old_value: Json = references[i].copy();
        let fit: bool = old_value.is_null() || old_value.is_object();
        if fit {
            let next: Json = old_value.with("status", Json::from_text("ready")).with(
                "missing",
                Json::from_bool(false),
            );
            let ghost view = next@;
            references.set(i, next);
            proof {
                assert(models(references@) =~= models(before).update(i as int, view));
            }
        }
    }
}

/// What is wrong with the rows of the references from a place on: each names
/// its reference and its number, and that in the middle is missing.
pub open spec fn rows_fault(rows: Seq<ItemRow>, ids: Seq<Seq<char>>, from: int) -> Option<Seq<char>>
    decreases ids.len() - from,
{
    if from < 0 || from >= ids.len() {
        None
    } else if from >= rows.len() {
        Some("missing reference UI row"@)
    } else if rows[from].id != ids[from] {
        Some(fault("reference identity order"@))
    } else if rows[from].detail != "@[图片"@ + decimal((from + 1) as nat) + "]"@ {
        Some(fault("reference mention numbering"@))
    } else if rows[from].missing != (from == 1) {
        Some(fault("middle missing-reference UI flag"@))
    } else {
        rows_fault(rows, ids, from + 1)
    }
}

fn check_rows(rows: &Vec<CloudItem>, ids: &Vec<String>) -> (r: Result<(), String>)
    ensures
        verdict(r) == match rows_fault(row_views(rows@), views(ids@), 0) {
            Some(message) => Err(message),
            None => Ok(()),
        },
{
    let ghost all = row_views(rows@);
    let ghost names = views(ids@);
    let mut i: usize = 0;
    while i < ids.len()
        invariant
            i <= ids.len(),
            all == row_views(rows@),
            names == views(ids@),
            rows_fault(all, names, 0) == rows_fault(all, names, i as int),
        decreases ids.len() - i,
    {
        proof {
            assert(names[i as int] == ids@[i as int]@);
            assert(all.len() == rows@.len());
        }
        if i >= rows.len() {
            return Err("missing reference UI row".to_owned());
        }
        proof {
            assert(all[i as int] == rows@[i as int]@);
        }
        if !same(rows[i].id.as_str(), ids[i].as_str()) {
            return Err(cat("offline state validation: ", "reference identity order"));
        }
        let number: String = to_decimal(i as u64 + 1);
        let label: String = cat3("@[图片", number.as_str(), "]");
        if !same(rows[i].detail.as_str(), label.as_str()) {
            return Err(cat("offline state validation: ", "reference mention numbering"));
        }
        if rows[i].missing != (i == 1) {
            return Err(cat("offline state validation: ", "middle missing-reference UI flag"));
        }
        i = i + 1;
    }
    Ok(())
}

/// A task whose references are gone: none is dropped, and where the first and
/// the last are there again only that in the middle is missing.
#[verifier::opaque]
pub open spec fn references_checked(c: ClientView, snapshot: SnapshotView, ids: Seq<Seq<char>>) -> Result<
    ClientView,
    Seq<char>,
> {
    let a = taken_up(c, snapshot);
    let references = settled(settled(a.studio.references, 0), 2);
    let b = ClientView { studio: StudioView { references, ..a.studio }, ..a };
    if a.studio.references.len() != ids.len() {
        Err(fault("missing references must not be dropped"@))
    } else {
        match rows_fault(reference_rows(references), ids, 0) {
            Some(message) => Err(message),
            None => if b.studio.prompt.prompt != snapshot.prompt {
                Err(fault("recovery must preserve prompt mentions"@))
            } else {
                Ok(b)
            },
        }
    }
}

/// Checks that references that are gone keep their places.
fn check_missing_references(c: &mut Client, snapshot: TaskInputSnapshot, ids: &Vec<String>) -> (r:
    Result<(), String>)
    ensures
        ended(r, final(c)@, references_checked(old(c)@, snapshot@, views(ids@))),
{
    proof {
        reveal(references_checked);
    }
    let prompt: String = snapshot.prompt.clone();
    take_up(c, snapshot);
    if let Err(e) = verify(
        c.studio.references.len() == ids.len(),
        "missing references must not be dropped",
    ) {
        return Err(e);
    }
    settle(&mut c.studio.references, 0);
    settle(&mut c.studio.references, 2);
    let rows: Vec<CloudItem> = render_references(&c.studio.references);
    if let Err(e) = check_rows(&rows, ids) {
        return Err(e);
    }
    verify(
        same(c.studio.prompt.prompt.as_str(), prompt.as_str()),
        "recovery must preserve prompt mentions",
    )
}

/// The client with an offer that can be taken.
pub open spec fn offered_at(c: ClientView, id: Seq<char>) -> ClientView {
    ClientView {
        studio: StudioView {
            quote: QuoteView { id, can_generate: true, ..c.studio.quote },
            ..c.studio
        },
        ..c
    }
}

/// A reference is taken out: the others follow, the prompt says so, and the
/// offer no longer holds.
#[verifier::opaque]
pub open spec fn removal_checked(c: ClientView, id: Seq<char>) -> Result<ClientView, Seq<char>> {
    let a = offered_at(c, "offline-quote"@);
    let (dropped, steps) = reference_dropped(a, id);
    let b = if steps.len() > 0 {
        quote_asked(dropped)
    } else {
        dropped
    };
    if b.studio.references.len() + 1 != c.studio.references.len() {
        Err(fault("reference removal count"@))
    } else if !(contains_text(b.studio.prompt.prompt, "[已移除参考图片]"@) && contains_text(
        b.studio.prompt.prompt,
        "@[图片2]"@,
    )) {
        Err(fault("removed mention marker and following number"@))
    } else if !(b.studio.quote.id == ""@ && !b.studio.quote.can_generate) {
        Err(fault("reference removal invalidates quote"@))
    } else {
        Ok(b)
    }
}

/// Checks that a reference is taken out.
fn check_removal(c: &mut Client, id: &str) -> (r: Result<(), String>)
    ensures
        ended(r, final(c)@, removal_checked(old(c)@, id@)),
{
    proof {
        reveal(removal_checked);
    }
    let count: usize = c.studio.references.len();
    c.studio.quote.id = "offline-quote".to_owned();
    c.studio.quote.can_generate = true;
    let steps: Vec<Step> = drop_reference(c, id);
    proof {
        assert(crate::cloud::steps::step_views(steps@).len() == steps@.len());
    }
    if steps.len() > 0 {
        ask_quote(c);
    }
    if let Err(e) = verify(
        count > 0 && c.studio.references.len() == count - 1,
        "reference removal count",
    ) {
        return Err(e);
    }
    if let Err(e) = verify(
        contains(c.studio.prompt.prompt.as_str(), "[已移除参考图片]") && contains(
            c.studio.prompt.prompt.as_str(),
            "@[图片2]",
        ),
        "removed mention marker and following number",
    ) {
        return Err(e);
    }
    verify(
        same(c.studio.quote.id.as_str(), "") && !c.studio.quote.can_generate,
        "reference removal invalidates quote",
    )
}

/// A mention is begun between two characters and completed: it stands there,
/// and the offer no longer holds.
#[verifier::opaque]
pub open spec fn mention_checked(c: ClientView, id: Seq<char>) -> Result<ClientView, Seq<char>> {
    let a = offered_at(
        ClientView {
            studio: StudioView {
                prompt: PromptView {
                    prompt: "前后"@,
                    prompt_cursor: 3,
                    ..c.studio.prompt
                },
                ..c.studio
            },
            ..c
        },
        "stale-quote"@,
    );
    let b = ClientView {
        studio: StudioView {
            prompt: mention_opened(a.studio.prompt),
            quote: QuoteView {
                id: ""@,
                credits: None,
                text: ""@,
                can_generate: false,
                ..a.studio.quote
            },
            ..a.studio
        },
        ..a
    };
    let d = reference_mentioned(b, id).0;
    if !(b.studio.prompt.prompt == "前@后"@ && b.studio.prompt.prompt_cursor == 4
        && b.studio.prompt.mention_open) {
        Err(fault("@ button inserts at the cursor and opens references"@))
    } else if !(b.studio.quote.id == ""@ && !b.studio.quote.can_generate) {
        Err(fault("@ button invalidates the previous quote"@))
    } else if !(d.studio.prompt.prompt == "前@[图片1] 后"@ && !d.studio.prompt.mention_open) {
        Err(fault("keyboard reference selection replaces @ at the cursor"@))
    } else {
        Ok(d)
    }
}

/// Checks that a mention is put into the prompt.
fn check_mention(c: &mut Client, id: &str) -> (r: Result<(), String>)
    ensures
        ended(r, final(c)@, mention_checked(old(c)@, id@)),
{
    proof {
        reveal(mention_checked);
    }
    c.studio.prompt.prompt = "前后".to_owned();
    c.studio.prompt.prompt_cursor = 3;
    c.studio.quote.id = "stale-quote".to_owned();
    c.studio.quote.can_generate = true;
    open_reference_mention(&mut c.studio);
    if let Err(e) = verify(
        same(c.studio.prompt.prompt.as_str(), "前@后") && c.studio.prompt.prompt_cursor == 4
            && c.studio.prompt.mention_open,
        "@ button inserts at the cursor and opens references",
    ) {
        return Err(e);
    }
    if let Err(e) = verify(
        same(c.studio.quote.id.as_str(), "") && !c.studio.quote.can_generate,
        "@ button invalidates the previous quote",
    ) {
        return Err(e);
    }
    mention_reference(c, id);
    verify(
        same(c.studio.prompt.prompt.as_str(), "前@[图片1] 后") && !c.studio.prompt.mention_open,
        "keyboard reference selection replaces @ at the cursor",
    )
}

/// What the personal library acts on where nothing is there.
pub open spec fn offline_facts(c: ClientView) -> ActionView {
    ActionView {
        mode: c.studio.form.mode,
        model_index: c.studio.form.model_index,
        catalog: c.studio.catalog,
        references: c.studio.references,
        team: ""@,
        present: Set::empty(),
        signed_in: false,
        working: false,
    }
}

/// The client after a file of the personal library was chosen or not chosen
/// any more.
#[verifier::opaque]
pub open spec fn file_clicked(c: ClientView, id: Seq<char>) -> ClientView {
    let (personal, intents, steps) = personal_acted(
        c.personal,
        c.intents,
        offline_facts(c),
        "personal-select"@,
        id,
    );
    ClientView { personal, intents, ..c }
}

fn click_file(c: &mut Client, id: &str)
    ensures
        final(c)@ == file_clicked(old(c)@, id@),
{
    proof {
        reveal(file_clicked);
    }
    let present: TextSet = TextSet::new();
    let facts: ActionFacts = ActionFacts {
        mode: c.studio.form.mode,
        model_index: c.studio.form.model_index,
        catalog: &c.studio.catalog,
        references: &c.studio.references,
        team: "",
        present: &present,
        signed_in: false,
        working: false,
    };
    personal_action(&mut c.personal, &mut c.intents, &facts, "personal-select", id);
}

/// A file of the personal library is chosen and not chosen any more.
#[verifier::opaque]
pub open spec fn choice_checked(c: ClientView, id: Seq<char>) -> Result<ClientView, Seq<char>> {
    let a = file_clicked(c, id);
    let b = file_clicked(a, id);
    if c.personal.selected.len() != 0 {
        Err(fault("zero selection must retain management mode"@))
    } else if a.personal.selected.len() != 1 {
        Err(fault("management selection"@))
    } else if b.personal.selected.len() != 0 {
        Err(fault("deselect last row must retain management mode"@))
    } else {
        Ok(b)
    }
}

/// Checks that a file can be chosen and not chosen any more.
fn check_choice(c: &mut Client, id: &str) -> (r: Result<(), String>)
    ensures
        ended(r, final(c)@, choice_checked(old(c)@, id@)),
{
    proof {
        reveal(choice_checked);
    }
    if let Err(e) = verify(
        c.personal.selected.len() == 0,
        "zero selection must retain management mode",
    ) {
        return Err(e);
    }
    click_file(c, id);
    if let Err(e) = verify(c.personal.selected.len() == 1, "management selection") {
        return Err(e);
    }
    click_file(c, id);
    verify(c.personal.selected.len() == 0, "deselect last row must retain management mode")
}

/// What the picker acts on.
pub open spec fn picker_facts(c: ClientView, present: Set<Seq<char>>) -> FactsView {
    FactsView {
        mode: c.studio.form.mode,
        model_index: c.studio.form.model_index,
        catalog: c.studio.catalog,
        references: c.studio.references,
        personal: c.personal.assets,
        page: c.team,
        local: Map::empty(),
        present,
        folder: ""@,
        signed_in: false,
    }
}

/// The picker after two files were clicked.
#[verifier::opaque]
pub open spec fn two_picked(c: ClientView, first: Seq<char>, second: Seq<char>) -> PickerView {
    let open = picker_synced(
        PickerView { purpose: "import"@, source: 0, open: true, ..c.picker },
        c.team,
    );
    let one = picker_toggled(open, c.personal.assets, c.team, first).0;
    picker_toggled(one, c.personal.assets, c.team, second).0
}

fn pick_two(c: &mut Client, first: &str, second: &str)
    ensures
        final(c)@ == (ClientView { picker: two_picked(old(c)@, first@, second@), ..old(c)@ }),
{
    proof {
        reveal(two_picked);
    }
    c.picker.purpose = "import".to_owned();
    c.picker.source = 0;
    c.picker.open = true;
    sync_picker_selection(&mut c.picker, &c.team);
    picker_toggle(&mut c.picker, &c.personal.assets, &c.team, first);
    picker_toggle(&mut c.picker, &c.personal.assets, &c.team, second);
}

/// The client after the choice of the picker was confirmed.
#[verifier::opaque]
pub open spec fn choice_confirmed(c: ClientView, present: Set<Seq<char>>) -> ClientView {
    ClientView { picker: picker_confirmed(c.picker, picker_facts(c, present)).0, ..c }
}

/// The client after the batch of the picker went on.
#[verifier::opaque]
pub open spec fn choice_continued(c: ClientView, present: Set<Seq<char>>) -> ClientView {
    ClientView { picker: batch_continued(c.picker, picker_facts(c, present), c.queue).0, ..c }
}

/// The client after the imports that wait were given up.
#[verifier::opaque]
pub open spec fn imports_given_up(c: ClientView) -> ClientView {
    ClientView { transfers: import_cancelled(c.transfers).0, ..c }
}

/// Two files are picked, given up, picked again and confirmed: nothing is
/// imported before, and then both in the order of the choice.
#[verifier::opaque]
pub open spec fn picker_checked(
    c: ClientView,
    first: Seq<char>,
    second: Seq<char>,
    paths: Seq<Seq<char>>,
    present: Set<Seq<char>>,
) -> Result<ClientView, Seq<char>> {
    let a = ClientView { picker: two_picked(c, first, second), ..c };
    let b = ClientView {
        picker: PickerView {
            selected: Seq::empty(),
            count: 0,
            context: ""@,
            open: false,
            ..a.picker
        },
        ..a
    };
    let d = ClientView { picker: two_picked(b, first, second), ..b };
    let e = choice_confirmed(d, present);
    let g = choice_continued(e, present);
    let h = imports_given_up(g);
    if !(a.picker.selected.len() == 2 && a.transfers.pending.len() == 0) {
        Err(fault("picker staging must not add/import"@))
    } else if !batch_leads(e.picker, paths) {
        Err(fault("confirmed picker batch must preserve selection order"@))
    } else if !(!g.picker.open && g.picker.batch is None && g.picker.selected.len() == 0) {
        Err(fault("confirmed picker clears staging"@))
    } else if h.transfers.pending.len() != 0 {
        Err(fault("cancel queued offline imports"@))
    } else {
        Ok(h)
    }
}

/// Whether the batch of a picker leads to some files, in their order.
pub open spec fn batch_leads(picker: PickerView, paths: Seq<Seq<char>>) -> bool {
    match picker.batch {
        Some(batch) => batch.items.len() == paths.len() && forall|i: int|
            0 <= i < paths.len() ==> (#[trigger] batch.items[i]).local_path == paths[i],
        None => false,
    }
}

fn leads_to(c: &Client, paths: &Vec<String>) -> (r: bool)
    ensures
        r == batch_leads(c@.picker, views(paths@)),
{
    match &c.picker.batch {
        Some(batch) => {
            let ghost items = crate::cloud::picker::selection_views(batch.items@);
            proof {
                assert(items.len() == batch.items@.len());
            }
            if batch.items.len() != paths.len() {
                return false;
            }
            let mut i: usize = 0;
            while i < paths.len()
                invariant
                    i <= paths.len(),
                    items == crate::cloud::picker::selection_views(batch.items@),
                    items.len() == batch.items@.len(),
                    batch.items.len() == paths.len(),
                    c.picker.batch == Some(*batch),
                    views(paths@).len() == paths@.len(),
                    forall|j: int|
                        0 <= j < i ==> (#[trigger] items[j]).local_path == views(paths@)[j],
                decreases paths.len() - i,
            {
                proof {
                    assert(items[i as int] == batch.items@[i as int]@);
                    assert(views(paths@)[i as int] == paths@[i as int]@);
                }
                if !same(batch.items[i].local_path.as_str(), paths[i].as_str()) {
                    proof {
                        assert(c@.picker.batch->0.items == items);
                        assert(items[i as int].local_path != views(paths@)[i as int]);
                    }
                    return false;
                }
                i = i + 1;
            }
            true
        },
        None => false,
    }
}

fn confirm_picker(c: &mut Client, present: &TextSet)
    ensures
        final(c)@ == choice_confirmed(old(c)@, present@),
{
    proof {
        reveal(choice_confirmed);
    }
    let local: TextMap<String> = TextMap::new();
    let facts: PickerFacts = PickerFacts {
        mode: c.studio.form.mode,
        model_index: c.studio.form.model_index,
        catalog: &c.studio.catalog,
        references: &c.studio.references,
        personal: &c.personal.assets,
        page: &c.team,
        local: &local,
        present,
        folder: "",
        signed_in: false,
    };
    picker_confirm(&mut c.picker, &facts);
}

fn continue_picker(c: &mut Client, present: &TextSet)
    ensures
        final(c)@ == choice_continued(old(c)@, present@),
{
    proof {
        reveal(choice_continued);
    }
    let local: TextMap<String> = TextMap::new();
    let facts: PickerFacts = PickerFacts {
        mode: c.studio.form.mode,
        model_index: c.studio.form.model_index,
        catalog: &c.studio.catalog,
        references: &c.studio.references,
        personal: &c.personal.assets,
        page: &c.team,
        local: &local,
        present,
        folder: "",
        signed_in: false,
    };
    continue_picker_batch(&mut c.picker, &facts, &c.queue);
}

fn give_up_imports(c: &mut Client)
    ensures
        final(c)@ == imports_given_up(old(c)@),
{
    proof {
        reveal(imports_given_up);
    }
    cancel_project_import(&mut c.transfers);
}

/// Checks that files are picked in the order of the choice.
fn check_picker(
    c: &mut Client,
    first: &str,
    second: &str,
    paths: &Vec<String>,
    present: &TextSet,
) -> (r: Result<(), String>)
    ensures
        ended(
            r,
            final(c)@,
            picker_checked(old(c)@, first@, second@, views(paths@), present@),
        ),
{
    proof {
        reveal(picker_checked);
    }
    proof {
        assert(views(c.transfers.pending@).len() == c.transfers.pending@.len());
    }
    pick_two(c, first, second);
    proof {
        assert(views(c.picker.selected@).len() == c.picker.selected@.len());
    }
    if let Err(e) = verify(
        c.picker.selected.len() == 2 && c.transfers.pending.len() == 0,
        "picker staging must not add/import",
    ) {
        return Err(e);
    }
    clear_picker_selection(&mut c.picker);
    c.picker.context = "".to_owned();
    c.picker.open = false;
    pick_two(c, first, second);
    confirm_picker(c, present);
    if let Err(e) = verify(
        leads_to(c, paths),
        "confirmed picker batch must preserve selection order",
    ) {
        return Err(e);
    }
    continue_picker(c, present);
    proof {
        assert(views(c.picker.selected@).len() == c.picker.selected@.len());
    }
    if let Err(e) = verify(
        !c.picker.open && c.picker.batch.is_none() && c.picker.selected.len() == 0,
        "confirmed picker clears staging",
    ) {
        return Err(e);
    }
    give_up_imports(c);
    proof {
        assert(views(c.transfers.pending@).len() == c.transfers.pending@.len());
    }
    verify(c.transfers.pending.len() == 0, "cancel queued offline imports")
}

/// A file that is shown.
pub open spec fn sample_item() -> ItemRow {
    ItemRow {
        id: "same-id"@,
        name: "Offline preview"@,
        kind: "image"@,
        ..crate::cloud::rows::blank()
    }
}

fn make_sample() -> (r: CloudItem)
    ensures
        r@ == sample_item(),
{
    let mut item: CloudItem = blank_item();
    item.id = "same-id".to_owned();
    item.name = "Offline preview".to_owned();
    item.kind = "image".to_owned();
    item
}

/// Answers to a preview that is no longer shown change nothing, and the answer
/// to the one that is shown is taken.
#[verifier::opaque]
pub open spec fn preview_checked(p: PreviewView, path: Seq<char>) -> Result<PreviewView, Seq<char>> {
    let a = preview_set(p, "asset"@, sample_item(), true, ""@);
    let b = preview_set(a, "task"@, sample_item(), true, ""@);
    let late = preview_failed(
        preview_finished(b, "same-id"@, path, Some(a.token)),
        "same-id"@,
        a.token,
        "late asset failure"@,
    );
    let other = preview_finished(late, "different-id"@, path, Some(b.token));
    let done = preview_finished(other, "same-id"@, path, Some(b.token));
    let c = preview_set(done, "reference"@, sample_item(), true, ""@);
    let closed = PreviewView { open: false, ..c };
    let after = preview_failed(
        preview_finished(closed, "same-id"@, path, Some(c.token)),
        "same-id"@,
        c.token,
        "late closed failure"@,
    );
    if a.token == b.token {
        Err(fault("new preview open must advance token"@))
    } else if !(late.source == "task"@ && late.loading && !late.item.ready && late.error == ""@) {
        Err(
            fault(
                "same-id old-source completion/failure must not replace current preview"@,
            ),
        )
    } else if !(!other.item.ready && other.loading) {
        Err(fault("mismatched preview identity"@))
    } else if !(done.item.ready && !done.loading && done.item.preview == path) {
        Err(fault("current preview completion loads fixture"@))
    } else if !(!after.open && !after.item.ready && after.loading && after.error == ""@) {
        Err(fault("closed preview must ignore late completion/failure"@))
    } else {
        Ok(after)
    }
}

/// Checks that late answers to a preview change nothing.
fn check_preview(p: &mut MediaPreview, path: &str) -> (r: Result<(), String>)
    ensures
        match (r, preview_checked(old(p)@, path@)) {
            (Ok(_), Ok(after)) => final(p)@ == after,
            (Err(e), Err(message)) => e@ == message,
            _ => false,
        },
{
    proof {
        reveal(preview_checked);
    }
    let first: u64 = set_media_preview(p, "asset", make_sample(), true, "");
    let second: u64 = set_media_preview(p, "task", make_sample(), true, "");
    if let Err(e) = verify(first != second, "new preview open must advance token") {
        return Err(e);
    }
    finish_media_preview(p, "same-id", path, Some(first));
    fail_media_preview(p, "same-id", first, "late asset failure");
    if let Err(e) = verify(
        same(p.source.as_str(), "task") && p.loading && !p.item.ready && same(
            p.error.as_str(),
            "",
        ),
        "same-id old-source completion/failure must not replace current preview",
    ) {
        return Err(e);
    }
    finish_media_preview(p, "different-id", path, Some(second));
    if let Err(e) = verify(!p.item.ready && p.loading, "mismatched preview identity") {
        return Err(e);
    }
    finish_media_preview(p, "same-id", path, Some(second));
    if let Err(e) = verify(
        p.item.ready && !p.loading && same(p.item.preview.as_str(), path),
        "current preview completion loads fixture",
    ) {
        return Err(e);
    }
    let third: u64 = set_media_preview(p, "reference", make_sample(), true, "");
    p.open = false;
    finish_media_preview(p, "same-id", path, Some(third));
    fail_media_preview(p, "same-id", third, "late closed failure");
    verify(
        !p.open && !p.item.ready && p.loading && same(p.error.as_str(), ""),
        "closed preview must ignore late completion/failure",
    )
}

/// Whether nothing was sent and nothing waits to be sent.
pub open spec fn is_idle(c: ClientView) -> bool {
    !c.studio.signed_in && c.queue.pending.len() == 0 && c.queue.active_name == ""@
        && c.studio.submission is None
}

/// Checks that nothing was sent.
fn check_idle(c: &Client) -> (r: Result<(), String>)
    ensures
        verdict(r) == verified(
            is_idle(c@),
            "offline validation must not queue network/submission"@,
        ),
{
    verify(
        !c.studio.signed_in && c.queue.pending.len() == 0 && same(
            c.queue.active_name.as_str(),
            "",
        ) && c.studio.submission.is_none(),
        "offline validation must not queue network/submission",
    )
}

/// What a client is checked with.
pub struct Fixtures {
    /// The models, and the same models in another order.
    pub models: Vec<Json>,
    pub reordered: Vec<Json>,
    /// The parameters of a picture, of a video, and of a video that is edited.
    pub image: Json,
    pub video: Json,
    pub changed: Json,
    /// Tasks of two models of pictures, of one of videos, and of one that is
    /// gone.
    pub first: TaskInputSnapshot,
    pub second: TaskInputSnapshot,
    pub movie: TaskInputSnapshot,
    pub again: TaskInputSnapshot,
    pub removed: TaskInputSnapshot,
    /// A task whose references are gone, and their identities.
    pub bare: TaskInputSnapshot,
    pub references: Vec<String>,
    /// A file of the personal library.
    pub item: Json,
    /// Files that are picked, where they are, and the paths in the order of
    /// the choice.
    pub picked: Vec<Json>,
    pub paths: Vec<String>,
    pub picture: String,
}

/// The client before the checks: it is not signed in, and shows the form of
/// pictures with a template in it.
#[verifier::opaque]
pub open spec fn prepared(c: ClientView, list: Seq<JsonModel>) -> ClientView {
    let start = ClientView {
        studio: StudioView {
            signed_in: false,
            page: 1,
            form: FormView { model_index: 0, ..c.studio.form },
            catalog: crate::cloud::catalog::CatalogView { models: list, ..c.studio.catalog },
            template: crate::cloud::studio::TemplateFormView {
                id: "unrelated-template"@,
                ..c.studio.template
            },
            ..c.studio
        },
        picker: PickerView { open: false, ..c.picker },
        ..c
    };
    mode_set(start, 0)
}

fn prepare(c: &mut Client, list: Vec<Json>)
    ensures
        final(c)@ == prepared(old(c)@, models(list@)),
{
    proof {
        reveal(prepared);
    }
    c.studio.signed_in = false;
    c.studio.page = 1;
    c.studio.form.model_index = 0;
    c.picker.open = false;
    c.studio.catalog.models = list;
    c.studio.template.id = "unrelated-template".to_owned();
    set_mode(c, 0);
}

/// The client with a personal library of some files, shown without filters.
#[verifier::opaque]
pub open spec fn with_library(c: ClientView, assets: Seq<JsonModel>) -> ClientView {
    ClientView {
        personal: PersonalView {
            assets,
            search: ""@,
            filter: 0,
            source: 0,
            favorites: false,
            trash: false,
            ..c.personal
        },
        ..c
    }
}

fn set_library(c: &mut Client, assets: Vec<Json>)
    ensures
        final(c)@ == with_library(old(c)@, models(assets@)),
{
    proof {
        reveal(with_library);
    }
    c.personal.assets = assets;
    c.personal.search = "".to_owned();
    c.personal.filter = 0;
    c.personal.source = 0;
    c.personal.favorites = false;
    c.personal.trash = false;
}

/// What is checked of the form and its models.
#[verifier::opaque]
pub open spec fn forms_checked(c: ClientView, f: Fixtures) -> Result<ClientView, Seq<char>> {
    match history_checked(prepared(c, models(f.models@)), f.first@, f.second@, f.image@) {
        Err(e) => Err(e),
        Ok(a) => match reorder_checked(a, models(f.reordered@), f.second@.model_id, f.image@) {
            Err(e) => Err(e),
            Ok(b) => match drafts_checked(b, f.movie@, f.video@) {
                Err(e) => Err(e),
                Ok(d) => match outgoing_checked(d, f.movie@.model_id, f.changed@, f.again@) {
                    Err(e) => Err(e),
                    Ok(g) => missing_checked(g, f.removed@),
                },
            },
        },
    }
}

/// What is checked of the references and their mentions.
#[verifier::opaque]
pub open spec fn mentions_checked(c: ClientView, f: Fixtures) -> Result<ClientView, Seq<char>> {
    match references_checked(c, f.bare@, views(f.references@)) {
        Err(e) => Err(e),
        Ok(a) => match removal_checked(a, "reference-2"@) {
            Err(e) => Err(e),
            Ok(b) => mention_checked(b, "reference-1"@),
        },
    }
}

/// What is checked of the libraries and of what was sent.
#[verifier::opaque]
pub open spec fn libraries_checked(c: ClientView, f: Fixtures, present: Set<Seq<char>>) -> Result<
    ClientView,
    Seq<char>,
> {
    match choice_checked(with_library(c, seq![f.item@]), "offline-personal"@) {
        Err(e) => Err(e),
        Ok(a) => match picker_checked(
            with_library(a, models(f.picked@)),
            "picker-1"@,
            "picker-0"@,
            views(f.paths@),
            present,
        ) {
            Err(e) => Err(e),
            Ok(b) => match preview_checked(b.preview, f.picture@) {
                Err(e) => Err(e),
                Ok(preview) => {
                    let d = ClientView { preview, ..b };
                    if is_idle(d) {
                        Ok(d)
                    } else {
                        Err(fault("offline validation must not queue network/submission"@))
                    }
                },
            },
        },
    }
}

/// What the checks come to.
pub open spec fn all_checked(c: ClientView, f: Fixtures, present: Set<Seq<char>>) -> Result<
    ClientView,
    Seq<char>,
> {
    match forms_checked(c, f) {
        Err(e) => Err(e),
        Ok(a) => match mentions_checked(a, f) {
            Err(e) => Err(e),
            Ok(b) => libraries_checked(b, f, present),
        },
    }
}

/// What the checks that passed are called.
pub open spec fn passed_names() -> Seq<Seq<char>> {
    seq![
        "same/cross-model history and template detachment"@,
        "model and option catalog reorder"@,
        "video/image/video duration audio ratio retention"@,
        "cross-mode history retains outgoing edits"@,
        "missing model recovery and generation gate"@,
        "missing middle reference order and mention numbering"@,
        "failed or missing reference removal keeps mention and quote state consistent"@,
        "reference mention insertion and quote invalidation"@,
        "management mode at zero/one/zero selected"@,
        "local picker staging/cancel and confirmed import batch order (closed project)"@,
        "preview token source identity and closed late-result guards"@,
    ]
}

fn list_passed() -> (r: Vec<String>)
    ensures
        views(r@) == passed_names(),
{
    let mut v: Vec<String> = Vec::new();
    v.push("same/cross-model history and template detachment".to_owned());
    v.push("model and option catalog reorder".to_owned());
    v.push("video/image/video duration audio ratio retention".to_owned());
    v.push("cross-mode history retains outgoing edits".to_owned());
    v.push("missing model recovery and generation gate".to_owned());
    v.push("missing middle reference order and mention numbering".to_owned());
    v.push(
        "failed or missing reference removal keeps mention and quote state consistent".to_owned(),
    );
    v.push("reference mention insertion and quote invalidation".to_owned());
    v.push("management mode at zero/one/zero selected".to_owned());
    v.push(
        "local picker staging/cancel and confirmed import batch order (closed project)".to_owned(),
    );
    v.push("preview token source identity and closed late-result guards".to_owned());
    proof {
        assert(views(v@) =~= passed_names());
    }
    v
}

fn check_all(c: &mut Client, f: Fixtures, present: &TextSet) -> (r: Result<Vec<String>, String>)
    ensures
        match (r, all_checked(old(c)@, f, present@)) {
            (Ok(names), Ok(after)) => views(names@) == passed_names() && final(c)@ == after,
            (Err(e), Err(message)) => e@ == message,
            _ => false,
        },
{
    proof {
        reveal(forms_checked);
        reveal(mentions_checked);
        reveal(libraries_checked);
    }
    let second: String = f.second.model_id.clone();
    let movie: String = f.movie.model_id.clone();
    prepare(c, f.models);
    if let Err(e) = check_history(c, f.first, f.second, &f.image) {
        return Err(e);
    }
    if let Err(e) = check_reorder(c, f.reordered, second.as_str(), &f.image) {
        return Err(e);
    }
    if let Err(e) = check_drafts(c, f.movie, &f.video) {
        return Err(e);
    }
    if let Err(e) = check_outgoing(c, movie.as_str(), &f.changed, f.again) {
        return Err(e);
    }
    if let Err(e) = check_missing_model(c, f.removed) {
        return Err(e);
    }
    if let Err(e) = check_missing_references(c, f.bare, &f.references) {
        return Err(e);
    }
    if let Err(e) = check_removal(c, "reference-2") {
        return Err(e);
    }
    if let Err(e) = check_mention(c, "reference-1") {
        return Err(e);
    }
    let mut library: Vec<Json> = Vec::new();
    library.push(f.item);
    proof {
        assert(models(library@) =~= seq![f.item@]);
    }
    set_library(c, library);
    if let Err(e) = check_choice(c, "offline-personal") {
        return Err(e);
    }
    set_library(c, f.picked);
    if let Err(e) = check_picker(c, "picker-1", "picker-0", &f.paths, present) {
        return Err(e);
    }
    if let Err(e) = check_preview(&mut c.preview, f.picture.as_str()) {
        return Err(e);
    }
    if let Err(e) = check_idle(c) {
        return Err(e);
    }
    Ok(list_passed())
}

/// Checks the client from one end to the other; the result is the client with
/// the names of the checks that passed, or says what is wrong with the first
/// that did not.
pub fn run(client: Client, f: Fixtures, present: &TextSet) -> (r: Result<
    (Client, Vec<String>),
    String,
>)
    ensures
        match (r, all_checked(client@, f, present@)) {
            (Ok((after, names)), Ok(checked)) => views(names@) == passed_names() && after@
                == checked,
            (Err(e), Err(message)) => e@ == message,
            _ => false,
        },
{
    let mut c: Client = client;
    match check_all(&mut c, f, present) {
        Ok(names) => Ok((c, names)),
        Err(e) => Err(e),
    }
}

/// The report on checks that passed.
pub open spec fn report_of(passed: Seq<Seq<char>>) -> JsonModel {
    JsonModel::Object(
        seq![
            ("status"@, JsonModel::Text("passed"@)),
            ("offline"@, JsonModel::Bool(true)),
            (
                "checks"@,
                JsonModel::Array(Seq::new(passed.len(), |i: int| JsonModel::Text(passed[i]))),
            ),
            (
                "limits"@,
                JsonModel::Array(
                    seq![
                        JsonModel::Text("Picker cancellation invokes the production clear helper and handler state operations without registering UI callbacks"@),
                        JsonModel::Text("Reference uploads and authenticated HTTP are not exercised; confirmation uses the shared import batch path with a closed project"@),
                    ],
                ),
            ),
        ],
    )
}

fn text_list(texts: &Vec<String>) -> (r: Json)
    ensures
        r@ == JsonModel::Array(
            Seq::new(views(texts@).len(), |i: int| JsonModel::Text(views(texts@)[i])),
        ),
{
    let mut v: Vec<Json> = Vec::new();
    let mut i: usize = 0;
    while i < texts.len()
        invariant
            i <= texts.len(),
            v@.len() == i,
            forall|j: int| 0 <= j < i ==> (#[trigger] v@[j])@ == JsonModel::Text(texts@[j]@),
        decreases texts.len() - i,
    {
        v.push(Json::from_text(texts[i].as_str()));
        i = i + 1;
    }
    let r: Json = Json::from_list(v);
    proof {
        assert(r@->Array_0 =~= Seq::new(
            views(texts@).len(),
            |i: int| JsonModel::Text(views(texts@)[i]),
        ));
    }
    r
}

/// The report on checks that passed.
pub fn validation_report(passed: &Vec<String>) -> (r: Json)
    ensures
        r@ == report_of(views(passed@)),
{
    let mut limits: Vec<String> = Vec::new();
    limits.push("Picker cancellation invokes the production clear helper and handler state operations without registering UI callbacks".to_owned());
    limits.push("Reference uploads and authenticated HTTP are not exercised; confirmation uses the shared import batch path with a closed project".to_owned());
    let told: Json = text_list(&limits);
    proof {
        assert(told@->Array_0 =~= report_of(views(passed@))->Object_0[3].1->Array_0);
    }
    let mut fields: Vec<(String, Json)> = Vec::new();
    fields.push(("status".to_owned(), Json::from_text("passed")));
    fields.push(("offline".to_owned(), Json::from_bool(true)));
    fields.push(("checks".to_owned(), text_list(passed)));
    fields.push(("limits".to_owned(), told));
    let r: Json = Json::from_members(fields);
    proof {
        assert(r@->Object_0 =~= report_of(views(passed@))->Object_0);
    }
    r
}

/// Checks the client from one end to the other; the result is the client with
/// the report, or what is wrong with the first check that did not pass.
pub fn validate_preview_state(client: Client, f: Fixtures, present: &TextSet) -> (r: Result<
    (Client, Json),
    String,
>)
    ensures
        match (r, all_checked(client@, f, present@)) {
            (Ok((after, report)), Ok(checked)) => report@ == report_of(passed_names()) && after@
                == checked,
            (Err(e), Err(message)) => e@ == message,
            _ => false,
        },
{
    match run(client, f, present) {
        Ok((after, passed)) => Ok((after, validation_report(&passed))),
        Err(e) => Err(e),
    }
}

} // verus!
