//! What comes of answers: transfers, templates, waiting files, copies and what
//! a client begins with, seen from outside.

use crate::cloud::account::{snapshot_files, wallet_answered};
use crate::cloud::client::{
    models_answered, pending_used, published, quote_taken, waiting_choices, waiting_uploads,
    ClientView,
};
use crate::cloud::export_copy::{copy_report_of, export_refused, text_models, CopyEndView};
use crate::cloud::fresh::fresh_client;
use crate::cloud::imports::{clip_opened, import_steps, HandoffView, TransfersView};
use crate::cloud::intents::IntentsView;
use crate::cloud::library::is_result;
use crate::cloud::picker::{picker_fault, PickerView};
use crate::cloud::preview::{preview_opened, PreviewView};
use crate::cloud::references::{kind_of_path, place_of_client};
use crate::cloud::requests::{items_of, labelled, plain_request, surfaces};
use crate::cloud::steps::StepView;
use crate::cloud::studio::StudioView;
use crate::cloud::submissions::generation_answered;
use crate::cloud::tasks::{reference_source, task_place, tasks_answered, TaskListView};
use crate::cloud::teams::{assets_path, chosen_team, team_of, TeamView};
use crate::cloud::templates::{template_acted, templates_written};
use crate::cloud::uploads::{fitted, personal_upload, upload_planned, upload_team};
use crate::cloud_files::{
    announced_fault, file_url_of, opened_slot, partial_name_of, received_fault, refusal_of,
};
use crate::generation_templates::{name_fault, place_is_there, place_of, text_updated, LibraryView};
use crate::json::{set_members_are_found, JsonModel};
use crate::lists::{first_from_found, first_where, text_is};
use crate::paths::{extension_of, file_name_of, joined_path};
use crate::text::{decimal, has_prefix, trimmed};
use crate::urls::UrlView;
use vstd::prelude::*;

verus! {

/// What waits for a project is handed over once the project is open, and kept
/// where it could not be opened.
pub proof fn opened_projects_get_what_waited(transfers: TransfersView, h: HandoffView)
    requires
        transfers.handoff == Some(h),
    ensures
        ({
            let (done, steps) = clip_opened(transfers, true);
            let (same, told) = clip_opened(transfers, false);
            &&& done.handoff is None && !done.open && steps == import_steps(h.imports)
            &&& same == transfers && told.len() == 2 && told[0] is Error && told[1]
                == StepView::Page(transfers.source_page)
        }),
{
}

/// The team that is chosen is the one at the place that is shown, and files for
/// a team go to it; other files go to none.
pub proof fn chosen_teams_are_at_their_place(page: TeamView, i: int, purpose: Seq<char>)
    requires
        page.index == i,
        0 <= i < page.teams.len(),
    ensures
        chosen_team(page) == page.teams[i],
        team_of(page) == page.teams[i].text("id"@),
        upload_team(page, "team_asset"@) == page.teams[i].text("id"@),
        purpose != "team_asset"@ ==> upload_team(page, purpose).len() == 0,
{
    reveal_strlit("");
}

/// What is done with templates is told apart.
proof fn template_deeds()
    ensures
        "template-new"@.len() == 12,
        "template-edit"@.len() == 13,
        "template-apply"@.len() == 14,
        "template-delete"@.len() == 15,
        "template-save-current"@.len() == 21,
{
    reveal_strlit("template-save-current");
    reveal_strlit("template-delete");
    reveal_strlit("template-new");
    reveal_strlit("template-edit");
    reveal_strlit("template-apply");
}

/// A template that was saved is the one that the form stands for from then on;
/// one that was deleted is no longer, and no other is forgotten. Where nothing
/// was written nothing changes.
pub proof fn written_templates_are_noted(
    studio: StudioView,
    id: Seq<char>,
    saved: Seq<char>,
    error: Seq<char>,
)
    ensures
        templates_written(studio, "template-save-current"@, id, Ok(saved)).0.template.id == saved,
        studio.template.id == id ==> templates_written(
            studio,
            "template-delete"@,
            id,
            Ok(saved),
        ).0.template.id.len() == 0,
        studio.template.id != id ==> templates_written(
            studio,
            "template-delete"@,
            id,
            Ok(saved),
        ).0 == studio,
        forall|action: Seq<char>|
            #[trigger] templates_written(studio, action, id, Err(error)) == (
                studio,
                seq![StepView::Error(error)],
            ),
{
    template_deeds();
    reveal_strlit("");
}

/// A template is edited from what it holds and applied as it is; without
/// models it waits until they are there.
pub proof fn templates_are_edited_and_applied(
    studio: StudioView,
    intents: IntentsView,
    library: LibraryView,
    id: Seq<char>,
)
    ensures
        ({
            let edit = template_acted(studio, intents, library, "template-edit"@, id);
            let apply = template_acted(studio, intents, library, "template-apply"@, id);
            let known = place_of(library.items, id);
            &&& known matches Some(k) ==> 0 <= k < library.items.len() && edit.0.template.id == id
                && edit.0.template.name == library.items[k].name
            &&& known is None ==> edit.0 == studio && edit.2.last() is Error
            &&& studio.catalog.models.len() > 0 && known is Some ==> apply.2.last()
                == StepView::ApplyTemplate(id) && apply.1 == intents
            &&& studio.catalog.models.len() > 0 && known is None ==> apply.2.last() is Error
            &&& studio.catalog.models.len() == 0 ==> apply.1.template_id == Some(id) && (
            if studio.signed_in {
                apply.2.last() is RefreshModels
            } else {
                apply.2.last() is ShowAuth
            })
            &&& apply.0 == studio
        }),
{
    template_deeds();
    place_is_there(library.items, id);
}

/// A template that is renamed keeps its identity and gets the new name, without
/// the space around it, and the new prompt; all others stay. A name that
/// cannot be taken changes nothing.
pub proof fn renamed_templates_get_name_and_prompt(
    before: LibraryView,
    id: Seq<char>,
    name: Seq<char>,
    prompt: Seq<char>,
    now: u64,
    k: int,
    other: int,
)
    requires
        place_of(before.items, id) == Some(k),
        0 <= other < before.items.len(),
        other != k,
    ensures
        ({
            let (r, after) = text_updated(before, id, name, prompt, Some(now as u128));
            &&& r is Ok <==> name_fault(name) is None
            &&& r is Ok ==> after.items.len() == before.items.len() && after.items[k].id == id
                && after.items[k].name == trimmed(name) && after.items[k].prompt == prompt
                && after.items[k].updated_at == now && after.items[k].created_at
                == before.items[k].created_at && after.items[other] == before.items[other]
                && after.previous == Some(before.items)
            &&& r is Err ==> after == before
        }),
{
    place_is_there(before.items, id);
}

/// A file of the library that becomes a reference bears the name that it has
/// there; sound and films have the form switch to videos.
pub proof fn library_files_become_references(
    studio: StudioView,
    intents: IntentsView,
    assets: Seq<JsonModel>,
    local: Map<Seq<char>, Seq<char>>,
    path: Seq<char>,
    name: Seq<char>,
    client_id: Seq<char>,
)
    ensures
        ({
            let (now, _, _) = personal_upload(
                studio,
                intents,
                assets,
                local,
                path,
                name,
                client_id,
            );
            &&& now.references.len() > studio.references.len() ==> now.references.len()
                == studio.references.len() + 1 && now.references.last().text("display_name"@)
                == name && now.references.last().text("local_path"@) == path
                && now.references.last().text("kind"@) == kind_of_path(path)
                && now.references.drop_last() == studio.references
            &&& now.references.len() <= studio.references.len() ==> now.references
                == studio.references
            &&& kind_of_path(path) == "image"@ ==> now.form.mode == studio.form.mode
        }),
{
    crate::cloud::asking::media_differ();
    let ready = fitted(studio, path);
    let (references, _, _) = upload_planned(
        ready,
        intents,
        assets,
        local,
        path,
        "generation_input"@,
        ""@,
        client_id,
    );
    reference_words();
    assert(ready.references == studio.references);
    if references.len() > ready.references.len() {
        let last = references.last();
        assert(last is Object);
        set_members_are_found(last, "display_name"@, JsonModel::Text(name));
        reveal_with_fuel(crate::json::lookup, 4);
        let e = last->Object_0;
        assert(e.drop_first()[0] == e[1]);
        assert(e.drop_first().drop_first()[0] == e[2]);
        let now = references.update(
            references.len() - 1,
            last.with("display_name"@, JsonModel::Text(name)),
        );
        assert(now.drop_last() =~= studio.references);
    }
}

/// The members of a reference are told apart.
proof fn reference_words()
    ensures
        ""@.len() == 0,
        "kind"@.len() == 4,
        "status"@.len() == 6,
        "client_id"@.len() == 9,
        "local_path"@.len() == 10 && "local_path"@[0] == 'l',
        "team_asset"@.len() == 10 && "team_asset"@[0] == 't',
        "display_name"@.len() == 12,
        "generation_input"@.len() == 16,
{
    reveal_strlit("client_id");
    reveal_strlit("local_path");
    reveal_strlit("kind");
    reveal_strlit("display_name");
    reveal_strlit("status");
    reveal_strlit("generation_input");
    reveal_strlit("team_asset");
    reveal_strlit("");
}

/// The jobs are told apart.
proof fn job_words()
    ensures
        "login"@.len() == 5 && "login"@[1] == 'o',
        "quote"@.len() == 5 && "quote"@[1] == 'u',
        "tasks"@.len() == 5 && "tasks"@[1] == 'a',
        "teams"@.len() == 5 && "teams"@[1] == 'e',
        "plans"@.len() == 5 && "plans"@[1] == 'l',
        "wallet"@.len() == 6 && "wallet"@[0] == 'w',
        "models"@.len() == 6 && "models"@[0] == 'm',
        "assets"@.len() == 6 && "assets"@[0] == 'a',
        "orders"@.len() == 6 && "orders"@[0] == 'o',
        "members"@.len() == 7,
        "register"@.len() == 8,
        "verify-email"@.len() == 12 && "verify-email"@[0] == 'v',
        "capabilities"@.len() == 12 && "capabilities"@[0] == 'c',
        "local-cache:"@.len() == 12 && "local-cache:"@[0] == 'l',
        "personal-cache"@.len() == 14,
        "verification-resend"@.len() == 19,
        "password-reset-request"@.len() == 22 && "password-reset-request"@[15] == 'r',
        "password-reset-confirm"@.len() == 22 && "password-reset-confirm"@[15] == 'c',
{
    reveal_strlit("login");
    reveal_strlit("register");
    reveal_strlit("verify-email");
    reveal_strlit("verification-resend");
    reveal_strlit("password-reset-request");
    reveal_strlit("password-reset-confirm");
    reveal_strlit("quote");
    reveal_strlit("tasks");
    reveal_strlit("wallet");
    reveal_strlit("capabilities");
    reveal_strlit("models");
    reveal_strlit("teams");
    reveal_strlit("assets");
    reveal_strlit("members");
    reveal_strlit("plans");
    reveal_strlit("orders");
    reveal_strlit("personal-cache");
    reveal_strlit("local-cache:");
}

/// The error of something that the user did is shown; that of a refresh only
/// where it hides nothing, and that of a missing session not while nobody is
/// signed in.
pub proof fn errors_are_shown_where_they_matter(open: bool, empty: bool, missing: bool)
    ensures
        surfaces(true, open, empty, "login"@, missing),
        surfaces(false, open, empty, "login"@, missing),
        surfaces(false, open, empty, "tasks"@, true) == false,
        surfaces(true, open, empty, "tasks"@, missing) <==> !open && empty,
        surfaces(true, open, empty, "quote"@, missing) <==> !open && empty,
        surfaces(true, open, empty, "generate"@, missing),
{
    job_words();
    reveal_strlit("generate");
    assert("generate"@.len() == 8 && "generate"@[0] == 'g');
    if has_prefix("generate"@, "local-cache:"@) {
        assert(false);
    }
    if has_prefix("tasks"@, "local-cache:"@) {
        assert(false);
    }
    if has_prefix("quote"@, "local-cache:"@) {
        assert(false);
    }
}

/// A quote comes with what it is for.
pub proof fn quotes_come_with_their_request(value: JsonModel, body: JsonModel)
    requires
        value is Object,
    ensures
        labelled("/api/generation/quote"@, value, body).at("client_request_body"@) == body,
        labelled("/api/generation/quote"@, value, body).at("credits"@) == value.at("credits"@),
{
    reveal_strlit("/api/generation/quote");
    reveal_strlit("/api/teams/");
    reveal_strlit("client_request_body");
    reveal_strlit("credits");
    assert("credits"@.len() == 7 && "client_request_body"@.len() == 19);
    assert("/api/generation/quote"@[5] == 'g');
    assert("/api/teams/"@[5] == 't');
    if has_prefix("/api/generation/quote"@, "/api/teams/"@) {
        assert("/api/generation/quote"@.subrange(0, 11)[5] == 't');
    }
    set_members_are_found(value, "client_request_body"@, body);
}

/// Something is shown large from where it was asked for: the library, the team,
/// the references or the results; what is not there is told, and changes
/// nothing.
pub proof fn previews_come_from_their_source(
    preview: PreviewView,
    list: TaskListView,
    picker: PickerView,
    page: TeamView,
    references: Seq<JsonModel>,
    personal: (Seq<JsonModel>, Seq<String>),
    present: Set<Seq<char>>,
    id: Seq<char>,
)
    ensures
        ({
            let shown = |source: Seq<char>|
                preview_opened(
                    preview,
                    list,
                    picker,
                    page,
                    references,
                    personal,
                    present,
                    source,
                    id,
                );
            let own = first_where(personal.0, text_is("id"@, id));
            let team = first_where(page.assets, text_is("id"@, id));
            let used = place_of_client(references, id);
            let made = first_where(list.tasks, text_is("id"@, id));
            &&& own matches Some(i) ==> 0 <= i < personal.0.len() && shown(
                "personal"@,
            ).0.item.id == id && shown("personal"@).0.item.preview == personal.0[i].text("path"@)
                && shown("personal"@).0.source == "personal"@
            &&& own is None ==> shown("personal"@).0 == preview
                && shown("personal"@).2.last() is Error
            &&& team matches Some(i) ==> 0 <= i < page.assets.len() && shown("asset"@).0.item.id
                == id && shown("asset"@).0.item.name == page.assets[i].text("filename"@)
            &&& team is None ==> shown("asset"@).0 == preview && shown("asset"@).2.last() is Error
            &&& used matches Some(i) ==> shown("reference"@).0.source == "reference"@
            &&& used is None ==> shown("reference"@).0 == preview && shown(
                "reference"@,
            ).2.last() is Error
            &&& made is None ==> shown("task"@).0 == preview && shown("task"@).2.last() is Error
            &&& made matches Some(i) ==> list.tasks[i].text("status"@) == "failed"@ ==> shown(
                "task"@,
            ).0 == preview && (task_place(list.tasks, id) is Some ==> shown("task"@).1.preview_open)
        }),
{
    source_words();
    first_from_found(personal.0, text_is("id"@, id), 0);
    first_from_found(page.assets, text_is("id"@, id), 0);
    first_from_found(list.tasks, text_is("id"@, id), 0);
}

/// Where something is shown from is told apart.
proof fn source_words()
    ensures
        "task"@.len() == 4,
        "asset"@.len() == 5,
        "personal"@.len() == 8,
        "reference"@.len() == 9,
{
    reveal_strlit("personal");
    reveal_strlit("asset");
    reveal_strlit("reference");
    reveal_strlit("task");
}

/// A result is used as a reference from its file where that is here, and
/// fetched where it is finished; sound cannot be used.
pub proof fn results_are_references_once_they_are_there(task: JsonModel, file: Seq<char>)
    ensures
        task.text("kind"@) == "image"@ || task.text("kind"@) == "video"@ ==> reference_source(
            task,
            Some(file),
        ) == Ok::<Option<Seq<char>>, Seq<char>>(Some(file)),
        task.text("kind"@) == "audio"@ ==> reference_source(task, Some(file)) is Err,
        reference_source(task, None) is Ok ==> task.text("status"@) == "succeeded"@
            && reference_source(task, None)->Ok_0 is None,
{
    crate::cloud::asking::media_differ();
}

proof fn waiting_steps(first: Seq<StepView>, queue: Seq<(Seq<char>, Seq<char>)>, i: int)
    requires
        0 <= i < queue.len(),
    ensures
        waiting_uploads(first, queue).len() == first.len() + queue.len(),
        waiting_uploads(first, queue)[first.len() + i] == StepView::UploadPersonal(
            queue[i].0,
            queue[i].1,
        ),
    decreases queue.len(),
{
    let front = queue.drop_last();
    if front.len() > 0 {
        waiting_steps(
            first,
            front,
            if i < front.len() {
                i
            } else {
                0
            },
        );
    } else {
        assert(waiting_uploads(first, front) == first);
    }
    if i < front.len() {
        assert(front[i] == queue[i]);
    }
}

/// The files that waited become references all at once, in their order; where
/// one of them cannot, all of them go on waiting. While nobody is signed in
/// they wait.
pub proof fn waiting_files_become_references_together(c: ClientView, i: int)
    requires
        0 <= i < c.intents.references.len(),
    ensures
        ({
            let queue = c.intents.references;
            let (now, steps) = pending_used(c);
            let fault = picker_fault(
                c.studio.form.mode,
                c.studio.form.model_index,
                c.studio.catalog,
                c.studio.references,
                waiting_choices(queue),
            );
            &&& waiting_choices(queue).len() == queue.len() && waiting_choices(queue)[i].local_path
                == queue[i].0 && waiting_choices(queue)[i].name == queue[i].1
                && waiting_choices(queue)[i].kind == kind_of_path(queue[i].0)
            &&& !c.studio.signed_in ==> now == c && steps.len() == 0
            &&& c.studio.signed_in && fault is Some ==> now == c && steps == seq![
                StepView::Error(fault->0),
            ]
            &&& c.studio.signed_in && fault is None ==> now.intents.references.len() == 0
                && steps.len() == queue.len() + 2 && steps[2 + i] == StepView::UploadPersonal(
                queue[i].0,
                queue[i].1,
            )
        }),
{
    waiting_steps(
        seq![StepView::PickerOpen(false), StepView::Page(1)],
        c.intents.references,
        i,
    );
}

/// What was copied is reported as done, whether the run went through, was
/// called off or failed at a file, which is then named with the reason.
pub proof fn copies_report_what_was_done(
    completed: Seq<Seq<char>>,
    name: Seq<char>,
    error: Seq<char>,
)
    ensures
        ({
            let done = JsonModel::Array(text_models(completed));
            let all = copy_report_of(completed, CopyEndView::All);
            let off = copy_report_of(completed, CopyEndView::Cancelled);
            let bad = copy_report_of(completed, CopyEndView::Failed(name, error));
            &&& all.at("completed"@) == done && off.at("completed"@) == done && bad.at(
                "completed"@,
            ) == done
            &&& off.at("cancelled"@) == JsonModel::Bool(true) && all.at("cancelled"@) is Null
                && bad.at("cancelled"@) is Null
            &&& bad.at("failed"@) == JsonModel::Text(name) && bad.at("error"@) == JsonModel::Text(
                error,
            ) && all.at("failed"@) is Null && off.at("failed"@) is Null
        }),
{
    report_words();
    reveal_with_fuel(crate::json::lookup, 4);
    let all = copy_report_of(completed, CopyEndView::All)->Object_0;
    let off = copy_report_of(completed, CopyEndView::Cancelled)->Object_0;
    let bad = copy_report_of(completed, CopyEndView::Failed(name, error))->Object_0;
    assert(all.drop_first().len() == 0);
    assert(off.drop_first()[0] == off[1]);
    assert(off.drop_first().drop_first().len() == 0);
    assert(bad.drop_first()[0] == bad[1]);
    assert(bad.drop_first().drop_first()[0] == bad[2]);
    assert(bad.drop_first().drop_first().drop_first().len() == 0);
}

/// The members of a report are told apart.
proof fn report_words()
    ensures
        "error"@.len() == 5,
        "failed"@.len() == 6,
        "completed"@.len() == 9 && "completed"@[1] == 'o',
        "cancelled"@.len() == 9 && "cancelled"@[1] == 'a',
{
    reveal_strlit("completed");
    reveal_strlit("cancelled");
    reveal_strlit("failed");
    reveal_strlit("error");
}

/// Files are copied where some are chosen and no other copy is under way.
pub proof fn copies_wait_for_each_other(items: nat, busy: bool)
    ensures
        export_refused(items, busy) is None <==> items > 0 && !busy,
{
}

/// A download is taken where it is no larger than 512 MB, complete and not
/// empty.
pub proof fn complete_downloads_are_taken(expected: u64, written: u64)
    ensures
        announced_fault(Some(expected)) is None <==> expected <= 536_870_912,
        announced_fault(None) is None,
        received_fault(Some(expected), written) is None <==> 0 < written <= 536_870_912 && written
            == expected,
        received_fault(None, written) is None <==> 0 < written <= 536_870_912,
{
}

/// A download that is under way lies beside its target, hidden, under a name of
/// its own.
pub proof fn downloads_are_hidden_until_complete(
    target: Seq<char>,
    id: Seq<char>,
    name: Seq<char>,
)
    requires
        file_name_of(target) == Some(name),
    ensures
        partial_name_of(target, id) == "."@ + name + "."@ + id + ".part"@,
        partial_name_of(target, id)[0] == '.',
{
    reveal_strlit(".");
}

/// A file is sent to the address that the service gave for it, only where that
/// is the service's own and takes files.
pub proof fn files_are_sent_to_the_service(
    base: UrlView,
    info: JsonModel,
    found: UrlView,
    content_type: Seq<char>,
)
    ensures
        opened_slot(base, info, Some(found), content_type) matches Ok((url, headers)) ==> url
            == found.text && found.scheme == base.scheme && found.host == base.host && found.port
            == base.port && info.at("method"@) == JsonModel::Text("PUT"@),
        found.host != base.host ==> opened_slot(base, info, Some(found), content_type) is Err,
        opened_slot(base, info, None, content_type) is Err,
        file_url_of(base, Some(found)) matches Ok(u) ==> u == found && found.host == base.host
            && found.port == base.port && found.scheme == base.scheme,
{
}

/// What the service says of a refused file is told, or else its status.
pub proof fn refused_files_are_told(status: u16, body: JsonModel, message: Seq<char>)
    ensures
        body.at("error"@).at("message"@) == JsonModel::Text(message) ==> refusal_of(status, body)
            == message,
        body.at("error"@).at("message"@) is Null ==> refusal_of(status, body) == "文件传输失败 ("@
            + decimal(status as nat) + ")"@,
{
}

/// The files of results are those that were made here, pictures and films.
pub proof fn results_are_told_by_their_names(path: Seq<char>, name: Seq<char>)
    requires
        file_name_of(path) == Some(name),
    ensures
        is_result(path) <==> has_prefix(name, "gen_"@) && (extension_of(path) == Some("png"@)
            || extension_of(path) == Some("mp4"@)),
{
}

/// The inputs of tasks are written beside the file that keeps them, under a
/// hidden name, and nowhere while nobody is signed in.
pub proof fn inputs_are_kept_by_account(folder: Seq<char>, name: Seq<char>, id: Seq<char>)
    ensures
        name.len() > 0 ==> snapshot_files(folder, name, id) == Ok::<
            (Seq<char>, Seq<char>),
            Seq<char>,
        >((joined_path(folder, "."@ + name + "."@ + id + ".tmp"@), joined_path(folder, name))),
        name.len() == 0 ==> snapshot_files(folder, name, id) is Err,
{
    reveal_strlit("");
    if name.len() == 0 {
        assert(name =~= ""@);
    }
}

/// A client begins with nobody signed in, nothing running and nothing waiting,
/// on pictures, with every list empty and no dialog open.
pub proof fn clients_begin_with_nothing(folder: Seq<char>)
    ensures
        ({
            let c = fresh_client(folder);
            &&& !c.studio.signed_in && c.studio.form.mode == 0 && c.studio.references.len() == 0
                && c.studio.catalog.models.len() == 0 && !c.studio.quote.can_generate
                && c.studio.submission is None
            &&& !c.auth.open && c.auth.password.len() == 0 && c.auth.email.len() == 0
            &&& !c.queue.busy && c.queue.pending.len() == 0
            &&& c.tasks.tasks.len() == 0 && c.tasks.folder == folder
            &&& c.personal.assets.len() == 0 && !c.personal.trash && !c.personal.favorites
                && c.personal.filter == 0
            &&& !c.picker.open && !c.transfers.open && c.transfers.handoff is None
            &&& !c.preview.open && c.export is None
        }),
{
    reveal_strlit("");
}

/// The jobs that are answered are told apart.
proof fn answers_differ()
    ensures
        "login"@.len() == 5 && "login"@[3] == 'i',
        "quote"@.len() == 5 && "quote"@[3] == 't',
        "tasks"@.len() == 5 && "tasks"@[3] == 'k',
        "teams"@.len() == 5 && "teams"@[3] == 'm',
        "local"@.len() == 5 && "local"@[3] == 'a',
        "order"@.len() == 5 && "order"@[3] == 'e',
        "plans"@.len() == 5 && "plans"@[3] == 'n',
        "logout"@.len() == 6 && "logout"@[0] == 'l',
        "models"@.len() == 6 && "models"@[0] == 'm',
        "invite"@.len() == 6 && "invite"@[0] == 'i',
        "assets"@.len() == 6 && "assets"@[0] == 'a',
        "wallet"@.len() == 6 && "wallet"@[0] == 'w',
        "orders"@.len() == 6 && "orders"@[0] == 'o',
        "members"@.len() == 7 && "members"@[0] == 'm',
        "connect"@.len() == 7 && "connect"@[0] == 'c',
        "personal"@.len() == 8 && "personal"@[3] == 's',
        "register"@.len() == 8 && "register"@[3] == 'i',
        "generate"@.len() == 8 && "generate"@[3] == 'e',
        "purchase"@.len() == 8 && "purchase"@[3] == 'c',
        "team-join"@.len() == 9,
        "export-copy"@.len() == 11 && "export-copy"@[1] == 'x',
        "tasks-trash"@.len() == 11 && "tasks-trash"@[1] == 'a',
        "team-create"@.len() == 11 && "team-create"@[1] == 'e',
        "verify-email"@.len() == 12 && "verify-email"@[0] == 'v',
        "asset-change"@.len() == 12 && "asset-change"@[0] == 'a',
        "picker-batch"@.len() == 12 && "picker-batch"@[0] == 'p',
        "capabilities"@.len() == 12 && "capabilities"@[0] == 'c',
        "personal-bulk"@.len() == 13 && "personal-bulk"@[0] == 'p',
        "invite-revoke"@.len() == 13 && "invite-revoke"@[0] == 'i',
        "member-remove"@.len() == 13 && "member-remove"@[0] == 'm',
        "personal-cache"@.len() == 14,
        "personal-drag-move"@.len() == 18,
        "verification-resend"@.len() == 19,
        "personal-dialog-move"@.len() == 20,
        "personal-dialog-rename"@.len() == 22 && "personal-dialog-rename"@[15] == '-',
        "password-reset-confirm"@.len() == 22 && "password-reset-confirm"@[15] == 'c',
        "password-reset-request"@.len() == 22 && "password-reset-request"@[15] == 'r',
        "personal-dialog-create-folder"@.len() == 29,
{
    reveal_strlit("export-copy");
    reveal_strlit("personal");
    reveal_strlit("personal-cache");
    reveal_strlit("personal-bulk");
    reveal_strlit("personal-dialog-rename");
    reveal_strlit("personal-dialog-create-folder");
    reveal_strlit("personal-dialog-move");
    reveal_strlit("personal-drag-move");
    reveal_strlit("login");
    reveal_strlit("logout");
    reveal_strlit("register");
    reveal_strlit("verify-email");
    reveal_strlit("password-reset-confirm");
    reveal_strlit("verification-resend");
    reveal_strlit("password-reset-request");
    reveal_strlit("models");
    reveal_strlit("quote");
    reveal_strlit("generate");
    reveal_strlit("tasks");
    reveal_strlit("tasks-trash");
    reveal_strlit("teams");
    reveal_strlit("team-create");
    reveal_strlit("team-join");
    reveal_strlit("invite");
    reveal_strlit("invite-revoke");
    reveal_strlit("members");
    reveal_strlit("member-remove");
    reveal_strlit("assets");
    reveal_strlit("asset-change");
    reveal_strlit("wallet");
    reveal_strlit("local");
    reveal_strlit("picker-batch");
    reveal_strlit("purchase");
    reveal_strlit("order");
    reveal_strlit("orders");
    reveal_strlit("plans");
    reveal_strlit("connect");
    reveal_strlit("capabilities");
}

/// None of them is the job of a single file.
proof fn answers_are_plain()
    ensures
        !has_prefix("teams"@, "reference:"@) && !has_prefix("teams"@, "local-cache:"@)
            && !has_prefix("teams"@, "local-reference:"@)
            && !has_prefix("teams"@, "media-preview:"@),
        !has_prefix("team-create"@, "reference:"@) && !has_prefix("team-create"@, "local-cache:"@)
            && !has_prefix("team-create"@, "local-reference:"@)
            && !has_prefix("team-create"@, "media-preview:"@),
        !has_prefix("team-join"@, "reference:"@) && !has_prefix("team-join"@, "local-cache:"@)
            && !has_prefix("team-join"@, "local-reference:"@)
            && !has_prefix("team-join"@, "media-preview:"@),
        !has_prefix("invite"@, "reference:"@) && !has_prefix("invite"@, "local-cache:"@)
            && !has_prefix("invite"@, "local-reference:"@)
            && !has_prefix("invite"@, "media-preview:"@),
        !has_prefix("invite-revoke"@, "reference:"@)
            && !has_prefix("invite-revoke"@, "local-cache:"@)
            && !has_prefix("invite-revoke"@, "local-reference:"@)
            && !has_prefix("invite-revoke"@, "media-preview:"@),
        !has_prefix("members"@, "reference:"@) && !has_prefix("members"@, "local-cache:"@)
            && !has_prefix("members"@, "local-reference:"@)
            && !has_prefix("members"@, "media-preview:"@),
        !has_prefix("member-remove"@, "reference:"@)
            && !has_prefix("member-remove"@, "local-cache:"@)
            && !has_prefix("member-remove"@, "local-reference:"@)
            && !has_prefix("member-remove"@, "media-preview:"@),
        !has_prefix("assets"@, "reference:"@) && !has_prefix("assets"@, "local-cache:"@)
            && !has_prefix("assets"@, "local-reference:"@)
            && !has_prefix("assets"@, "media-preview:"@),
        !has_prefix("asset-change"@, "reference:"@) && !has_prefix("asset-change"@, "local-cache:"@)
            && !has_prefix("asset-change"@, "local-reference:"@)
            && !has_prefix("asset-change"@, "media-preview:"@),
        !has_prefix("wallet"@, "reference:"@) && !has_prefix("wallet"@, "local-cache:"@)
            && !has_prefix("wallet"@, "local-reference:"@)
            && !has_prefix("wallet"@, "media-preview:"@),
{
    reveal_strlit("reference:");
    reveal_strlit("local-cache:");
    reveal_strlit("local-reference:");
    reveal_strlit("media-preview:");
    reveal_strlit("teams");
    reveal_strlit("team-create");
    reveal_strlit("team-join");
    reveal_strlit("invite");
    reveal_strlit("invite-revoke");
    reveal_strlit("members");
    reveal_strlit("member-remove");
    reveal_strlit("assets");
    reveal_strlit("asset-change");
    reveal_strlit("wallet");
    if has_prefix("team-create"@, "reference:"@) {
        assert("team-create"@.subrange(0, 10)[0] == "team-create"@[0]);
    }
    if has_prefix("invite-revoke"@, "reference:"@) {
        assert("invite-revoke"@.subrange(0, 10)[0] == "invite-revoke"@[0]);
    }
    if has_prefix("invite-revoke"@, "local-cache:"@) {
        assert("invite-revoke"@.subrange(0, 12)[0] == "invite-revoke"@[0]);
    }
    if has_prefix("member-remove"@, "reference:"@) {
        assert("member-remove"@.subrange(0, 10)[0] == "member-remove"@[0]);
    }
    if has_prefix("member-remove"@, "local-cache:"@) {
        assert("member-remove"@.subrange(0, 12)[0] == "member-remove"@[0]);
    }
    if has_prefix("asset-change"@, "reference:"@) {
        assert("asset-change"@.subrange(0, 10)[0] == "asset-change"@[0]);
    }
    if has_prefix("asset-change"@, "local-cache:"@) {
        assert("asset-change"@.subrange(0, 12)[0] == "asset-change"@[0]);
    }
}

/// A sign-in opens the account: the session and the address are kept, nothing
/// secret stays in the form, which is closed, and the balance is asked for. An
/// answer without a session is refused.
pub proof fn sign_ins_open_the_account(
    c: ClientView,
    value: JsonModel,
    present: Set<Seq<char>>,
    sizes: Seq<u64>,
    label: Seq<char>,
)
    ensures
        ({
            let (now, steps) = published(c, "login"@, value, present, sizes, label);
            let token = value.text("access_token"@);
            &&& token.len() == 0 ==> now == c && steps.len() == 1 && steps[0] is Error
            &&& token.len() > 0 ==> now.studio.signed_in && now.account.token == token
                && now.account.email == c.auth.email && now.account.label == label
                && !now.auth.open && now.auth.password.len() == 0 && now.return_page is None
                && steps.contains(
                StepView::Job(
                    "wallet"@,
                    plain_request("GET"@, "/api/wallet"@, JsonModel::Null),
                ),
            )
        }),
{
    answers_differ();
    reveal_strlit("");
    let (now, steps) = published(c, "login"@, value, present, sizes, label);
    let n = crate::cloud::client::cleared_steps().len() as int;
    if value.text("access_token"@).len() > 0 {
        assert(steps[n + 2] == StepView::Job(
            "wallet"@,
            plain_request("GET"@, "/api/wallet"@, JsonModel::Null),
        ));
    }
}

/// After a sign-out nobody is signed in and the form asks for the account; after
/// a registration it asks for the code, and after the code, or a new password,
/// for the account again. Another code is to be waited for only where one was
/// sent.
pub proof fn account_answers_lead_on(
    c: ClientView,
    value: JsonModel,
    present: Set<Seq<char>>,
    sizes: Seq<u64>,
    label: Seq<char>,
)
    ensures
        ({
            let after = |name: Seq<char>| published(c, name, value, present, sizes, label).0;
            &&& !after("logout"@).studio.signed_in && after("logout"@).auth.open && after(
                "logout"@,
            ).auth.mode == 0 && after("logout"@).studio.references.len() == 0
            &&& after("register"@).auth.mode == 3
            &&& value.text("email_delivery"@) == "sent"@ ==> after(
                "register"@,
            ).auth.resend_seconds == 60
            &&& after("verify-email"@).auth.mode == 0
            &&& after("password-reset-confirm"@).auth.mode == 0 && !after(
                "password-reset-confirm"@,
            ).studio.signed_in
            &&& after("verification-resend"@).auth.mode == 3 && after(
                "verification-resend"@,
            ).auth.resend_seconds == 60
            &&& after("password-reset-request"@).auth.mode == 4 && after(
                "password-reset-request"@,
            ).auth.resend_seconds == 60
        }),
{
    answers_differ();
}

/// An answer goes to what asked for it: a quote to the form, the tasks to the
/// list, the models to the catalog, the balance to the account.
pub proof fn answers_go_to_what_asked(
    c: ClientView,
    value: JsonModel,
    present: Set<Seq<char>>,
    sizes: Seq<u64>,
    label: Seq<char>,
)
    ensures
        ({
            let after = |name: Seq<char>| published(c, name, value, present, sizes, label);
            &&& after("quote"@) == (quote_taken(c, value), Seq::<StepView>::empty())
            &&& after("tasks"@).0.tasks == tasks_answered(c.tasks, value, present).0
            &&& after("tasks"@).0.studio == c.studio
            &&& after("generate"@).0.studio == generation_answered(c.studio, c.tasks, value).0
            &&& after("models"@) == models_answered(c, value)
            &&& after("wallet"@).0.account == wallet_answered(
                c.account,
                c.studio.quote,
                value,
            ).0
            &&& after("wallet"@).0.tasks == c.tasks
            &&& after("tasks-trash"@).0.tasks.selected == Set::<Seq<char>>::empty() && !after(
                "tasks-trash"@,
            ).0.tasks.selection_mode
        }),
{
    answers_differ();
    answers_are_plain();
}

/// An invitation is shown with its link until it is taken back; a member that
/// was removed has the list asked for anew; files are taken where they are
/// those of the team, and the bin, that is shown.
pub proof fn team_answers_are_shown(
    c: ClientView,
    value: JsonModel,
    present: Set<Seq<char>>,
    sizes: Seq<u64>,
    label: Seq<char>,
)
    ensures
        ({
            let after = |name: Seq<char>| published(c, name, value, present, sizes, label);
            let path = assets_path(team_of(c.team), c.team.trash_open);
            &&& after("invite"@).0.team.invite_url == value.text("invite_url"@) && after(
                "invite"@,
            ).0.team.invite_id == value.text("id"@)
            &&& after("invite-revoke"@).0.team.invite_url.len() == 0 && after(
                "invite-revoke"@,
            ).0.team.invite_id.len() == 0
            &&& after("member-remove"@).1 == seq![
                StepView::Job(
                    "members"@,
                    plain_request(
                        "GET"@,
                        "/api/teams/"@ + team_of(c.team) + "/members"@,
                        JsonModel::Null,
                    ),
                ),
            ]
            &&& value.text("client_assets_context"@) == path ==> after("assets"@).0.team.assets
                == items_of(value)
            &&& value.text("client_assets_context"@) != path ==> after("assets"@).0 == c
        }),
{
    answers_differ();
    answers_are_plain();
    reveal_strlit("");
}

} // verus!
