//! What the buttons of the personal library do.

use crate::cloud::catalog::{Catalog, CatalogView};
use crate::cloud::export_copy::{text_list, text_models};
use crate::cloud::intents::{enqueue_personal_reference, enqueued, pair_views, Intents, IntentsView};
use crate::cloud::personal::{
    asset_with_id, drop_plan, folder_at, personal_drop_move, shows, shows_id, is_shown, is_visible,
    PersonalPage, PersonalView,
};
use crate::cloud::picker::{
    flag, has_flag, picker_fault, selection_views, validate_picker_reference_selection,
    PickerSelection, SelectionView,
};
use crate::cloud::results::{is_chosen, keep_chosen};
use crate::cloud::steps::{
    ask, asking, fail, fetch, fetching, import_views, item_views, none, one, step_views, then_do,
    ExportItem, Import, ImportView, ItemView, Panel, Step, StepView,
};
use crate::collections::TextSet;
use crate::json::{models, read_text_member, text_member, Json, JsonModel};
use crate::lists::{any, any_text, any_text_not, find_text, kept, text_is, text_is_not};
use crate::sort::{ascending, sorted_texts};
use crate::text::{
    cat, chars_of, find_last, last_of, opt, parsed, read_number, same, text_of, trim, trimmed,
    views,
};
use vstd::prelude::*;
use vstd::string::*;

verus! {

/// What the actions know of the form, the machine and the session.
pub struct ActionFacts<'a> {
    pub mode: i32,
    pub model_index: i32,
    pub catalog: &'a Catalog,
    pub references: &'a Vec<Json>,
    /// The chosen team.
    pub team: &'a str,
    /// The files that are there.
    pub present: &'a TextSet,
    pub signed_in: bool,
    /// Whether a job of the user's runs or waits.
    pub working: bool,
}

pub struct ActionView {
    pub mode: i32,
    pub model_index: i32,
    pub catalog: CatalogView,
    pub references: Seq<JsonModel>,
    pub team: Seq<char>,
    pub present: Set<Seq<char>>,
    pub signed_in: bool,
    pub working: bool,
}

impl<'a> View for ActionFacts<'a> {
    type V = ActionView;

    open spec fn view(&self) -> ActionView {
        ActionView {
            mode: self.mode,
            model_index: self.model_index,
            catalog: self.catalog@,
            references: models(self.references@),
            team: self.team@,
            present: self.present@,
            signed_in: self.signed_in,
            working: self.working,
        }
    }
}

/// The step that asks the library for an operation.
pub open spec fn library_job(operation: Seq<char>, body: JsonModel) -> StepView {
    ask("personal"@, "POST"@, "local:library-"@ + operation, body)
}

pub fn personal_job(operation: &str, body: Json) -> (r: Step)
    ensures
        r@ == library_job(operation@, body@),
{
    asking("personal", "POST", cat("local:library-", operation).as_str(), body)
}

/// The page and the steps when a dialog asks the library for an operation; a
/// dialog that waits for its answer asks for nothing.
pub open spec fn dialog_asked(page: PersonalView, operation: Seq<char>, body: JsonModel) -> (
    PersonalView,
    Seq<StepView>,
) {
    if page.dialog_busy {
        (page, Seq::empty())
    } else {
        (
            PersonalView { dialog_error: ""@, dialog_busy: true, ..page },
            seq![
                ask(
                    "personal-dialog-"@ + operation,
                    "POST"@,
                    "local:library-"@ + operation,
                    body,
                ),
            ],
        )
    }
}

pub fn personal_dialog_job(page: &mut PersonalPage, operation: &str, body: Json) -> (r: Vec<Step>)
    ensures
        (final(page)@, step_views(r@)) == dialog_asked(old(page)@, operation@, body@),
{
    if page.dialog_busy {
        return none();
    }
    page.dialog_error = "".to_owned();
    page.dialog_busy = true;
    one(
        asking(
            cat("personal-dialog-", operation).as_str(),
            "POST",
            cat("local:library-", operation).as_str(),
            body,
        ),
    )
}

/// A document with one member.
pub open spec fn single(key: Seq<char>, value: JsonModel) -> JsonModel {
    JsonModel::Object(seq![(key, value)])
}

fn make_single(key: &str, value: Json) -> (r: Json)
    ensures
        r@ == single(key@, value@),
{
    let ghost view = value@;
    let mut fields: Vec<(String, Json)> = Vec::new();
    fields.push((key.to_owned(), value));
    let r: Json = Json::from_members(fields);
    proof {
        assert(r@->Object_0 =~= seq![(key@, view)]);
    }
    r
}

/// A document with two members.
pub open spec fn couple(
    a: Seq<char>,
    x: JsonModel,
    b: Seq<char>,
    y: JsonModel,
) -> JsonModel {
    JsonModel::Object(seq![(a, x), (b, y)])
}

pub fn make_couple(a: &str, x: Json, b: &str, y: Json) -> (r: Json)
    ensures
        r@ == couple(a@, x@, b@, y@),
{
    let ghost vx = x@;
    let ghost vy = y@;
    let mut fields: Vec<(String, Json)> = Vec::new();
    fields.push((a.to_owned(), x));
    fields.push((b.to_owned(), y));
    let r: Json = Json::from_members(fields);
    proof {
        assert(r@->Object_0 =~= seq![(a@, vx), (b@, vy)]);
    }
    r
}

/// The step that takes a picture of the canvas into the library; `path` and
/// `name` are what the message says, where it is a document.
pub open spec fn canvas_registration(
    path: Option<Seq<char>>,
    name: Option<Seq<char>>,
    message: Seq<char>,
) -> StepView {
    library_job(
        "register"@,
        couple(
            "path"@,
            JsonModel::Text(
                if path is Some && path->0.len() > 0 {
                    path->0
                } else {
                    message
                },
            ),
            "name"@,
            JsonModel::Text(
                match name {
                    Some(n) => n,
                    None => ""@,
                },
            ),
        ),
    )
}

pub fn register_canvas(path: Option<String>, name: Option<String>, message: &str) -> (r: Step)
    ensures
        r@ == canvas_registration(opt(path), opt(name), message@),
{
    let file: String = match path {
        Some(p) => if p.as_str().is_empty() {
            message.to_owned()
        } else {
            p
        },
        None => message.to_owned(),
    };
    let shown: String = match name {
        Some(n) => n,
        None => "".to_owned(),
    };
    personal_job(
        "register",
        make_couple("path", Json::Text(file), "name", Json::Text(shown)),
    )
}

/// The page and the steps when a file is clicked in the selection mode.
pub open spec fn file_clicked(page: PersonalView, id: Seq<char>) -> (PersonalView, Seq<StepView>) {
    if shows_id(page, id) {
        (
            PersonalView {
                selected: if page.selected.contains(id) {
                    page.selected.remove(id)
                } else {
                    page.selected.insert(id)
                },
                ..page
            },
            seq![StepView::Draw(Panel::Personal)],
        )
    } else {
        (page, Seq::empty())
    }
}

fn click_file(page: &mut PersonalPage, id: &str) -> (r: Vec<Step>)
    ensures
        (final(page)@, step_views(r@)) == file_clicked(old(page)@, id@),
{
    let ghost before = page@;
    if !is_shown(page, id) {
        return none();
    }
    if !page.selected.remove(id) {
        proof {
            assert(before.selected.remove(id@) =~= before.selected);
        }
        page.selected.insert(id);
    }
    one(Step::Draw(Panel::Personal))
}

/// The files that are shown.
pub open spec fn shown_ids(page: PersonalView) -> Set<Seq<char>> {
    Set::new(|id: Seq<char>| shows_id(page, id))
}

/// The page when all shown files are put into the choice, or out of it.
pub open spec fn shown_chosen(page: PersonalView, on: bool) -> PersonalView {
    PersonalView {
        selected: if on {
            page.selected.union(shown_ids(page))
        } else {
            page.selected.difference(shown_ids(page))
        },
        ..page
    }
}

fn choose_shown(page: &mut PersonalPage, on: bool)
    ensures
        final(page)@ == shown_chosen(old(page)@, on),
{
    let ghost before = page@;
    let mut chosen: TextSet = page.selected.copy();
    let mut i: usize = 0;
    while i < page.assets.len()
        invariant
            i <= page.assets.len(),
            before == page@,
            forall|s: Seq<char>|
                #[trigger] chosen@.contains(s) <==> if on {
                    before.selected.contains(s) || shown_before(before, i as int, s)
                } else {
                    before.selected.contains(s) && !shown_before(before, i as int, s)
                },
        decreases page.assets.len() - i,
    {
        proof {
            assert(before.assets[i as int] == page.assets@[i as int]@);
        }
        let ghost prior = chosen@;
        if shows(page, &page.assets[i]) {
            let id: String = page.assets[i].text("id");
            if on {
                chosen.insert(id.as_str());
            } else {
                chosen.remove(id.as_str());
            }
        }
        proof {
            assert forall|s: Seq<char>| #[trigger] chosen@.contains(s) <==> if on {
                before.selected.contains(s) || shown_before(before, i + 1, s)
            } else {
                before.selected.contains(s) && !shown_before(before, i + 1, s)
            } by {
                shown_before_step(before, i as int, s);
                assert(prior.contains(s) || !prior.contains(s));
            }
        }
        i = i + 1;
    }
    proof {
        assert forall|s: Seq<char>| chosen@.contains(s) <==> shown_chosen(
            before,
            on,
        ).selected.contains(s) by {
            assert(shown_before(before, i as int, s) == shows_id(before, s));
        }
        assert(chosen@ =~= shown_chosen(before, on).selected);
    }
    page.selected = chosen;
}

/// Whether one of the first `n` files is shown and has the identity `id`.
pub open spec fn shown_before(page: PersonalView, n: int, id: Seq<char>) -> bool {
    exists|i: int|
        0 <= i < n && is_visible(page, #[trigger] page.assets[i]) && page.assets[i].text("id"@)
            == id
}

proof fn shown_before_step(page: PersonalView, n: int, id: Seq<char>)
    requires
        0 <= n < page.assets.len(),
    ensures
        shown_before(page, n + 1, id) == (shown_before(page, n, id) || (is_visible(
            page,
            page.assets[n],
        ) && page.assets[n].text("id"@) == id)),
{
    if shown_before(page, n + 1, id) {
        let i = choose|i: int|
            0 <= i < n + 1 && is_visible(page, #[trigger] page.assets[i]) && page.assets[i].text(
                "id"@,
            ) == id;
        if i < n {
            assert(shown_before(page, n, id));
        }
    }
    if shown_before(page, n, id) {
        let i = choose|i: int|
            0 <= i < n && is_visible(page, #[trigger] page.assets[i]) && page.assets[i].text("id"@)
                == id;
        assert(is_visible(page, page.assets[i]) && page.assets[i].text("id"@) == id);
    }
}

/// The step that does something to several files.
pub open spec fn bulk_job(operation: Seq<char>, ids: Seq<Seq<char>>) -> StepView {
    ask(
        "personal-bulk"@,
        "POST"@,
        "local:library-"@ + operation,
        single("ids"@, JsonModel::Array(text_models(ids))),
    )
}

fn make_bulk(operation: &str, ids: &Vec<String>) -> (r: Step)
    ensures
        r@ == bulk_job(operation@, views(ids@)),
{
    asking(
        "personal-bulk",
        "POST",
        cat("local:library-", operation).as_str(),
        make_single("ids", text_list(ids)),
    )
}

/// The steps when the choice is put into the bin or taken out of it.
pub open spec fn bulk_steps(page: PersonalView, operation: Seq<char>) -> Seq<StepView> {
    let ids = ascending(page.selected);
    if ids.len() == 0 {
        seq![StepView::Error("请先选择素材"@)]
    } else {
        seq![bulk_job(operation, ids)]
    }
}

fn do_bulk(page: &PersonalPage, operation: &str) -> (r: Vec<Step>)
    ensures
        step_views(r@) == bulk_steps(page@, operation@),
{
    let ids: Vec<String> = sorted_texts(&page.selected);
    proof {
        assert(views(ids@).len() == ids@.len());
    }
    if ids.len() == 0 {
        fail("请先选择素材")
    } else {
        one(make_bulk(operation, &ids))
    }
}

/// The files that a removal speaks of.
pub open spec fn removal_ids(page: PersonalView, id: Seq<char>) -> Seq<Seq<char>> {
    if id.len() == 0 {
        ascending(page.selected)
    } else {
        seq![id]
    }
}

/// Whether the library has all of these files.
pub open spec fn all_known(page: PersonalView, ids: Seq<Seq<char>>) -> bool {
    forall|i: int| 0 <= i < ids.len() ==> any(page.assets, text_is("id"@, #[trigger] ids[i]))
}

/// The page and the steps when a removal is prepared: the files are held fast,
/// and the user is asked.
pub open spec fn removal_prepared(page: PersonalView, id: Seq<char>) -> (
    PersonalView,
    Seq<StepView>,
) {
    let ids = removal_ids(page, id);
    if ids.len() == 0 {
        (page, seq![StepView::Error("请先选择素材"@)])
    } else if !all_known(page, ids) {
        (page, seq![StepView::Error("所选素材已变化，请刷新后重试"@)])
    } else {
        (
            PersonalView {
                pending_delete: ids,
                delete_count: ids.len() as i32,
                dialog: 5,
                ..page
            },
            Seq::empty(),
        )
    }
}

fn prepare_removal(page: &mut PersonalPage, id: &str) -> (r: Vec<Step>)
    ensures
        (final(page)@, step_views(r@)) == removal_prepared(old(page)@, id@),
{
    let ids: Vec<String> = if id.is_empty() {
        sorted_texts(&page.selected)
    } else {
        let mut one_id: Vec<String> = Vec::new();
        one_id.push(id.to_owned());
        proof {
            assert(views(one_id@) =~= seq![id@]);
        }
        one_id
    };
    let ghost all_ids = views(ids@);
    proof {
        assert(all_ids.len() == ids@.len());
    }
    if ids.len() == 0 {
        return fail("请先选择素材");
    }
    let mut i: usize = 0;
    while i < ids.len()
        invariant
            i <= ids.len(),
            ids.len() > 0,
            *page == *old(page),
            all_ids == views(ids@),
            all_ids == removal_ids(page@, id@),
            forall|j: int|
                0 <= j < i ==> any(page@.assets, text_is("id"@, #[trigger] all_ids[j])),
        decreases ids.len() - i,
    {
        proof {
            assert(all_ids[i as int] == ids@[i as int]@);
        }
        if !any_text(&page.assets, "id", ids[i].as_str()) {
            return fail("所选素材已变化，请刷新后重试");
        }
        i = i + 1;
    }
    page.delete_count = ids.len() as i32;
    page.pending_delete = ids;
    page.dialog = 5;
    none()
}

/// The page and the steps when a removal is confirmed.
pub open spec fn removal_confirmed(page: PersonalView) -> (PersonalView, Seq<StepView>) {
    (
        PersonalView { pending_delete: Seq::empty(), ..page },
        if page.pending_delete.len() == 0 {
            Seq::empty()
        } else {
            seq![bulk_job("trash-selected"@, page.pending_delete)]
        },
    )
}

fn confirm_removal(page: &mut PersonalPage) -> (r: Vec<Step>)
    ensures
        (final(page)@, step_views(r@)) == removal_confirmed(old(page)@),
{
    let mut ids: Vec<String> = Vec::new();
    proof {
        assert(views(ids@) =~= Seq::empty());
    }
    std::mem::swap(&mut ids, &mut page.pending_delete);
    proof {
        assert(views(ids@).len() == ids@.len());
    }
    if ids.len() == 0 {
        none()
    } else {
        one(make_bulk("trash-selected", &ids))
    }
}

/// The page and the steps when a folder is made.
pub open spec fn folder_made(page: PersonalView) -> (PersonalView, Seq<StepView>) {
    if trimmed(page.new_folder).len() == 0 {
        (PersonalView { dialog_error: "请输入文件夹名称"@, ..page }, Seq::empty())
    } else {
        dialog_asked(
            page,
            "create-folder"@,
            single("name"@, JsonModel::Text(trimmed(page.new_folder))),
        )
    }
}

fn make_folder(page: &mut PersonalPage) -> (r: Vec<Step>)
    ensures
        (final(page)@, step_views(r@)) == folder_made(old(page)@),
{
    let name: String = trim(page.new_folder.as_str());
    if name.as_str().is_empty() {
        page.dialog_error = "请输入文件夹名称".to_owned();
        return none();
    }
    personal_dialog_job(page, "create-folder", make_single("name", Json::Text(name)))
}

/// The page and the steps when a file is renamed.
pub open spec fn file_renamed(page: PersonalView, id: Seq<char>) -> (PersonalView, Seq<StepView>) {
    if trimmed(page.rename).len() == 0 {
        (PersonalView { dialog_error: "请输入素材名称"@, ..page }, Seq::empty())
    } else {
        dialog_asked(
            page,
            "rename"@,
            couple("id"@, JsonModel::Text(id), "name"@, JsonModel::Text(trimmed(page.rename))),
        )
    }
}

fn rename_file(page: &mut PersonalPage, id: &str) -> (r: Vec<Step>)
    ensures
        (final(page)@, step_views(r@)) == file_renamed(old(page)@, id@),
{
    let name: String = trim(page.rename.as_str());
    if name.as_str().is_empty() {
        page.dialog_error = "请输入素材名称".to_owned();
        return none();
    }
    personal_dialog_job(
        page,
        "rename",
        make_couple("id", Json::from_text(id), "name", Json::Text(name)),
    )
}

/// The body of a move.
pub open spec fn move_body(ids: Seq<Seq<char>>, folder: Seq<char>) -> JsonModel {
    couple(
        "ids"@,
        JsonModel::Array(text_models(ids)),
        "folder_id"@,
        JsonModel::Text(folder),
    )
}

/// The page and the steps when files are moved to the chosen folder: one file,
/// or the choice where `id` is `None`.
pub open spec fn files_moved(page: PersonalView, id: Option<Seq<char>>) -> (
    PersonalView,
    Seq<StepView>,
) {
    let folder = if page.folder_target == 0 {
        ""@
    } else {
        match folder_at(page.folders, page.folder_target - 1) {
            Some(f) => f,
            None => ""@,
        }
    };
    let ids = match id {
        Some(one_id) => seq![one_id],
        None => ascending(page.selected),
    };
    if page.folder_target != 0 && folder.len() == 0 {
        (PersonalView { dialog_error: "文件夹不存在，请刷新后重试"@, ..page }, Seq::empty())
    } else if ids.len() == 0 {
        (PersonalView { dialog_error: "请先选择素材"@, ..page }, Seq::empty())
    } else {
        dialog_asked(page, "move"@, move_body(ids, folder))
    }
}

fn move_files(page: &mut PersonalPage, id: Option<&str>) -> (r: Vec<Step>)
    ensures
        (final(page)@, step_views(r@)) == files_moved(
            old(page)@,
            match id {
                Some(s) => Some(s@),
                None => None,
            },
        ),
{
    let target: i32 = page.folder_target;
    let folder: String = if target < 1 || (target - 1) as usize >= page.folders.len() {
        "".to_owned()
    } else {
        page.folders[(target - 1) as usize].text("id")
    };
    if target != 0 && folder.as_str().is_empty() {
        page.dialog_error = "文件夹不存在，请刷新后重试".to_owned();
        return none();
    }
    let ids: Vec<String> = match id {
        Some(s) => {
            let mut one_id: Vec<String> = Vec::new();
            one_id.push(s.to_owned());
            proof {
                assert(views(one_id@) =~= seq![s@]);
            }
            one_id
        },
        None => sorted_texts(&page.selected),
    };
    proof {
        assert(views(ids@).len() == ids@.len());
    }
    if ids.len() == 0 {
        page.dialog_error = "请先选择素材".to_owned();
        return none();
    }
    personal_dialog_job(
        page,
        "move",
        make_couple("ids", text_list(&ids), "folder_id", Json::Text(folder)),
    )
}

/// The file and the place of a drop: the message ends in a colon and a number.
pub open spec fn drop_message(message: Seq<char>) -> Option<(Seq<char>, i32)> {
    match last_of(message, ':') {
        None => None,
        Some(i) => match parsed(
            message.subrange(i + 1, message.len() as int),
            i32::MAX as nat,
        ) {
            Some(n) => Some((message.subrange(0, i), n as i32)),
            None => None,
        },
    }
}

fn read_drop(message: &str) -> (r: Option<(String, i32)>)
    ensures
        match r {
            Some((id, n)) => drop_message(message@) == Some((id@, n)),
            None => drop_message(message@) is None,
        },
{
    let v: Vec<char> = chars_of(message);
    proof {
        assert(v@.take(v@.len() as int) =~= v@);
    }
    let i: usize = match find_last(&v, v.len(), ':') {
        Some(i) => i,
        None => return None,
    };
    match read_number(&v, i + 1, v.len()) {
        Some(n) => if n <= i32::MAX as u64 {
            Some((text_of(&v, 0, i), n as i32))
        } else {
            None
        },
        None => None,
    }
}

/// The steps when a file is dropped on a folder.
pub open spec fn file_dropped(page: PersonalView, working: bool, message: Seq<char>) -> Seq<
    StepView,
> {
    match drop_message(message) {
        None => Seq::empty(),
        Some((id, place)) => if page.trash || working || page.dialog > 0 {
            Seq::empty()
        } else {
            match drop_plan(page, id, place) {
                None => Seq::empty(),
                Some((ids, folder)) => seq![
                    ask(
                        "personal-drag-move"@,
                        "POST"@,
                        "local:library-move"@,
                        move_body(ids, folder),
                    ),
                ],
            }
        },
    }
}

fn drop_file(page: &PersonalPage, working: bool, message: &str) -> (r: Vec<Step>)
    ensures
        step_views(r@) == file_dropped(page@, working, message@),
{
    let (id, place) = match read_drop(message) {
        Some(found) => found,
        None => return none(),
    };
    match personal_drop_move(page, working, id.as_str(), place) {
        None => none(),
        Some((ids, folder)) => one(
            asking(
                "personal-drag-move",
                "POST",
                "local:library-move",
                make_couple("ids", text_list(&ids), "folder_id", Json::Text(folder)),
            ),
        ),
    }
}

/// A file that is not there.
pub open spec fn is_missing(present: Set<Seq<char>>) -> spec_fn(JsonModel) -> bool {
    |v: JsonModel| !present.contains(v.text("path"@))
}

fn any_missing(list: &Vec<Json>, present: &TextSet) -> (r: bool)
    ensures
        r == any(models(list@), is_missing(present@)),
{
    let ghost p = is_missing(present@);
    let mut i: usize = 0;
    while i < list.len()
        invariant
            i <= list.len(),
            p == is_missing(present@),
            forall|j: int| 0 <= j < i ==> !p(#[trigger] models(list@)[j]),
        decreases list.len() - i,
    {
        let path: String = list[i].text("path");
        if !present.has(path.as_str()) {
            proof {
                assert(p(models(list@)[i as int]));
            }
            return true;
        }
        i = i + 1;
    }
    false
}

/// A file of the library as a file that may become a reference.
pub open spec fn candidate(v: JsonModel) -> SelectionView {
    SelectionView {
        id: v.text("id"@),
        name: v.text("name"@),
        kind: v.text("kind"@),
        local_path: v.text("path"@),
        download_endpoint: ""@,
        download_path: ""@,
    }
}

pub open spec fn candidates(list: Seq<JsonModel>) -> Seq<SelectionView> {
    Seq::new(list.len(), |i: int| candidate(list[i]))
}

fn make_candidates(list: &Vec<Json>) -> (r: Vec<PickerSelection>)
    ensures
        selection_views(r@) == candidates(models(list@)),
{
    let mut out: Vec<PickerSelection> = Vec::new();
    let mut i: usize = 0;
    while i < list.len()
        invariant
            i <= list.len(),
            out@.len() == i,
            forall|j: int| 0 <= j < i ==> (#[trigger] out@[j])@ == candidate(models(list@)[j]),
        decreases list.len() - i,
    {
        out.push(
            PickerSelection {
                id: list[i].text("id"),
                name: list[i].text("name"),
                kind: list[i].text("kind"),
                local_path: list[i].text("path"),
                download_endpoint: "".to_owned(),
                download_path: "".to_owned(),
            },
        );
        i = i + 1;
    }
    proof {
        assert(selection_views(out@) =~= candidates(models(list@)));
    }
    out
}

/// Files of the library that go into a project, under their names.
pub open spec fn named_imports(list: Seq<JsonModel>) -> Seq<ImportView> {
    Seq::new(list.len(), |i: int| named_import(list[i]))
}

pub open spec fn named_import(v: JsonModel) -> ImportView {
    ImportView { path: v.text("path"@), name: Some(v.text("name"@)) }
}

fn make_imports(list: &Vec<Json>) -> (r: Vec<Import>)
    ensures
        import_views(r@) == named_imports(models(list@)),
{
    let mut out: Vec<Import> = Vec::new();
    let mut i: usize = 0;
    while i < list.len()
        invariant
            i <= list.len(),
            out@.len() == i,
            forall|j: int| 0 <= j < i ==> (#[trigger] out@[j])@ == named_import(models(list@)[j]),
        decreases list.len() - i,
    {
        out.push(Import { path: list[i].text("path"), name: Some(list[i].text("name")) });
        i = i + 1;
    }
    proof {
        assert(import_views(out@) =~= named_imports(models(list@)));
    }
    out
}

/// Files of the library that are exported.
pub open spec fn library_exports(list: Seq<JsonModel>) -> Seq<ItemView> {
    Seq::new(list.len(), |i: int| library_export(list[i]))
}

pub open spec fn library_export(v: JsonModel) -> ItemView {
    ItemView { id: v.text("id"@), source: v.text("path"@), name: v.text("name"@) }
}

fn make_exports(list: &Vec<Json>) -> (r: Vec<ExportItem>)
    ensures
        item_views(r@) == library_exports(models(list@)),
{
    let mut out: Vec<ExportItem> = Vec::new();
    let mut i: usize = 0;
    while i < list.len()
        invariant
            i <= list.len(),
            out@.len() == i,
            forall|j: int|
                0 <= j < i ==> (#[trigger] out@[j])@ == library_export(models(list@)[j]),
        decreases list.len() - i,
    {
        out.push(
            ExportItem {
                id: list[i].text("id"),
                source: list[i].text("path"),
                name: list[i].text("name"),
            },
        );
        i = i + 1;
    }
    proof {
        assert(item_views(out@) =~= library_exports(models(list@)));
    }
    out
}

/// The queue with all of these files at its end, as far as they do not wait
/// already.
pub open spec fn all_enqueued(
    queue: Seq<(Seq<char>, Seq<char>)>,
    list: Seq<JsonModel>,
) -> Seq<(Seq<char>, Seq<char>)>
    decreases list.len(),
{
    if list.len() == 0 {
        queue
    } else {
        enqueued(
            all_enqueued(queue, list.drop_last()),
            list.last().text("path"@),
            list.last().text("name"@),
        )
    }
}

fn enqueue_all(queue: &mut Vec<(String, String)>, list: &Vec<Json>)
    ensures
        pair_views(final(queue)@) == all_enqueued(pair_views(old(queue)@), models(list@)),
{
    let ghost start = pair_views(queue@);
    let ghost m = models(list@);
    let mut i: usize = 0;
    proof {
        assert(m.take(0) =~= Seq::empty());
    }
    while i < list.len()
        invariant
            i <= list.len(),
            m == models(list@),
            pair_views(queue@) == all_enqueued(start, m.take(i as int)),
        decreases list.len() - i,
    {
        proof {
            assert(m.take(i + 1).drop_last() =~= m.take(i as int));
            assert(m.take(i + 1).last() == m[i as int]);
        }
        enqueue_personal_reference(queue, list[i].text("path"), list[i].text("name"));
        i = i + 1;
    }
    proof {
        assert(m.take(m.len() as int) =~= m);
    }
}

/// `first`, then each of these files is used as a reference.
pub open spec fn personal_uploads(first: Seq<StepView>, list: Seq<JsonModel>) -> Seq<StepView>
    decreases list.len(),
{
    if list.len() == 0 {
        first
    } else {
        personal_uploads(first, list.drop_last()).push(
            StepView::UploadPersonal(list.last().text("path"@), list.last().text("name"@)),
        )
    }
}

fn add_uploads(steps: &mut Vec<Step>, list: &Vec<Json>)
    ensures
        step_views(final(steps)@) == personal_uploads(step_views(old(steps)@), models(list@)),
{
    let ghost first = step_views(steps@);
    let ghost m = models(list@);
    let mut i: usize = 0;
    proof {
        assert(m.take(0) =~= Seq::empty());
    }
    while i < list.len()
        invariant
            i <= list.len(),
            m == models(list@),
            step_views(steps@) == personal_uploads(first, m.take(i as int)),
        decreases list.len() - i,
    {
        proof {
            assert(m.take(i + 1).drop_last() =~= m.take(i as int));
            assert(m.take(i + 1).last() == m[i as int]);
        }
        then_do(steps, Step::UploadPersonal(list[i].text("path"), list[i].text("name")));
        i = i + 1;
    }
    proof {
        assert(m.take(m.len() as int) =~= m);
    }
}

/// Whether references can be checked now: the user is signed in, and the
/// catalog has come.
pub open spec fn can_check(facts: ActionView) -> bool {
    facts.signed_in && facts.catalog.models.len() > 0
}

/// Why files cannot become references now.
pub open spec fn reference_refused(facts: ActionView, list: Seq<JsonModel>) -> Option<Seq<char>> {
    let fault = picker_fault(
        facts.mode,
        facts.model_index,
        facts.catalog,
        facts.references,
        candidates(list),
    );
    if facts.mode == 0 && any(list, text_is_not("kind"@, "image"@)) {
        Some("当前图片模型只支持图片参考"@)
    } else if can_check(facts) && fault is Some {
        fault
    } else {
        None
    }
}

/// The intents and the steps when the choice is used as references.
pub open spec fn choice_referenced(
    intents: IntentsView,
    facts: ActionView,
    list: Seq<JsonModel>,
) -> (IntentsView, Seq<StepView>) {
    match reference_refused(facts, list) {
        Some(message) => (intents, seq![StepView::Error(message)]),
        None => if can_check(facts) {
            (intents, personal_uploads(seq![StepView::Page(1)], list))
        } else {
            (
                IntentsView { references: all_enqueued(intents.references, list), ..intents },
                seq![
                    StepView::Page(1),
                    if facts.signed_in {
                        StepView::RefreshModels
                    } else {
                        StepView::ShowAuth(Some(1))
                    },
                ],
            )
        },
    }
}

fn reference_choice(intents: &mut Intents, facts: &ActionFacts, list: &Vec<Json>) -> (r: Vec<Step>)
    ensures
        (final(intents)@, step_views(r@)) == choice_referenced(
            old(intents)@,
            facts@,
            models(list@),
        ),
{
    if facts.mode == 0 && any_text_not(list, "kind", "image") {
        return fail("当前图片模型只支持图片参考");
    }
    let checked: bool = facts.signed_in && facts.catalog.models.len() > 0;
    if checked {
        let chosen: Vec<PickerSelection> = make_candidates(list);
        if let Err(e) = validate_picker_reference_selection(
            facts.mode,
            facts.model_index,
            facts.catalog,
            facts.references,
            &chosen,
        ) {
            return one(Step::Error(e));
        }
    }
    let mut steps: Vec<Step> = one(Step::Page(1));
    if checked {
        add_uploads(&mut steps, list);
        return steps;
    }
    enqueue_all(&mut intents.references, list);
    if facts.signed_in {
        then_do(&mut steps, Step::RefreshModels);
    } else {
        then_do(&mut steps, Step::ShowAuth(Some(1)));
    }
    steps
}

/// The intents and the steps when something is done with the choice.
pub open spec fn choice_used(
    page: PersonalView,
    intents: IntentsView,
    facts: ActionView,
    action: Seq<char>,
) -> (IntentsView, Seq<StepView>) {
    let list = kept(page.assets, is_chosen(page.selected));
    if list.len() == 0 {
        (intents, seq![StepView::Error("请先选择素材"@)])
    } else if any(list, is_missing(facts.present)) {
        (intents, seq![StepView::Error("所选素材包含缺失文件，请重新关联后重试"@)])
    } else if action == "personal-reference-selected"@ {
        choice_referenced(intents, facts, list)
    } else if action == "personal-project-selected"@ {
        (intents, seq![StepView::Handoff("clip"@, named_imports(list))])
    } else if action == "personal-canvas-selected"@ {
        if any(list, text_is_not("kind"@, "image"@)) {
            (intents, seq![StepView::Error("画布只支持图片素材"@)])
        } else {
            (intents, seq![StepView::Handoff("canvas"@, named_imports(list))])
        }
    } else {
        (intents, seq![StepView::BeginExport(library_exports(list), "导出素材"@)])
    }
}

fn use_choice(page: &PersonalPage, intents: &mut Intents, facts: &ActionFacts, action: &str) -> (r:
    Vec<Step>)
    ensures
        (final(intents)@, step_views(r@)) == choice_used(page@, old(intents)@, facts@, action@),
{
    let list: Vec<Json> = keep_chosen(&page.assets, &page.selected);
    if list.len() == 0 {
        return fail("请先选择素材");
    }
    if any_missing(&list, facts.present) {
        return fail("所选素材包含缺失文件，请重新关联后重试");
    }
    if same(action, "personal-reference-selected") {
        return reference_choice(intents, facts, &list);
    }
    if same(action, "personal-project-selected") {
        return one(Step::Handoff("clip".to_owned(), make_imports(&list)));
    }
    if same(action, "personal-canvas-selected") {
        if any_text_not(&list, "kind", "image") {
            return fail("画布只支持图片素材");
        }
        return one(Step::Handoff("canvas".to_owned(), make_imports(&list)));
    }
    one(Step::BeginExport(make_exports(&list), "导出素材".to_owned()))
}

/// The intents and the steps when a file that is there becomes a reference.
pub open spec fn file_referenced(
    intents: IntentsView,
    facts: ActionView,
    path: Seq<char>,
    name: Seq<char>,
) -> (IntentsView, Seq<StepView>) {
    let waiting = IntentsView {
        references: enqueued(intents.references, path, name),
        ..intents
    };
    if !facts.signed_in {
        (waiting, seq![StepView::PickerOpen(false), StepView::ShowAuth(Some(1))])
    } else if facts.catalog.models.len() == 0 {
        (
            waiting,
            seq![StepView::Page(1), StepView::PickerOpen(false), StepView::RefreshModels],
        )
    } else {
        (
            intents,
            seq![
                StepView::Page(1),
                StepView::PickerOpen(false),
                StepView::UploadPersonal(path, name),
            ],
        )
    }
}

fn reference_file(intents: &mut Intents, facts: &ActionFacts, path: String, name: String) -> (r: Vec<
    Step,
>)
    ensures
        (final(intents)@, step_views(r@)) == file_referenced(
            old(intents)@,
            facts@,
            path@,
            name@,
        ),
{
    if !facts.signed_in {
        enqueue_personal_reference(&mut intents.references, path, name);
        let mut steps: Vec<Step> = one(Step::PickerOpen(false));
        then_do(&mut steps, Step::ShowAuth(Some(1)));
        proof {
            assert(step_views(steps@) =~= seq![
                StepView::PickerOpen(false),
                StepView::ShowAuth(Some(1)),
            ]);
        }
        return steps;
    }
    let mut steps: Vec<Step> = one(Step::Page(1));
    then_do(&mut steps, Step::PickerOpen(false));
    if facts.catalog.models.len() == 0 {
        enqueue_personal_reference(&mut intents.references, path, name);
        then_do(&mut steps, Step::RefreshModels);
        proof {
            assert(step_views(steps@) =~= seq![
                StepView::Page(1),
                StepView::PickerOpen(false),
                StepView::RefreshModels,
            ]);
        }
        return steps;
    }
    let ghost p = path@;
    let ghost n = name@;
    then_do(&mut steps, Step::UploadPersonal(path, name));
    proof {
        assert(step_views(steps@) =~= seq![
            StepView::Page(1),
            StepView::PickerOpen(false),
            StepView::UploadPersonal(p, n),
        ]);
    }
    steps
}

/// The steps that hand one file to a project.
pub open spec fn handed(kind: Seq<char>, v: JsonModel) -> Seq<StepView> {
    seq![StepView::PickerOpen(false), StepView::Handoff(kind, seq![named_import(v)])]
}

fn hand_file(kind: &str, v: &Json) -> (r: Vec<Step>)
    ensures
        step_views(r@) == handed(kind@, v@),
{
    let mut imports: Vec<Import> = Vec::new();
    imports.push(Import { path: v.text("path"), name: Some(v.text("name")) });
    proof {
        assert(import_views(imports@) =~= seq![named_import(v@)]);
    }
    let mut steps: Vec<Step> = one(Step::PickerOpen(false));
    then_do(&mut steps, Step::Handoff(kind.to_owned(), imports));
    proof {
        assert(step_views(steps@) =~= handed(kind@, v@));
    }
    steps
}

/// The intents and the steps when something is done with one file.
pub open spec fn file_used(
    page: PersonalView,
    intents: IntentsView,
    facts: ActionView,
    action: Seq<char>,
    id: Seq<char>,
) -> (IntentsView, Seq<StepView>) {
    match asset_with_id(page, id) {
        None => (intents, seq![StepView::Error("未找到该个人资产，请刷新后重试"@)]),
        Some(v) => {
            let path = v.text("path"@);
            if !facts.present.contains(path) {
                (intents, seq![StepView::Error("本地文件已移动或丢失"@)])
            } else if action == "personal-project"@ {
                (intents, handed("clip"@, v))
            } else if action == "personal-canvas"@ {
                if v.text("kind"@) != "image"@ {
                    (intents, seq![StepView::Error("只有图片素材可以打开到画布"@)])
                } else {
                    (intents, handed("canvas"@, v))
                }
            } else if action == "personal-reference"@ {
                file_referenced(intents, facts, path, v.text("name"@))
            } else if action == "personal-upload"@ {
                if facts.team.len() == 0 {
                    (intents, seq![StepView::Error("请选择要上传的团队"@)])
                } else {
                    (intents, seq![StepView::Upload(path, "team_asset"@)])
                }
            } else {
                (intents, Seq::empty())
            }
        },
    }
}

fn use_one(
    page: &PersonalPage,
    intents: &mut Intents,
    facts: &ActionFacts,
    action: &str,
    id: &str,
) -> (r: Vec<Step>)
    ensures
        (final(intents)@, step_views(r@)) == file_used(
            page@,
            old(intents)@,
            facts@,
            action@,
            id@,
        ),
{
    let i: usize = match find_text(&page.assets, "id", id) {
        Some(i) => i,
        None => return fail("未找到该个人资产，请刷新后重试"),
    };
    let v: &Json = &page.assets[i];
    let path: String = v.text("path");
    if !facts.present.has(path.as_str()) {
        return fail("本地文件已移动或丢失");
    }
    if same(action, "personal-project") {
        return hand_file("clip", v);
    }
    if same(action, "personal-canvas") {
        if !v.text_is("kind", "image") {
            return fail("只有图片素材可以打开到画布");
        }
        return hand_file("canvas", v);
    }
    if same(action, "personal-reference") {
        return reference_file(intents, facts, path, v.text("name"));
    }
    if same(action, "personal-upload") {
        if facts.team.is_empty() {
            return fail("请选择要上传的团队");
        }
        return one(Step::Upload(path, "team_asset".to_owned()));
    }
    none()
}

/// The step that marks a file as a favourite, or no longer.
pub open spec fn favourite_step(page: PersonalView, id: Seq<char>) -> StepView {
    let was = match asset_with_id(page, id) {
        Some(v) => flag(v, "favorite"@),
        None => false,
    };
    library_job(
        "favorite"@,
        couple("id"@, JsonModel::Text(id), "favorite"@, JsonModel::Bool(!was)),
    )
}

fn toggle_favourite(page: &PersonalPage, id: &str) -> (r: Step)
    ensures
        r@ == favourite_step(page@, id@),
{
    let was: bool = match find_text(&page.assets, "id", id) {
        Some(i) => has_flag(&page.assets[i], "favorite"),
        None => false,
    };
    personal_job(
        "favorite",
        make_couple("id", Json::from_text(id), "favorite", Json::from_bool(!was)),
    )
}

/// An action that changes neither the page nor the intents: its steps.
pub open spec fn plain_action(
    page: PersonalView,
    facts: ActionView,
    action: Seq<char>,
    id: Seq<char>,
) -> Option<Seq<StepView>> {
    if action == "personal-preview"@ {
        Some(seq![StepView::PersonalPreview(id)])
    } else if action == "personal-refresh"@ {
        Some(seq![library_job("list"@, JsonModel::Null)])
    } else if action == "personal-register-canvas"@ {
        Some(seq![
            canvas_registration(text_member(id, "path"@), text_member(id, "name"@), id),
        ])
    } else if action == "personal-trash-selected"@ {
        Some(bulk_steps(page, "trash-selected"@))
    } else if action == "personal-restore-selected"@ {
        Some(bulk_steps(page, "restore-selected"@))
    } else if action == "personal-drop-folder"@ {
        Some(file_dropped(page, facts.working, id))
    } else if action == "personal-favorite"@ {
        Some(seq![favourite_step(page, id)])
    } else if action == "personal-browse"@ {
        Some(seq![StepView::PickImports("导入个人素材"@)])
    } else if action == "personal-drop"@ {
        Some(seq![library_job("import"@, single("path"@, JsonModel::Text(id)))])
    } else if action == "personal-folder"@ {
        Some(seq![StepView::OpenLibraryFolder])
    } else if action == "personal-trash"@ {
        Some(seq![library_job("trash"@, single("id"@, JsonModel::Text(id)))])
    } else if action == "personal-restore"@ {
        Some(seq![library_job("restore"@, single("id"@, JsonModel::Text(id)))])
    } else {
        None
    }
}

/// The view of optional steps.
pub open spec fn opt_steps(r: Option<Vec<Step>>) -> Option<Seq<StepView>> {
    match r {
        Some(v) => Some(step_views(v@)),
        None => None,
    }
}

fn do_plain(page: &PersonalPage, facts: &ActionFacts, action: &str, id: &str) -> (r: Option<
    Vec<Step>,
>)
    ensures
        opt_steps(r) == plain_action(page@, facts@, action@, id@),
{
    if same(action, "personal-preview") {
        Some(one(Step::PersonalPreview(id.to_owned())))
    } else if same(action, "personal-refresh") {
        Some(one(personal_job("list", Json::Null)))
    } else if same(action, "personal-register-canvas") {
        let path: Option<String> = read_text_member(id, "path");
        let name: Option<String> = read_text_member(id, "name");
        Some(one(register_canvas(path, name, id)))
    } else if same(action, "personal-trash-selected") {
        Some(do_bulk(page, "trash-selected"))
    } else if same(action, "personal-restore-selected") {
        Some(do_bulk(page, "restore-selected"))
    } else if same(action, "personal-drop-folder") {
        Some(drop_file(page, facts.working, id))
    } else if same(action, "personal-favorite") {
        Some(one(toggle_favourite(page, id)))
    } else if same(action, "personal-browse") {
        Some(one(Step::PickImports("导入个人素材".to_owned())))
    } else if same(action, "personal-drop") {
        Some(one(personal_job("import", make_single("path", Json::from_text(id)))))
    } else if same(action, "personal-folder") {
        Some(one(Step::OpenLibraryFolder))
    } else if same(action, "personal-trash") {
        Some(one(personal_job("trash", make_single("id", Json::from_text(id)))))
    } else if same(action, "personal-restore") {
        Some(one(personal_job("restore", make_single("id", Json::from_text(id)))))
    } else {
        None
    }
}

/// An action that changes the page alone: the page and the steps.
pub open spec fn page_action(page: PersonalView, action: Seq<char>, id: Seq<char>) -> Option<
    (PersonalView, Seq<StepView>),
> {
    if action == "personal-select"@ {
        Some(file_clicked(page, id))
    } else if action == "personal-select-visible"@ {
        Some((shown_chosen(page, id == "true"@), seq![StepView::Draw(Panel::Personal)]))
    } else if action == "personal-freeze-delete"@ {
        Some(removal_prepared(page, id))
    } else if action == "personal-confirm-delete"@ {
        Some(removal_confirmed(page))
    } else if action == "personal-create-folder"@ {
        Some(folder_made(page))
    } else if action == "personal-move"@ {
        Some(files_moved(page, Some(id)))
    } else if action == "personal-move-selected"@ {
        Some(files_moved(page, None))
    } else if action == "personal-rename"@ {
        Some(file_renamed(page, id))
    } else {
        None
    }
}

fn do_page(page: &mut PersonalPage, action: &str, id: &str) -> (r: Option<Vec<Step>>)
    ensures
        match page_action(old(page)@, action@, id@) {
            Some((after, steps)) => final(page)@ == after && opt_steps(r) == Some(steps),
            None => final(page)@ == old(page)@ && r is None,
        },
{
    if same(action, "personal-select") {
        Some(click_file(page, id))
    } else if same(action, "personal-select-visible") {
        choose_shown(page, same(id, "true"));
        Some(one(Step::Draw(Panel::Personal)))
    } else if same(action, "personal-freeze-delete") {
        Some(prepare_removal(page, id))
    } else if same(action, "personal-confirm-delete") {
        Some(confirm_removal(page))
    } else if same(action, "personal-create-folder") {
        Some(make_folder(page))
    } else if same(action, "personal-move") {
        Some(move_files(page, Some(id)))
    } else if same(action, "personal-move-selected") {
        Some(move_files(page, None))
    } else if same(action, "personal-rename") {
        Some(rename_file(page, id))
    } else {
        None
    }
}

/// An action on the choice.
pub open spec fn on_choice(action: Seq<char>) -> bool {
    ||| action == "personal-reference-selected"@
    ||| action == "personal-project-selected"@
    ||| action == "personal-canvas-selected"@
    ||| action == "personal-export-selected"@
}

/// The page, the intents and the steps after an action.
pub open spec fn personal_acted(
    page: PersonalView,
    intents: IntentsView,
    facts: ActionView,
    action: Seq<char>,
    id: Seq<char>,
) -> (PersonalView, IntentsView, Seq<StepView>) {
    match plain_action(page, facts, action, id) {
        Some(steps) => (page, intents, steps),
        None => match page_action(page, action, id) {
            Some((after, steps)) => (after, intents, steps),
            None => if action == "personal-teams"@ {
                if facts.signed_in {
                    (page, intents, seq![fetch("teams"@, "/api/teams"@)])
                } else {
                    (
                        page,
                        IntentsView { team_picker: true, ..intents },
                        seq![StepView::ShowAuth(None)],
                    )
                }
            } else {
                let (after, steps) = if on_choice(action) {
                    choice_used(page, intents, facts, action)
                } else {
                    file_used(page, intents, facts, action, id)
                };
                (page, after, steps)
            },
        },
    }
}

/// Does what a button of the personal library stands for.
pub fn personal_action(
    page: &mut PersonalPage,
    intents: &mut Intents,
    facts: &ActionFacts,
    action: &str,
    id: &str,
) -> (r: Vec<Step>)
    ensures
        (final(page)@, final(intents)@, step_views(r@)) == personal_acted(
            old(page)@,
            old(intents)@,
            facts@,
            action@,
            id@,
        ),
{
    if let Some(steps) = do_plain(page, facts, action, id) {
        return steps;
    }
    if let Some(steps) = do_page(page, action, id) {
        return steps;
    }
    if same(action, "personal-teams") {
        if facts.signed_in {
            return one(fetching("teams", "/api/teams"));
        }
        intents.team_picker = true;
        return one(Step::ShowAuth(None));
    }
    if same(action, "personal-reference-selected") || same(action, "personal-project-selected")
        || same(action, "personal-canvas-selected") || same(action, "personal-export-selected") {
        return use_choice(page, intents, facts, action);
    }
    use_one(page, intents, facts, action, id)
}

/// What a dialog removes is what it spoke of: a change of the choice after the
/// dialog has opened does not change the files that are removed.
pub proof fn removals_are_held_fast(
    page: PersonalView,
    id: Seq<char>,
    selected: Set<Seq<char>>,
)
    requires
        removal_prepared(page, id).0.dialog == 5,
        page.dialog != 5,
    ensures
        removal_confirmed(
            PersonalView { selected, ..removal_prepared(page, id).0 },
        ).1 == seq![bulk_job("trash-selected"@, removal_ids(page, id))],
        removal_prepared(page, id).0.delete_count == removal_ids(page, id).len() as i32,
{
}

/// While a dialog waits for its answer, nothing is asked for a second time.
pub proof fn busy_dialogs_ask_nothing(page: PersonalView, operation: Seq<char>, body: JsonModel)
    ensures
        ({
            let (after, _) = dialog_asked(page, operation, body);
            dialog_asked(after, operation, body) == (after, Seq::<StepView>::empty())
        }),
{
}

} // verus!
