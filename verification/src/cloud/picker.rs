//! The file picker: files of the personal library or of a team are chosen, and
//! used together.

use crate::cloud::catalog::{
    kind_of, model_by_id, model_kind, model_named, selected_id, selected_model, Catalog,
    CatalogView,
};
use crate::cloud::references::{
    accepts, accepts_reference, kind_of_path, label_of_kind, max_items, max_of_kind, most_items,
    most_of_kind, reference_kind, reference_label,
};
use crate::cloud::requests::{plain_request, request, JobQueue, QueueView, Request, RequestView};
use crate::cloud::steps::{
    fail, fetch, fetching, none, one, step_views, then_do, Panel, Step, StepView,
};
use crate::cloud::teams::{team_id, team_of, TeamPage, TeamView};
use crate::collections::{TextMap, TextSet};
use crate::json::{models, Json, JsonModel};
use crate::lists::{all, any, any_text, count, count_text, find_text, first_where, text_is};
use crate::paths::{extension, extension_of, join_path, joined_path};
use crate::text::{
    cat, cat3, decimal, opt, same, signed_decimal, split, split_on, to_decimal, to_signed_decimal,
    verdict, views,
};
use vstd::prelude::*;
use vstd::string::*;

verus! {

/// A chosen file.
pub struct PickerSelection {
    pub id: String,
    pub name: String,
    pub kind: String,
    /// Empty where the file is not on this machine.
    pub local_path: String,
    pub download_endpoint: String,
    pub download_path: String,
}

pub struct SelectionView {
    pub id: Seq<char>,
    pub name: Seq<char>,
    pub kind: Seq<char>,
    pub local_path: Seq<char>,
    pub download_endpoint: Seq<char>,
    pub download_path: Seq<char>,
}

impl View for PickerSelection {
    type V = SelectionView;

    open spec fn view(&self) -> SelectionView {
        SelectionView {
            id: self.id@,
            name: self.name@,
            kind: self.kind@,
            local_path: self.local_path@,
            download_endpoint: self.download_endpoint@,
            download_path: self.download_path@,
        }
    }
}

/// The views of a list of chosen files.
pub open spec fn selection_views(v: Seq<PickerSelection>) -> Seq<SelectionView> {
    Seq::new(v.len(), |i: int| v[i]@)
}

/// Chosen files that are being made ready, and what they are for.
pub struct PickerBatch {
    pub purpose: String,
    pub items: Vec<PickerSelection>,
}

pub struct BatchView {
    pub purpose: Seq<char>,
    pub items: Seq<SelectionView>,
}

impl View for PickerBatch {
    type V = BatchView;

    open spec fn view(&self) -> BatchView {
        BatchView {
            purpose: self.purpose@,
            items: selection_views(self.items@),
        }
    }
}

/// The view of an optional batch.
pub open spec fn opt_batch(b: Option<PickerBatch>) -> Option<BatchView> {
    match b {
        Some(batch) => Some(batch@),
        None => None,
    }
}

/// The file picker.
pub struct Picker {
    pub open: bool,
    pub purpose: String,
    /// 0 for the personal library, 1 for a team.
    pub source: i32,
    pub personal_search: String,
    pub personal_filter: i32,
    pub team_search: String,
    pub team_filter: i32,
    /// How many files are shown as chosen.
    pub count: i32,
    /// The chosen files in the order of the choice.
    pub selected: Vec<String>,
    /// What the choice belongs to.
    pub context: String,
    pub batch: Option<PickerBatch>,
}

pub struct PickerView {
    pub open: bool,
    pub purpose: Seq<char>,
    pub source: i32,
    pub personal_search: Seq<char>,
    pub personal_filter: i32,
    pub team_search: Seq<char>,
    pub team_filter: i32,
    pub count: i32,
    pub selected: Seq<Seq<char>>,
    pub context: Seq<char>,
    pub batch: Option<BatchView>,
}

impl View for Picker {
    type V = PickerView;

    open spec fn view(&self) -> PickerView {
        PickerView {
            open: self.open,
            purpose: self.purpose@,
            source: self.source,
            personal_search: self.personal_search@,
            personal_filter: self.personal_filter,
            team_search: self.team_search@,
            team_filter: self.team_filter,
            count: self.count,
            selected: views(self.selected@),
            context: self.context@,
            batch: opt_batch(self.batch),
        }
    }
}

impl PickerSelection {
    pub fn copy(&self) -> (r: PickerSelection)
        ensures
            r@ == self@,
    {
        PickerSelection {
            id: self.id.clone(),
            name: self.name.clone(),
            kind: self.kind.clone(),
            local_path: self.local_path.clone(),
            download_endpoint: self.download_endpoint.clone(),
            download_path: self.download_path.clone(),
        }
    }
}

/// What a choice belongs to: the source, the purpose and the team.
pub open spec fn context_of(picker: PickerView, page: TeamView) -> Seq<char> {
    signed_decimal(picker.source as int) + ":"@ + picker.purpose + ":"@ + if picker.source == 1 {
        team_of(page)
    } else {
        ""@
    }
}

pub fn picker_context(picker: &Picker, page: &TeamPage) -> (r: String)
    ensures
        r@ == context_of(picker@, page@),
{
    let team: String = if picker.source == 1 {
        team_id(page)
    } else {
        "".to_owned()
    };
    let source: String = to_signed_decimal(picker.source as i64);
    let head: String = cat3(source.as_str(), ":", picker.purpose.as_str());
    cat3(head.as_str(), ":", team.as_str())
}

/// The picker without a choice.
pub fn clear_picker_selection(picker: &mut Picker)
    ensures
        final(picker)@ == (PickerView { selected: Seq::empty(), count: 0, ..old(picker)@ }),
{
    picker.selected = Vec::new();
    picker.count = 0;
    proof {
        assert(views(picker.selected@) =~= Seq::empty());
    }
}

/// The picker with its choice held to its context: another source, purpose or
/// team starts a new choice. Files that are no longer listed stay chosen, so
/// that a refresh never makes a choice smaller.
pub open spec fn picker_synced(picker: PickerView, page: TeamView) -> PickerView {
    if !picker.open {
        PickerView { count: 0, ..picker }
    } else {
        let context = context_of(picker, page);
        let selected = if picker.context != context {
            Seq::empty()
        } else {
            picker.selected
        };
        PickerView {
            context,
            selected,
            count: if picker.purpose == "canvas"@ {
                0
            } else {
                selected.len() as i32
            },
            ..picker
        }
    }
}

pub fn sync_picker_selection(picker: &mut Picker, page: &TeamPage)
    ensures
        final(picker)@ == picker_synced(old(picker)@, page@),
{
    if !picker.open {
        picker.count = 0;
        return ;
    }
    let context: String = picker_context(picker, page);
    if !same(picker.context.as_str(), context.as_str()) {
        picker.context = context;
        picker.selected = Vec::new();
        proof {
            assert(views(picker.selected@) =~= Seq::empty());
        }
    }
    picker.count = if same(picker.purpose.as_str(), "canvas") {
        0
    } else {
        picker.selected.len() as i32
    };
}

/// Whether only pictures can be chosen.
pub open spec fn only_images(purpose: Seq<char>, mode: i32) -> bool {
    purpose == "canvas"@ || (purpose == "reference"@ && mode == 0)
}

/// The error goes, and both lists of files are drawn again.
pub open spec fn redraw() -> Seq<StepView> {
    seq![
        StepView::Error(""@),
        StepView::Draw(Panel::Personal),
        StepView::Draw(Panel::Assets),
    ]
}

fn redrawing() -> (r: Vec<Step>)
    ensures
        step_views(r@) == redraw(),
{
    let mut steps: Vec<Step> = one(Step::Error("".to_owned()));
    then_do(&mut steps, Step::Draw(Panel::Personal));
    then_do(&mut steps, Step::Draw(Panel::Assets));
    proof {
        assert(step_views(steps@) =~= redraw());
    }
    steps
}

/// The picker when it is opened for a purpose, and the steps.
pub open spec fn picker_begun(
    picker: PickerView,
    page: TeamView,
    purpose: Seq<char>,
    source: i32,
    mode: i32,
    signed_in: bool,
) -> (PickerView, TeamView, Seq<StepView>) {
    let filter: i32 = if only_images(purpose, mode) {
        1
    } else {
        0
    };
    let opened = PickerView {
        open: true,
        purpose,
        source,
        personal_search: ""@,
        personal_filter: filter,
        team_search: ""@,
        team_filter: filter,
        selected: Seq::empty(),
        count: 0,
        ..picker
    };
    let shown = TeamView { trash_open: false, ..page };
    let drawn = redraw();
    (
        PickerView { context: context_of(opened, shown), ..opened },
        shown,
        if source == 0 {
            drawn.push(
                crate::cloud::steps::ask(
                    "personal"@,
                    "POST"@,
                    "local:library-list"@,
                    JsonModel::Null,
                ),
            )
        } else if signed_in {
            drawn.push(fetch("teams"@, "/api/teams"@))
        } else {
            drawn
        },
    )
}

/// Opens the picker.
pub fn begin_asset_picker(
    picker: &mut Picker,
    page: &mut TeamPage,
    purpose: &str,
    source: i32,
    mode: i32,
    signed_in: bool,
) -> (r: Vec<Step>)
    ensures
        (final(picker)@, final(page)@, step_views(r@)) == picker_begun(
            old(picker)@,
            old(page)@,
            purpose@,
            source,
            mode,
            signed_in,
        ),
{
    picker.open = true;
    picker.purpose = purpose.to_owned();
    picker.source = source;
    picker.personal_search = "".to_owned();
    let image_only: bool = same(purpose, "canvas") || (same(purpose, "reference") && mode == 0);
    picker.personal_filter = if image_only {
        1
    } else {
        0
    };
    picker.team_search = "".to_owned();
    picker.team_filter = if image_only {
        1
    } else {
        0
    };
    page.trash_open = false;
    clear_picker_selection(picker);
    let context: String = picker_context(picker, page);
    picker.context = context;
    let mut steps: Vec<Step> = redrawing();
    if source == 0 {
        then_do(
            &mut steps,
            crate::cloud::steps::asking("personal", "POST", "local:library-list", Json::Null),
        );
    } else if signed_in {
        then_do(&mut steps, fetching("teams", "/api/teams"));
    }
    steps
}

/// The request that brings a chosen file to this machine, as it was when the
/// file was chosen.
pub open spec fn download_of(item: SelectionView) -> Option<RequestView> {
    if item.download_endpoint.len() == 0 {
        None
    } else {
        Some(
            plain_request(
                "GET"@,
                "local:download"@,
                JsonModel::Object(
                    seq![
                        ("id"@, JsonModel::Text(item.id)),
                        ("endpoint"@, JsonModel::Text(item.download_endpoint)),
                        ("path"@, JsonModel::Text(item.download_path)),
                        ("intent"@, JsonModel::Text("picker-batch"@)),
                        ("intent_team"@, JsonModel::Text(""@)),
                    ],
                ),
            ),
        )
    }
}

pub fn picker_download_request(item: &PickerSelection) -> (r: Option<Request>)
    ensures
        crate::cloud::generation::opt_request(r) == download_of(item@),
{
    if item.download_endpoint.as_str().is_empty() {
        return None;
    }
    let mut fields: Vec<(String, Json)> = Vec::new();
    fields.push(("id".to_owned(), Json::from_text(item.id.as_str())));
    fields.push(("endpoint".to_owned(), Json::from_text(item.download_endpoint.as_str())));
    fields.push(("path".to_owned(), Json::from_text(item.download_path.as_str())));
    fields.push(("intent".to_owned(), Json::from_text("picker-batch")));
    fields.push(("intent_team".to_owned(), Json::from_text("")));
    let body: Json = Json::from_members(fields);
    proof {
        assert(body@->Object_0 =~= download_of(item@)->0.body->Object_0);
    }
    Some(request("GET", "local:download", body))
}

/// A chosen file of an identity.
pub open spec fn selection_is(id: Seq<char>) -> spec_fn(SelectionView) -> bool {
    |s: SelectionView| s.id == id
}

pub fn find_selection(items: &Vec<PickerSelection>, id: &str) -> (r: Option<usize>)
    ensures
        match r {
            Some(i) => first_where(selection_views(items@), selection_is(id@)) == Some(i as int)
                && i < items.len(),
            None => first_where(selection_views(items@), selection_is(id@)) is None,
        },
{
    let ghost p = selection_is(id@);
    let mut i: usize = 0;
    while i < items.len()
        invariant
            i <= items.len(),
            p == selection_is(id@),
            first_where(selection_views(items@), p) == crate::lists::first_from(
                selection_views(items@),
                p,
                i as int,
            ),
        decreases items.len() - i,
    {
        proof {
            assert(selection_views(items@)[i as int] == items@[i as int]@);
        }
        if same(items[i].id.as_str(), id) {
            return Some(i);
        }
        i = i + 1;
    }
    None
}

/// The batch when a file of it has arrived.
pub open spec fn batch_with_path(batch: BatchView, id: Seq<char>, path: Seq<char>) -> BatchView {
    match first_where(batch.items, selection_is(id)) {
        Some(i) => BatchView {
            items: batch.items.update(i, SelectionView { local_path: path, ..batch.items[i] }),
            ..batch
        },
        None => batch,
    }
}

/// Takes note of a file of the batch that has arrived; the result says whether
/// it is one.
pub fn set_picker_batch_path(picker: &mut Picker, id: &str, path: &str) -> (r: bool)
    ensures
        r == (old(picker)@.batch matches Some(b) && first_where(
            b.items,
            selection_is(id@),
        ) is Some),
        final(picker)@ == (PickerView {
            batch: match old(picker)@.batch {
                Some(b) => Some(batch_with_path(b, id@, path@)),
                None => None,
            },
            ..old(picker)@
        }),
{
    let mut found: Option<PickerBatch> = None;
    std::mem::swap(&mut found, &mut picker.batch);
    match found {
        None => false,
        Some(batch) => {
            let mut items: Vec<PickerSelection> = batch.items;
            let ghost before = selection_views(items@);
            match find_selection(&items, id) {
                None => {
                    picker.batch = Some(PickerBatch { purpose: batch.purpose, items });
                    false
                },
                Some(i) => {
                    let mut item: PickerSelection = items[i].copy();
                    item.local_path = path.to_owned();
                    items.set(i, item);
                    proof {
                        assert(selection_views(items@) =~= before.update(
                            i as int,
                            SelectionView { local_path: path@, ..before[i as int] },
                        ));
                    }
                    picker.batch = Some(PickerBatch { purpose: batch.purpose, items });
                    true
                },
            }
        },
    }
}

/// Whether a document says `true` under a key.
pub open spec fn flag(v: JsonModel, key: Seq<char>) -> bool {
    v.at(key).as_bool() == Some(true)
}

pub fn has_flag(v: &Json, key: &str) -> (r: bool)
    ensures
        r == flag(v@, key@),
{
    match v.at(key).as_bool() {
        Some(b) => b,
        None => false,
    }
}

/// The medium in a content type: what stands before the slash.
pub open spec fn medium_of(content_type: Seq<char>) -> Seq<char> {
    split_on(content_type, '/')[0]
}

pub fn medium(content_type: &str) -> (r: String)
    ensures
        r@ == medium_of(content_type@),
{
    proof {
        crate::text::split_on_nonempty(content_type@, '/');
    }
    let parts: Vec<String> = split(content_type, '/');
    proof {
        assert(views(parts@)[0] == parts@[0]@);
    }
    parts[0].clone()
}

/// Whether a file that was brought to this machine is there.
pub open spec fn is_here(
    local: Map<Seq<char>, Seq<char>>,
    present: Set<Seq<char>>,
    id: Seq<char>,
) -> bool {
    local.contains_key(id) && present.contains(local[id])
}

/// The path of a file that was brought to this machine and is there.
pub fn here(local: &TextMap<String>, present: &TextSet, id: &str) -> (r: Option<String>)
    ensures
        opt(r) == if is_here(local@, present@, id@) {
            Some(local@[id@])
        } else {
            None
        },
{
    match local.get(id) {
        Some(path) => if present.has(path.as_str()) {
            Some(path.clone())
        } else {
            None
        },
        None => None,
    }
}

/// The choice of a file of the personal library.
pub open spec fn personal_choice(
    personal: Seq<JsonModel>,
    present: Set<Seq<char>>,
    purpose: Seq<char>,
    id: Seq<char>,
) -> Result<SelectionView, Seq<char>> {
    match first_where(personal, text_is("id"@, id)) {
        None => Err("所选素材已不可用，请重新选择"@),
        Some(i) => {
            let asset = personal[i];
            let path = asset.text("path"@);
            if flag(asset, "trashed"@) || !flag(asset, "available"@) || !present.contains(path) {
                Err("素材“"@ + asset.text("name"@) + "”已不可用，请重新选择"@)
            } else if purpose == "reference"@ && kind_of_path(path) == "unsupported"@ {
                Err("素材“"@ + asset.text("name"@) + "”格式不受支持"@)
            } else {
                Ok(
                    SelectionView {
                        id,
                        name: asset.text("name"@),
                        kind: asset.text("kind"@),
                        local_path: path,
                        download_endpoint: ""@,
                        download_path: ""@,
                    },
                )
            }
        },
    }
}

/// The view of the outcome of a choice.
pub open spec fn choice_view(r: Result<PickerSelection, String>) -> Result<
    SelectionView,
    Seq<char>,
> {
    match r {
        Ok(s) => Ok(s@),
        Err(e) => Err(e@),
    }
}

fn choose_personal(personal: &Vec<Json>, present: &TextSet, purpose: &str, id: &str) -> (r: Result<
    PickerSelection,
    String,
>)
    ensures
        choice_view(r) == personal_choice(models(personal@), present@, purpose@, id@),
{
    let i: usize = match find_text(personal, "id", id) {
        Some(i) => i,
        None => return Err("所选素材已不可用，请重新选择".to_owned()),
    };
    let asset: &Json = &personal[i];
    let path: String = asset.text("path");
    let name: String = asset.text("name");
    if has_flag(asset, "trashed") || !has_flag(asset, "available") || !present.has(path.as_str()) {
        return Err(cat3("素材“", name.as_str(), "”已不可用，请重新选择"));
    }
    if same(purpose, "reference") && same(reference_kind(path.as_str()), "unsupported") {
        return Err(cat3("素材“", name.as_str(), "”格式不受支持"));
    }
    Ok(
        PickerSelection {
            id: id.to_owned(),
            name,
            kind: asset.text("kind"),
            local_path: path,
            download_endpoint: "".to_owned(),
            download_path: "".to_owned(),
        },
    )
}

/// The choice of a file of a team.
pub open spec fn team_choice(
    page: TeamView,
    local: Map<Seq<char>, Seq<char>>,
    present: Set<Seq<char>>,
    folder: Seq<char>,
    id: Seq<char>,
) -> Result<SelectionView, Seq<char>> {
    match first_where(page.assets, text_is("id"@, id)) {
        None => Err("所选团队素材已刷新，请重新选择"@),
        Some(i) => {
            let asset = page.assets[i];
            let kind = medium_of(asset.text("content_type"@));
            let filename = asset.text("filename"@);
            let team = team_of(page);
            if kind != "image"@ && kind != "video"@ && kind != "audio"@ {
                Err("素材“"@ + filename + "”格式不受支持"@)
            } else if team.len() == 0 {
                Err("请选择素材所属团队"@)
            } else {
                Ok(
                    SelectionView {
                        id,
                        name: filename,
                        kind,
                        local_path: if is_here(local, present, id) {
                            local[id]
                        } else {
                            ""@
                        },
                        download_endpoint: "/api/teams/"@ + team + "/assets/"@ + id + "/download"@,
                        download_path: file_for(folder, id, filename),
                    },
                )
            }
        },
    }
}

/// Where a file of a team is kept on this machine.
pub open spec fn file_for(folder: Seq<char>, id: Seq<char>, filename: Seq<char>) -> Seq<char> {
    joined_path(
        folder,
        id + "."@ + match extension_of(filename) {
            Some(e) => e,
            None => "bin"@,
        },
    )
}

pub fn local_file(folder: &str, id: &str, filename: &str) -> (r: String)
    ensures
        r@ == file_for(folder@, id@, filename@),
{
    let ending: String = match extension(filename) {
        Some(e) => e,
        None => "bin".to_owned(),
    };
    join_path(folder, cat3(id, ".", ending.as_str()).as_str())
}

fn choose_team_file(
    page: &TeamPage,
    local: &TextMap<String>,
    present: &TextSet,
    folder: &str,
    id: &str,
) -> (r: Result<PickerSelection, String>)
    ensures
        choice_view(r) == team_choice(page@, local@, present@, folder@, id@),
{
    let i: usize = match find_text(&page.assets, "id", id) {
        Some(i) => i,
        None => return Err("所选团队素材已刷新，请重新选择".to_owned()),
    };
    let asset: &Json = &page.assets[i];
    let kind: String = medium(asset.text("content_type").as_str());
    let filename: String = asset.text("filename");
    if !same(kind.as_str(), "image") && !same(kind.as_str(), "video") && !same(
        kind.as_str(),
        "audio",
    ) {
        return Err(cat3("素材“", filename.as_str(), "”格式不受支持"));
    }
    let team: String = team_id(page);
    if team.as_str().is_empty() {
        return Err("请选择素材所属团队".to_owned());
    }
    let local_path: String = match here(local, present, id) {
        Some(path) => path,
        None => "".to_owned(),
    };
    let head: String = cat3("/api/teams/", team.as_str(), "/assets/");
    Ok(
        PickerSelection {
            id: id.to_owned(),
            name: filename.clone(),
            kind,
            local_path,
            download_endpoint: cat3(head.as_str(), id, "/download"),
            download_path: local_file(folder, id, filename.as_str()),
        },
    )
}

/// The choice of one file.
pub open spec fn choice_of(
    picker: PickerView,
    personal: Seq<JsonModel>,
    page: TeamView,
    local: Map<Seq<char>, Seq<char>>,
    present: Set<Seq<char>>,
    folder: Seq<char>,
    id: Seq<char>,
) -> Result<SelectionView, Seq<char>> {
    if picker.source == 0 {
        personal_choice(personal, present, picker.purpose, id)
    } else {
        team_choice(page, local, present, folder, id)
    }
}

/// The choices of the first `n` chosen files, or what is wrong with the first
/// of them that cannot be used.
pub open spec fn choices(
    picker: PickerView,
    personal: Seq<JsonModel>,
    page: TeamView,
    local: Map<Seq<char>, Seq<char>>,
    present: Set<Seq<char>>,
    folder: Seq<char>,
    n: nat,
) -> Result<Seq<SelectionView>, Seq<char>>
    decreases n,
{
    if n == 0 {
        Ok(Seq::empty())
    } else {
        match choices(picker, personal, page, local, present, folder, (n - 1) as nat) {
            Err(e) => Err(e),
            Ok(before) => match choice_of(
                picker,
                personal,
                page,
                local,
                present,
                folder,
                picker.selected[n - 1],
            ) {
                Err(e) => Err(e),
                Ok(s) => Ok(before.push(s)),
            },
        }
    }
}

/// The view of the outcome of all choices.
pub open spec fn choices_view(r: Result<Vec<PickerSelection>, String>) -> Result<
    Seq<SelectionView>,
    Seq<char>,
> {
    match r {
        Ok(v) => Ok(selection_views(v@)),
        Err(e) => Err(e@),
    }
}

proof fn choices_fail(
    picker: PickerView,
    personal: Seq<JsonModel>,
    page: TeamView,
    local: Map<Seq<char>, Seq<char>>,
    present: Set<Seq<char>>,
    folder: Seq<char>,
    m: nat,
    n: nat,
)
    requires
        m <= n,
        choices(picker, personal, page, local, present, folder, m) is Err,
    ensures
        choices(picker, personal, page, local, present, folder, n) == choices(
            picker,
            personal,
            page,
            local,
            present,
            folder,
            m,
        ),
    decreases n,
{
    if m < n {
        choices_fail(picker, personal, page, local, present, folder, m, (n - 1) as nat);
    }
}

/// The chosen files, or why they cannot be used: one that cannot be refuses
/// them all.
pub fn picker_selection_items(
    picker: &Picker,
    personal: &Vec<Json>,
    page: &TeamPage,
    local: &TextMap<String>,
    present: &TextSet,
    folder: &str,
) -> (r: Result<Vec<PickerSelection>, String>)
    ensures
        choices_view(r) == choices(
            picker@,
            models(personal@),
            page@,
            local@,
            present@,
            folder@,
            picker@.selected.len(),
        ),
{
    let mut out: Vec<PickerSelection> = Vec::new();
    let mut i: usize = 0;
    proof {
        assert(selection_views(out@) =~= Seq::empty());
    }
    while i < picker.selected.len()
        invariant
            i <= picker.selected.len(),
            choices(
                picker@,
                models(personal@),
                page@,
                local@,
                present@,
                folder@,
                i as nat,
            ) == Ok::<Seq<SelectionView>, Seq<char>>(selection_views(out@)),
        decreases picker.selected.len() - i,
    {
        let id: &str = picker.selected[i].as_str();
        proof {
            assert(picker@.selected[i as int] == id@);
        }
        let one_choice: Result<PickerSelection, String> = if picker.source == 0 {
            choose_personal(personal, present, picker.purpose.as_str(), id)
        } else {
            choose_team_file(page, local, present, folder, id)
        };
        match one_choice {
            Err(e) => {
                proof {
                    choices_fail(
                        picker@,
                        models(personal@),
                        page@,
                        local@,
                        present@,
                        folder@,
                        (i + 1) as nat,
                        picker@.selected.len(),
                    );
                }
                return Err(e);
            },
            Ok(s) => {
                let ghost before = out@;
                let ghost view = s@;
                out.push(s);
                proof {
                    assert(selection_views(out@) =~= selection_views(before).push(view));
                }
            },
        }
        i = i + 1;
    }
    Ok(out)
}

/// What a chosen file is known by among the references.
pub open spec fn key_of(item: SelectionView) -> Seq<char> {
    if item.local_path.len() == 0 {
        item.id
    } else {
        item.local_path
    }
}

/// A reference that is the file `key`.
pub open spec fn names_file(key: Seq<char>) -> spec_fn(JsonModel) -> bool {
    |r: JsonModel|
        r.text("local_path"@) == key || r.text("source_id"@) == key || r.text("id"@) == key
}

/// Whether the file `i` of a choice is among the references, or among the
/// files before it.
pub open spec fn seen_before(
    references: Seq<JsonModel>,
    selected: Seq<SelectionView>,
    i: int,
) -> bool {
    let key = key_of(selected[i]);
    ||| key.len() > 0 && any(references, names_file(key))
    ||| exists|j: int| 0 <= j < i && key_of(#[trigger] selected[j]) == key
}

/// A chosen file of a medium.
pub open spec fn of_medium(kind: Seq<char>) -> spec_fn(SelectionView) -> bool {
    |s: SelectionView| s.kind == kind
}

/// What is wrong with the file `i` of a choice.
pub open spec fn selection_fault(
    model: JsonModel,
    references: Seq<JsonModel>,
    selected: Seq<SelectionView>,
    i: int,
) -> Option<Seq<char>> {
    let item = selected[i];
    let most = most_of_kind(model, item.kind, most_items(model) as u64);
    if item.local_path.len() > 0 && kind_of_path(item.local_path) != item.kind {
        Some("素材“"@ + item.name + "”格式不受支持"@)
    } else if !accepts(model, item.kind) {
        Some("当前模型不支持"@ + label_of_kind(item.kind) + "参考素材"@)
    } else if seen_before(references, selected, i) {
        Some("参考素材“"@ + item.name + "”已在列表中"@)
    } else if item.kind != "image"@ && item.kind != "video"@ && item.kind != "audio"@ {
        Some("参考素材类型不受支持"@)
    } else if count(references, text_is("kind"@, item.kind)) + count(
        selected.take(i + 1),
        of_medium(item.kind),
    ) > most {
        Some(label_of_kind(item.kind) + "参考最多 "@ + decimal(most as nat) + " 项，请减少选择"@)
    } else {
        None
    }
}

/// What is wrong with the first bad file of a choice at or after `i`.
pub open spec fn first_selection_fault(
    model: JsonModel,
    references: Seq<JsonModel>,
    selected: Seq<SelectionView>,
    i: int,
) -> Option<Seq<char>>
    decreases selected.len() - i,
{
    if i < 0 || i >= selected.len() {
        None
    } else {
        match selection_fault(model, references, selected, i) {
            Some(e) => Some(e),
            None => first_selection_fault(model, references, selected, i + 1),
        }
    }
}

/// Why a choice cannot be added to the references of the form. The checks are
/// made in this order.
pub open spec fn picker_fault(
    mode: i32,
    model_index: i32,
    catalog: CatalogView,
    references: Seq<JsonModel>,
    selected: Seq<SelectionView>,
) -> Option<Seq<char>> {
    match model_named(catalog.models, kind_of(mode), selected_id(mode, model_index, catalog)) {
        None => Some("请选择可用的生成模型后再添加参考"@),
        Some(model) => {
            let most = most_items(model);
            if references.len() + selected.len() > most {
                Some(
                    "当前模型最多支持 "@ + decimal(most as nat) + " 项参考素材，请减少选择"@,
                )
            } else if first_selection_fault(model, references, selected, 0) is Some {
                first_selection_fault(model, references, selected, 0)
            } else if references.len() + selected.len() > 0 && all(
                references,
                text_is("kind"@, "audio"@),
            ) && all(selected, of_medium("audio"@)) {
                Some("参考音频需要搭配至少一张图片或一段视频"@)
            } else {
                None
            }
        },
    }
}

fn is_seen(references: &Vec<Json>, selected: &Vec<PickerSelection>, i: usize) -> (r: bool)
    requires
        i < selected.len(),
    ensures
        r == seen_before(models(references@), selection_views(selected@), i as int),
{
    let ghost views_of = selection_views(selected@);
    let item: &PickerSelection = &selected[i];
    let key: &str = if item.local_path.as_str().is_empty() {
        item.id.as_str()
    } else {
        item.local_path.as_str()
    };
    let ghost p = names_file(key@);
    proof {
        assert(views_of[i as int] == item@);
        assert(key@ == key_of(views_of[i as int]));
    }
    if !key.is_empty() {
        let mut k: usize = 0;
        while k < references.len()
            invariant
                k <= references.len(),
                i < selected.len(),
                key@.len() > 0,
                views_of == selection_views(selected@),
                key@ == key_of(views_of[i as int]),
                p == names_file(key@),
                forall|j: int| 0 <= j < k ==> !p(#[trigger] models(references@)[j]),
            decreases references.len() - k,
        {
            if references[k].text_is("local_path", key) || references[k].text_is("source_id", key)
                || references[k].text_is("id", key) {
                proof {
                    assert(p(models(references@)[k as int]));
                    assert(key@.len() > 0 && any(models(references@), p));
                }
                return true;
            }
            k = k + 1;
        }
    }
    let mut j: usize = 0;
    while j < i
        invariant
            j <= i < selected.len(),
            views_of == selection_views(selected@),
            key@ == key_of(views_of[i as int]),
            forall|n: int| 0 <= n < j ==> key_of(#[trigger] views_of[n]) != key@,
        decreases i - j,
    {
        let other: &PickerSelection = &selected[j];
        let other_key: &str = if other.local_path.as_str().is_empty() {
            other.id.as_str()
        } else {
            other.local_path.as_str()
        };
        proof {
            assert(views_of[j as int] == other@);
        }
        if same(other_key, key) {
            return true;
        }
        j = j + 1;
    }
    false
}

fn count_medium(selected: &Vec<PickerSelection>, to: usize, kind: &str) -> (r: usize)
    requires
        to <= selected.len(),
    ensures
        r == count(selection_views(selected@).take(to as int), of_medium(kind@)),
        r <= to,
{
    let ghost all_views = selection_views(selected@);
    let ghost p = of_medium(kind@);
    let mut n: usize = 0;
    let mut i: usize = 0;
    proof {
        crate::lists::kept_all(all_views, p);
    }
    while i < to
        invariant
            n <= i <= to <= selected.len(),
            all_views == selection_views(selected@),
            p == of_medium(kind@),
            n == crate::lists::kept(all_views.take(i as int), p).len(),
        decreases to - i,
    {
        proof {
            crate::lists::kept_step(all_views, p, i as int);
            assert(all_views[i as int] == selected@[i as int]@);
        }
        if same(selected[i].kind.as_str(), kind) {
            n = n + 1;
        }
        i = i + 1;
    }
    n
}

fn check_selection(
    model: &Json,
    references: &Vec<Json>,
    selected: &Vec<PickerSelection>,
    i: usize,
) -> (r: Option<String>)
    requires
        i < selected.len(),
    ensures
        opt(r) == selection_fault(
            model@,
            models(references@),
            selection_views(selected@),
            i as int,
        ),
{
    let item: &PickerSelection = &selected[i];
    proof {
        assert(selection_views(selected@)[i as int] == item@);
    }
    let kind: &str = item.kind.as_str();
    if !item.local_path.as_str().is_empty() && !same(
        reference_kind(item.local_path.as_str()),
        kind,
    ) {
        return Some(cat3("素材“", item.name.as_str(), "”格式不受支持"));
    }
    if !accepts_reference(model, kind) {
        return Some(cat3("当前模型不支持", reference_label(kind), "参考素材"));
    }
    if is_seen(references, selected, i) {
        return Some(cat3("参考素材“", item.name.as_str(), "”已在列表中"));
    }
    if !same(kind, "image") && !same(kind, "video") && !same(kind, "audio") {
        return Some("参考素材类型不受支持".to_owned());
    }
    let most: usize = max_of_kind(model, kind, max_items(model) as u64);
    let had: usize = count_text(references, "kind", kind);
    let more: usize = count_medium(selected, i + 1, kind);
    if (had as u128) + (more as u128) > most as u128 {
        let head: String = cat(reference_label(kind), "参考最多 ");
        return Some(cat3(head.as_str(), to_decimal(most as u64).as_str(), " 项，请减少选择"));
    }
    None
}

fn all_audio(references: &Vec<Json>, selected: &Vec<PickerSelection>) -> (r: bool)
    ensures
        r == (all(models(references@), text_is("kind"@, "audio"@)) && all(
            selection_views(selected@),
            of_medium("audio"@),
        )),
{
    let ghost p = text_is("kind"@, "audio"@);
    let ghost q = of_medium("audio"@);
    let mut i: usize = 0;
    while i < references.len()
        invariant
            i <= references.len(),
            p == text_is("kind"@, "audio"@),
            forall|j: int| 0 <= j < i ==> p(#[trigger] models(references@)[j]),
        decreases references.len() - i,
    {
        if !references[i].text_is("kind", "audio") {
            proof {
                assert(!p(models(references@)[i as int]));
            }
            return false;
        }
        i = i + 1;
    }
    let mut k: usize = 0;
    while k < selected.len()
        invariant
            k <= selected.len(),
            q == of_medium("audio"@),
            forall|j: int| 0 <= j < k ==> q(#[trigger] selection_views(selected@)[j]),
        decreases selected.len() - k,
    {
        proof {
            assert(selection_views(selected@)[k as int] == selected@[k as int]@);
        }
        if !same(selected[k].kind.as_str(), "audio") {
            proof {
                assert(!q(selection_views(selected@)[k as int]));
            }
            return false;
        }
        k = k + 1;
    }
    true
}

/// Checks whether a choice can be added to the references of the form.
pub fn validate_picker_reference_selection(
    mode: i32,
    model_index: i32,
    catalog: &Catalog,
    references: &Vec<Json>,
    selected: &Vec<PickerSelection>,
) -> (r: Result<(), String>)
    ensures
        verdict(r) == match picker_fault(
            mode,
            model_index,
            catalog@,
            models(references@),
            selection_views(selected@),
        ) {
            Some(message) => Err(message),
            None => Ok(()),
        },
{
    let id: String = selected_model(mode, model_index, catalog);
    let model: &Json = match model_by_id(&catalog.models, model_kind(mode), id.as_str()) {
        Some(model) => model,
        None => return Err("请选择可用的生成模型后再添加参考".to_owned()),
    };
    let most: usize = max_items(model);
    if (references.len() as u128) + (selected.len() as u128) > most as u128 {
        return Err(
            cat3(
                "当前模型最多支持 ",
                to_decimal(most as u64).as_str(),
                " 项参考素材，请减少选择",
            ),
        );
    }
    let ghost refs = models(references@);
    let ghost chosen = selection_views(selected@);
    let mut i: usize = 0;
    while i < selected.len()
        invariant
            i <= selected.len(),
            refs == models(references@),
            chosen == selection_views(selected@),
            model_named(
                catalog@.models,
                kind_of(mode),
                selected_id(mode, model_index, catalog@),
            ) == Some(model@),
            references.len() + selected.len() <= most_items(model@),
            first_selection_fault(model@, refs, chosen, 0) == first_selection_fault(
                model@,
                refs,
                chosen,
                i as int,
            ),
        decreases selected.len() - i,
    {
        if let Some(message) = check_selection(model, references, selected, i) {
            return Err(message);
        }
        i = i + 1;
    }
    if (references.len() > 0 || selected.len() > 0) && all_audio(references, selected) {
        return Err("参考音频需要搭配至少一张图片或一段视频".to_owned());
    }
    Ok(())
}

/// Whether a file can be put into or out of the choice.
pub open spec fn can_toggle(
    picker: PickerView,
    personal: Seq<JsonModel>,
    page: TeamView,
    id: Seq<char>,
) -> bool {
    ||| picker.selected.contains(id)
    ||| if picker.source == 0 {
        any(personal, available_is(id))
    } else {
        any(page.assets, text_is("id"@, id))
    }
}

/// An available file of an identity.
pub open spec fn available_is(id: Seq<char>) -> spec_fn(JsonModel) -> bool {
    |v: JsonModel| v.text("id"@) == id && flag(v, "available"@)
}

fn has_available(personal: &Vec<Json>, id: &str) -> (r: bool)
    ensures
        r == any(models(personal@), available_is(id@)),
{
    let ghost p = available_is(id@);
    let mut i: usize = 0;
    while i < personal.len()
        invariant
            i <= personal.len(),
            p == available_is(id@),
            forall|j: int| 0 <= j < i ==> !p(#[trigger] models(personal@)[j]),
        decreases personal.len() - i,
    {
        if personal[i].text_is("id", id) && has_flag(&personal[i], "available") {
            proof {
                assert(p(models(personal@)[i as int]));
            }
            return true;
        }
        i = i + 1;
    }
    false
}

/// The place of a text in a list.
pub open spec fn place_of(v: Seq<Seq<char>>, s: Seq<char>) -> int {
    choose|i: int| 0 <= i < v.len() && v[i] == s && forall|j: int| 0 <= j < i ==> v[j] != s
}

/// The choice with a file put in at the end, or taken out where it is in.
pub open spec fn toggled(selected: Seq<Seq<char>>, id: Seq<char>) -> Seq<Seq<char>> {
    if selected.contains(id) {
        selected.remove(place_of(selected, id))
    } else {
        selected.push(id)
    }
}

/// The picker and the steps when a file is clicked.
pub open spec fn picker_toggled(
    picker: PickerView,
    personal: Seq<JsonModel>,
    page: TeamView,
    id: Seq<char>,
) -> (PickerView, Seq<StepView>) {
    if !picker.open || picker.purpose == "canvas"@ {
        (picker, Seq::empty())
    } else {
        let synced = picker_synced(picker, page);
        if !can_toggle(synced, personal, page, id) {
            (synced, seq![StepView::Error("所选素材已不可用，请重新选择"@)])
        } else {
            (
                PickerView { selected: toggled(synced.selected, id), ..synced },
                redraw(),
            )
        }
    }
}

fn toggle(selected: &mut Vec<String>, id: &str)
    ensures
        views(final(selected)@) == toggled(views(old(selected)@), id@),
{
    let ghost before = views(selected@);
    let mut i: usize = 0;
    while i < selected.len()
        invariant
            i <= selected.len(),
            *selected == *old(selected),
            before == views(selected@),
            forall|j: int| 0 <= j < i ==> before[j] != id@,
        decreases selected.len() - i,
    {
        if same(selected[i].as_str(), id) {
            proof {
                assert(before[i as int] == id@);
                assert(before.contains(id@));
                let k = place_of(before, id@);
                assert(0 <= i < before.len() && before[i as int] == id@ && forall|j: int|
                    0 <= j < i ==> before[j] != id@);
                assert(k == i) by {
                    if k < i {
                        assert(before[k] != id@);
                    } else if k > i {
                        assert(before[i as int] != id@);
                    }
                }
            }
            selected.remove(i);
            proof {
                assert(views(selected@) =~= before.remove(i as int));
            }
            return ;
        }
        i = i + 1;
    }
    proof {
        assert(!before.contains(id@));
    }
    selected.push(id.to_owned());
    proof {
        assert(views(selected@) =~= before.push(id@));
    }
}

fn is_toggled(picker: &Picker, personal: &Vec<Json>, page: &TeamPage, id: &str) -> (r: bool)
    ensures
        r == can_toggle(picker@, models(personal@), page@, id@),
{
    if crate::text::has_text(&picker.selected, id) {
        return true;
    }
    if picker.source == 0 {
        has_available(personal, id)
    } else {
        any_text(&page.assets, "id", id)
    }
}

/// A file is clicked in the picker.
pub fn picker_toggle(picker: &mut Picker, personal: &Vec<Json>, page: &TeamPage, id: &str) -> (r:
    Vec<Step>)
    ensures
        (final(picker)@, step_views(r@)) == picker_toggled(
            old(picker)@,
            models(personal@),
            page@,
            id@,
        ),
{
    if !picker.open || same(picker.purpose.as_str(), "canvas") {
        return none();
    }
    sync_picker_selection(picker, page);
    if !is_toggled(picker, personal, page, id) {
        return fail("所选素材已不可用，请重新选择");
    }
    toggle(&mut picker.selected, id);
    redrawing()
}

/// What the picker knows of the form and the machine when a choice is used.
pub struct PickerFacts<'a> {
    pub mode: i32,
    pub model_index: i32,
    pub catalog: &'a Catalog,
    pub references: &'a Vec<Json>,
    pub personal: &'a Vec<Json>,
    pub page: &'a TeamPage,
    pub local: &'a TextMap<String>,
    /// The files that are there.
    pub present: &'a TextSet,
    pub folder: &'a str,
    pub signed_in: bool,
}

pub struct FactsView {
    pub mode: i32,
    pub model_index: i32,
    pub catalog: CatalogView,
    pub references: Seq<JsonModel>,
    pub personal: Seq<JsonModel>,
    pub page: TeamView,
    pub local: Map<Seq<char>, Seq<char>>,
    pub present: Set<Seq<char>>,
    pub folder: Seq<char>,
    pub signed_in: bool,
}

impl<'a> View for PickerFacts<'a> {
    type V = FactsView;

    open spec fn view(&self) -> FactsView {
        FactsView {
            mode: self.mode,
            model_index: self.model_index,
            catalog: self.catalog@,
            references: models(self.references@),
            personal: models(self.personal@),
            page: self.page@,
            local: self.local@,
            present: self.present@,
            folder: self.folder@,
            signed_in: self.signed_in,
        }
    }
}

/// Why a choice cannot be added to the references, in terms of the facts.
pub open spec fn fault_in(facts: FactsView, selected: Seq<SelectionView>) -> Option<Seq<char>> {
    picker_fault(facts.mode, facts.model_index, facts.catalog, facts.references, selected)
}

/// The picker and the steps when the choice is confirmed. What the choice is
/// checked against may still have to be fetched; the batch then waits.
pub open spec fn picker_confirmed(picker: PickerView, facts: FactsView) -> (
    PickerView,
    Seq<StepView>,
) {
    if picker.purpose == "canvas"@ {
        (picker, Seq::empty())
    } else {
        let synced = picker_synced(picker, facts.page);
        match choices(
            synced,
            facts.personal,
            facts.page,
            facts.local,
            facts.present,
            facts.folder,
            synced.selected.len(),
        ) {
            Err(e) => (synced, seq![StepView::Error(e)]),
            Ok(selected) => {
                let needs_catalog = synced.purpose == "reference"@ && (!facts.signed_in
                    || facts.catalog.models.len() == 0);
                if selected.len() == 0 {
                    (synced, seq![StepView::Error("请先选择素材"@)])
                } else if synced.batch is Some {
                    (synced, seq![StepView::Error("上一批素材仍在准备，请稍候"@)])
                } else if synced.purpose == "reference"@ && !needs_catalog && fault_in(
                    facts,
                    selected,
                ) is Some {
                    (synced, seq![StepView::Error(fault_in(facts, selected)->0)])
                } else {
                    (
                        PickerView {
                            batch: Some(BatchView { purpose: synced.purpose, items: selected }),
                            ..synced
                        },
                        seq![
                            StepView::Error(""@),
                            if !needs_catalog {
                                StepView::ContinuePicker
                            } else if !facts.signed_in {
                                StepView::ShowAuth(Some(1))
                            } else {
                                StepView::RefreshModels
                            },
                        ],
                    )
                }
            },
        }
    }
}

/// The choice is confirmed.
pub fn picker_confirm(picker: &mut Picker, facts: &PickerFacts) -> (r: Vec<Step>)
    ensures
        (final(picker)@, step_views(r@)) == picker_confirmed(old(picker)@, facts@),
{
    if same(picker.purpose.as_str(), "canvas") {
        return none();
    }
    sync_picker_selection(picker, facts.page);
    let selected: Vec<PickerSelection> = match picker_selection_items(
        picker,
        facts.personal,
        facts.page,
        facts.local,
        facts.present,
        facts.folder,
    ) {
        Ok(selected) => selected,
        Err(e) => return one(Step::Error(e)),
    };
    if selected.len() == 0 {
        return fail("请先选择素材");
    }
    if picker.batch.is_some() {
        return fail("上一批素材仍在准备，请稍候");
    }
    let reference: bool = same(picker.purpose.as_str(), "reference");
    let needs_catalog: bool = reference && (!facts.signed_in || facts.catalog.models.len() == 0);
    if reference && !needs_catalog {
        if let Err(e) = validate_picker_reference_selection(
            facts.mode,
            facts.model_index,
            facts.catalog,
            facts.references,
            &selected,
        ) {
            return one(Step::Error(e));
        }
    }
    picker.batch = Some(PickerBatch { purpose: picker.purpose.clone(), items: selected });
    let mut steps: Vec<Step> = one(Step::Error("".to_owned()));
    if !needs_catalog {
        then_do(&mut steps, Step::ContinuePicker);
    } else if !facts.signed_in {
        then_do(&mut steps, Step::ShowAuth(Some(1)));
    } else {
        then_do(&mut steps, Step::RefreshModels);
    }
    steps
}

/// A chosen file that is not on this machine.
pub open spec fn not_local() -> spec_fn(SelectionView) -> bool {
    |s: SelectionView| s.local_path.len() == 0
}

/// A chosen file whose copy on this machine is gone.
pub open spec fn lost(present: Set<Seq<char>>) -> spec_fn(SelectionView) -> bool {
    |s: SelectionView| !present.contains(s.local_path)
}

/// Whether a job of the batch runs or waits.
pub open spec fn batch_on_the_way(queue: QueueView) -> bool {
    ||| queue.active_name == "picker-batch"@
    ||| exists|i: int|
        0 <= i < queue.pending.len() && (#[trigger] queue.pending[i]).0 == "picker-batch"@
}

fn is_on_the_way(queue: &JobQueue) -> (r: bool)
    ensures
        r == batch_on_the_way(queue@),
{
    if same(queue.active_name.as_str(), "picker-batch") {
        return true;
    }
    let mut i: usize = 0;
    while i < queue.pending.len()
        invariant
            i <= queue.pending.len(),
            forall|j: int|
                0 <= j < i ==> (#[trigger] queue@.pending[j]).0 != "picker-batch"@,
        decreases queue.pending.len() - i,
    {
        proof {
            assert(queue@.pending[i as int].0 == queue.pending@[i as int].0@);
        }
        if same(queue.pending[i].0.as_str(), "picker-batch") {
            return true;
        }
        i = i + 1;
    }
    false
}

/// The steps that use the files of a batch, in the order of the choice.
pub open spec fn use_steps(
    first: Seq<StepView>,
    purpose: Seq<char>,
    items: Seq<SelectionView>,
) -> Seq<StepView>
    decreases items.len(),
{
    if items.len() == 0 {
        first
    } else {
        let s = items.last();
        use_steps(first, purpose, items.drop_last()).push(
            if purpose == "import"@ {
                StepView::ImportNamed(s.local_path, s.name)
            } else {
                StepView::Upload(s.local_path, "generation_input"@)
            },
        )
    }
}

/// The picker and the steps when a batch goes on: the files that are not on
/// this machine are fetched one after the other; only when all are there and
/// can be used, they are used together in the order of the choice.
pub open spec fn batch_continued(picker: PickerView, facts: FactsView, queue: QueueView) -> (
    PickerView,
    Seq<StepView>,
) {
    match picker.batch {
        None => (picker, Seq::empty()),
        Some(batch) => {
            let dropped = PickerView { batch: None, ..picker };
            let fault = fault_in(facts, batch.items);
            if batch_on_the_way(queue) {
                (picker, Seq::empty())
            } else if any(batch.items, not_local()) {
                (
                    picker,
                    seq![
                        StepView::DownloadAsset(
                            batch.items[first_where(batch.items, not_local())->0].id,
                            "picker-batch"@,
                        ),
                    ],
                )
            } else if any(batch.items, lost(facts.present)) {
                (dropped, seq![StepView::Error("所选素材文件已不可用，请重新选择"@)])
            } else if batch.purpose == "reference"@ && fault is Some {
                (dropped, seq![StepView::Error(fault->0)])
            } else {
                (
                    PickerView {
                        selected: Seq::empty(),
                        count: 0,
                        context: ""@,
                        open: false,
                        ..dropped
                    },
                    use_steps(
                        if batch.purpose == "import"@ {
                            seq![StepView::Draw(Panel::Assets)]
                        } else {
                            seq![
                                StepView::Draw(Panel::Assets),
                                StepView::Page(1),
                                StepView::GenerationStep(0),
                            ]
                        },
                        batch.purpose,
                        batch.items,
                    ),
                )
            }
        },
    }
}

fn find_not_local(items: &Vec<PickerSelection>) -> (r: Option<usize>)
    ensures
        match r {
            Some(i) => first_where(selection_views(items@), not_local()) == Some(i as int) && i
                < items.len(),
            None => first_where(selection_views(items@), not_local()) is None,
        },
        r is Some <==> any(selection_views(items@), not_local()),
{
    let ghost p = not_local();
    proof {
        crate::lists::first_where_any(selection_views(items@), p);
    }
    let mut i: usize = 0;
    while i < items.len()
        invariant
            i <= items.len(),
            p == not_local(),
            first_where(selection_views(items@), p) is Some <==> any(selection_views(items@), p),
            first_where(selection_views(items@), p) == crate::lists::first_from(
                selection_views(items@),
                p,
                i as int,
            ),
        decreases items.len() - i,
    {
        proof {
            assert(selection_views(items@)[i as int] == items@[i as int]@);
        }
        if items[i].local_path.as_str().is_empty() {
            return Some(i);
        }
        i = i + 1;
    }
    None
}

fn any_lost(items: &Vec<PickerSelection>, present: &TextSet) -> (r: bool)
    ensures
        r == any(selection_views(items@), lost(present@)),
{
    let ghost p = lost(present@);
    let mut i: usize = 0;
    while i < items.len()
        invariant
            i <= items.len(),
            p == lost(present@),
            forall|j: int| 0 <= j < i ==> !p(#[trigger] selection_views(items@)[j]),
        decreases items.len() - i,
    {
        proof {
            assert(selection_views(items@)[i as int] == items@[i as int]@);
        }
        if !present.has(items[i].local_path.as_str()) {
            proof {
                assert(p(selection_views(items@)[i as int]));
            }
            return true;
        }
        i = i + 1;
    }
    false
}

fn add_uses(steps: &mut Vec<Step>, purpose: &str, items: &Vec<PickerSelection>)
    ensures
        step_views(final(steps)@) == use_steps(
            step_views(old(steps)@),
            purpose@,
            selection_views(items@),
        ),
{
    let ghost first = step_views(steps@);
    let ghost all_views = selection_views(items@);
    let mut i: usize = 0;
    proof {
        assert(all_views.take(0) =~= Seq::empty());
    }
    while i < items.len()
        invariant
            i <= items.len(),
            all_views == selection_views(items@),
            step_views(steps@) == use_steps(first, purpose@, all_views.take(i as int)),
        decreases items.len() - i,
    {
        proof {
            assert(all_views.take(i + 1).drop_last() =~= all_views.take(i as int));
            assert(all_views.take(i + 1).last() == items@[i as int]@);
        }
        if same(purpose, "import") {
            then_do(steps, Step::ImportNamed(items[i].local_path.clone(), items[i].name.clone()));
        } else {
            then_do(
                steps,
                Step::Upload(items[i].local_path.clone(), "generation_input".to_owned()),
            );
        }
        i = i + 1;
    }
    proof {
        assert(all_views.take(all_views.len() as int) =~= all_views);
    }
}

/// The batch goes on.
pub fn continue_picker_batch(picker: &mut Picker, facts: &PickerFacts, queue: &JobQueue) -> (r: Vec<
    Step,
>)
    ensures
        (final(picker)@, step_views(r@)) == batch_continued(old(picker)@, facts@, queue@),
{
    let ghost before = picker@;
    if picker.batch.is_none() || is_on_the_way(queue) {
        return none();
    }
    let mut found: Option<PickerBatch> = None;
    std::mem::swap(&mut found, &mut picker.batch);
    let batch: PickerBatch = match found {
        Some(batch) => batch,
        None => return none(),
    };
    if let Some(i) = find_not_local(&batch.items) {
        let id: String = batch.items[i].id.clone();
        proof {
            assert(selection_views(batch.items@)[i as int] == batch.items@[i as int]@);
        }
        picker.batch = Some(batch);
        return one(Step::DownloadAsset(id, "picker-batch".to_owned()));
    }
    if any_lost(&batch.items, facts.present) {
        return fail("所选素材文件已不可用，请重新选择");
    }
    if same(batch.purpose.as_str(), "reference") {
        if let Err(e) = validate_picker_reference_selection(
            facts.mode,
            facts.model_index,
            facts.catalog,
            facts.references,
            &batch.items,
        ) {
            return one(Step::Error(e));
        }
    }
    clear_picker_selection(picker);
    picker.context = "".to_owned();
    picker.open = false;
    let mut steps: Vec<Step> = one(Step::Draw(Panel::Assets));
    if !same(batch.purpose.as_str(), "import") {
        then_do(&mut steps, Step::Page(1));
        then_do(&mut steps, Step::GenerationStep(0));
        proof {
            assert(step_views(steps@) =~= seq![
                StepView::Draw(Panel::Assets),
                StepView::Page(1),
                StepView::GenerationStep(0),
            ]);
        }
    }
    add_uses(&mut steps, batch.purpose.as_str(), &batch.items);
    steps
}

/// A batch of references that is used has passed every check: it fits the
/// model, and no file of it is a reference already or comes twice.
pub proof fn used_batches_fit(picker: PickerView, facts: FactsView, queue: QueueView, i: int)
    requires
        picker.batch matches Some(b) && b.purpose == "reference"@ && 0 <= i < b.items.len(),
        batch_continued(picker, facts, queue).0.batch is None,
        !(batch_continued(picker, facts, queue).1.last() is Error),
    ensures
        fault_in(facts, picker.batch->0.items) is None,
        !seen_before(facts.references, picker.batch->0.items, i),
        facts.present.contains(picker.batch->0.items[i].local_path),
{
    let batch = picker.batch->0;
    let model = model_named(
        facts.catalog.models,
        kind_of(facts.mode),
        selected_id(facts.mode, facts.model_index, facts.catalog),
    );
    if any(batch.items, lost(facts.present)) || fault_in(facts, batch.items) is Some {
        assert(batch_continued(picker, facts, queue).1.last() is Error);
    }
    no_fault_before(model->0, facts.references, batch.items, 0, i);
    assert(!lost(facts.present)(batch.items[i]));
}

proof fn no_fault_before(
    model: JsonModel,
    references: Seq<JsonModel>,
    selected: Seq<SelectionView>,
    from: int,
    i: int,
)
    requires
        0 <= from <= i < selected.len(),
        first_selection_fault(model, references, selected, from) is None,
    ensures
        selection_fault(model, references, selected, i) is None,
    decreases i - from,
{
    if from < i {
        no_fault_before(model, references, selected, from + 1, i);
    }
}

/// Clicking a file twice leaves the choice as it was.
pub proof fn clicking_twice_changes_nothing(selected: Seq<Seq<char>>, id: Seq<char>)
    requires
        !selected.contains(id),
    ensures
        toggled(toggled(selected, id), id) == selected,
{
    let once = selected.push(id);
    assert(once[selected.len() as int] == id);
    assert(once.contains(id));
    assert forall|j: int| 0 <= j < selected.len() implies once[j] != id by {
        assert(selected.contains(selected[j]));
    }
    let k = place_of(once, id);
    assert(0 <= selected.len() < once.len() && once[selected.len() as int] == id && forall|j: int|
        0 <= j < selected.len() ==> once[j] != id);
    assert(k == selected.len()) by {
        if k < selected.len() {
            assert(once[k] != id);
        } else if k > selected.len() {
            assert(once[selected.len() as int] != id);
        }
    }
    assert(once.remove(k) =~= selected);
}

/// A refresh of the lists never makes a choice smaller: while the source, the
/// purpose and the team stay, the chosen files stay.
pub proof fn refreshes_keep_the_choice(picker: PickerView, page: TeamView)
    requires
        picker.context == context_of(picker, page),
    ensures
        picker_synced(picker, page).selected == picker.selected,
{
}

} // verus!
