//! The personal library: its files, its folders and what is shown of them.

use crate::cloud::picker::{flag, has_flag, Picker, PickerView};
use crate::cloud::references::{kind_of_path, reference_kind};
use crate::cloud::requests::{items, items_of};
use crate::cloud::rows::{blank, blank_item, row_views, CloudItem, ItemRow};
use crate::cloud::steps::{one, step_if, step_views, then_do, Panel, Step, StepView};
use crate::cloud::teams::{list_names, names_in};
use crate::collections::TextSet;
use crate::json::{models, Json, JsonModel};
use crate::lists::{find_text, first_where, text_is};
use crate::sort::{
    arrange, ascending, is_order, key_views, order_of, order_onto, orders_exist, row_less,
    sorted_texts, text_less, text_less_total, KeyView, SortKey,
};
use crate::text::{
    cat3, contains, contains_text, decimal, has_prefix, lowercase, opt, same, starts_with,
    to_decimal, to_lowercase, to_minutes_and_seconds, to_two_digits, two_digits, views,
    minutes_and_seconds,
};
use vstd::prelude::*;
use vstd::string::*;

verus! {

/// The page of the personal library.
pub struct PersonalPage {
    pub assets: Vec<Json>,
    pub folders: Vec<Json>,
    pub selected: TextSet,
    /// The files that a dialog asks about before they are removed.
    pub pending_delete: Vec<String>,
    pub search: String,
    /// 0 for all media, 1 for pictures, 2 for videos, 3 for sound.
    pub filter: i32,
    /// 0 for all sources, 1 for imported files, 2 for results.
    pub source: i32,
    /// 0 for all files, 1 for those without a folder, then the folders.
    pub folder_filter: i32,
    pub trash: bool,
    pub favorites: bool,
    /// 0 by time, 1 by name, 2 by medium.
    pub sort: i32,
    /// Where files are moved to: 0 for no folder, then the folders.
    pub folder_target: i32,
    pub new_folder: String,
    pub rename: String,
    /// The dialog that is open, 0 for none.
    pub dialog: i32,
    pub dialog_busy: bool,
    pub dialog_error: String,
    pub delete_count: i32,
}

pub struct PersonalView {
    pub assets: Seq<JsonModel>,
    pub folders: Seq<JsonModel>,
    pub selected: Set<Seq<char>>,
    pub pending_delete: Seq<Seq<char>>,
    pub search: Seq<char>,
    pub filter: i32,
    pub source: i32,
    pub folder_filter: i32,
    pub trash: bool,
    pub favorites: bool,
    pub sort: i32,
    pub folder_target: i32,
    pub new_folder: Seq<char>,
    pub rename: Seq<char>,
    pub dialog: i32,
    pub dialog_busy: bool,
    pub dialog_error: Seq<char>,
    pub delete_count: i32,
}

impl View for PersonalPage {
    type V = PersonalView;

    open spec fn view(&self) -> PersonalView {
        PersonalView {
            assets: models(self.assets@),
            folders: models(self.folders@),
            selected: self.selected@,
            pending_delete: views(self.pending_delete@),
            search: self.search@,
            filter: self.filter,
            source: self.source,
            folder_filter: self.folder_filter,
            trash: self.trash,
            favorites: self.favorites,
            sort: self.sort,
            folder_target: self.folder_target,
            new_folder: self.new_folder@,
            rename: self.rename@,
            dialog: self.dialog,
            dialog_busy: self.dialog_busy,
            dialog_error: self.dialog_error@,
            delete_count: self.delete_count,
        }
    }
}

/// The size or the length of a file, where it is known: for a picture its
/// width and height, for another medium its time, or else its width and
/// height.
pub open spec fn measure(asset: JsonModel) -> Option<Seq<char>> {
    let kind = asset.text("kind"@);
    let width = number_at(asset, "media_width"@);
    let height = number_at(asset, "media_height"@);
    let duration_ms = number_at(asset, "media_duration_ms"@);
    let dimensions = decimal(width as nat) + " × "@ + decimal(height as nat);
    if kind == "image"@ && width > 0 && height > 0 {
        Some(dimensions)
    } else if kind != "image"@ && duration_ms > 0 {
        Some(clock_of(whole_seconds(duration_ms)))
    } else if width > 0 && height > 0 {
        Some(dimensions)
    } else {
        None
    }
}

/// The number under a key, 0 where there is none.
pub open spec fn number_at(v: JsonModel, key: Seq<char>) -> u64 {
    match v.at(key).as_u64() {
        Some(n) => n,
        None => 0,
    }
}

pub fn get_number(v: &Json, key: &str) -> (r: u64)
    ensures
        r == number_at(v@, key@),
{
    match v.at(key).as_u64() {
        Some(n) => n,
        None => 0,
    }
}

/// Thousandths of a second in seconds, rounded up.
pub open spec fn whole_seconds(ms: u64) -> nat {
    (ms as nat + 999) / 1000
}

pub fn seconds_of(ms: u64) -> (r: u64)
    ensures
        r == whole_seconds(ms),
{
    let rest: u64 = ms % 1000;
    if rest == 0 {
        ms / 1000
    } else {
        ms / 1000 + 1
    }
}

/// A time in hours, minutes and seconds, without the hours where there are
/// none.
pub open spec fn clock_of(seconds: nat) -> Seq<char> {
    if seconds >= 3600 {
        two_digits(seconds / 3600) + ":"@ + two_digits((seconds / 60) % 60) + ":"@ + two_digits(
            seconds % 60,
        )
    } else {
        minutes_and_seconds(seconds)
    }
}

fn to_clock(seconds: u64) -> (r: String)
    ensures
        r@ == clock_of(seconds as nat),
{
    if seconds >= 3600 {
        let head: String = cat3(
            to_two_digits(seconds / 3600).as_str(),
            ":",
            to_two_digits((seconds / 60) % 60).as_str(),
        );
        cat3(head.as_str(), ":", to_two_digits(seconds % 60).as_str())
    } else {
        to_minutes_and_seconds(seconds)
    }
}

/// What the row of a file says of its size; `size` is how many megabytes it
/// has, said where nothing better is known.
pub open spec fn detail_of(asset: JsonModel, size: Seq<char>) -> Seq<char> {
    match measure(asset) {
        Some(text) => text,
        None => size,
    }
}

pub fn personal_asset_detail(asset: &Json, size: &str) -> (r: String)
    ensures
        r@ == detail_of(asset@, size@),
{
    let image: bool = asset.text_is("kind", "image");
    let width: u64 = get_number(asset, "media_width");
    let height: u64 = get_number(asset, "media_height");
    let duration_ms: u64 = get_number(asset, "media_duration_ms");
    let dimensions: String = cat3(to_decimal(width).as_str(), " × ", to_decimal(height).as_str());
    if image && width > 0 && height > 0 {
        dimensions
    } else if !image && duration_ms > 0 {
        to_clock(seconds_of(duration_ms))
    } else if width > 0 && height > 0 {
        dimensions
    } else {
        size.to_owned()
    }
}

/// What the row of a file says of it.
pub open spec fn status_of(asset: JsonModel, size: Seq<char>) -> Seq<char> {
    let kind = asset.text("kind"@);
    (if kind == "image"@ {
        "图片"@
    } else if kind == "video"@ {
        "视频"@
    } else {
        "音频"@
    }) + " · "@ + (if asset.text("source"@) == "generated"@ {
        "生成结果"@
    } else {
        "本地导入"@
    }) + " · "@ + detail_of(asset, size)
}

pub fn personal_asset_status(asset: &Json, size: &str) -> (r: String)
    ensures
        r@ == status_of(asset@, size@),
{
    let kind: &'static str = if asset.text_is("kind", "image") {
        "图片"
    } else if asset.text_is("kind", "video") {
        "视频"
    } else {
        "音频"
    };
    let source: &'static str = if asset.text_is("source", "generated") {
        "生成结果"
    } else {
        "本地导入"
    };
    let detail: String = personal_asset_detail(asset, size);
    let head: String = cat3(kind, " · ", source);
    cat3(head.as_str(), " · ", detail.as_str())
}

/// The day of a file in the time of this machine.
pub struct LocalDay {
    pub days_ago: i64,
    /// The day as a date.
    pub date: String,
}

/// How the day of a file is shown.
pub open spec fn day_label(day: Option<LocalDay>) -> Seq<char> {
    match day {
        Some(d) => if d.days_ago == 0 {
            "今天"@
        } else if d.days_ago == 1 {
            "昨天"@
        } else {
            d.date@
        },
        None => "未知日期"@,
    }
}

pub fn local_date_label(day: &Option<LocalDay>) -> (r: String)
    ensures
        r@ == day_label(*day),
{
    match day {
        Some(d) => if d.days_ago == 0 {
            "今天".to_owned()
        } else if d.days_ago == 1 {
            "昨天".to_owned()
        } else {
            d.date.clone()
        },
        None => "未知日期".to_owned(),
    }
}

/// The medium that a filter asks for, empty where it asks for all.
pub open spec fn filter_medium(filter: i32) -> Seq<char> {
    if filter == 1 {
        "image"@
    } else if filter == 2 {
        "video"@
    } else if filter == 3 {
        "audio"@
    } else {
        ""@
    }
}

fn medium_for(filter: i32) -> (r: &'static str)
    ensures
        r@ == filter_medium(filter),
{
    if filter == 1 {
        "image"
    } else if filter == 2 {
        "video"
    } else if filter == 3 {
        "audio"
    } else {
        ""
    }
}

/// The source that a filter asks for, empty where it asks for all.
pub open spec fn filter_source(source: i32) -> Seq<char> {
    if source == 1 {
        "imported"@
    } else if source == 2 {
        "generated"@
    } else {
        ""@
    }
}

/// The folder at a place of a list that starts with two other entries.
pub open spec fn folder_at(folders: Seq<JsonModel>, place: int) -> Option<Seq<char>> {
    if 0 <= place < folders.len() {
        Some(folders[place].text("id"@))
    } else {
        None
    }
}

/// Whether a file is in the folder that is shown.
pub open spec fn in_folder(page: PersonalView, v: JsonModel) -> bool {
    ||| page.folder_filter == 0
    ||| page.folder_filter == 1 && v.at("folder_id"@) is Null
    ||| folder_at(page.folders, page.folder_filter - 2) == Some(v.text("folder_id"@))
}

/// Whether a file is shown.
pub open spec fn is_visible(page: PersonalView, v: JsonModel) -> bool {
    &&& flag(v, "trashed"@) == page.trash
    &&& contains_text(lowercase(v.text("name"@)), lowercase(page.search))
    &&& filter_medium(page.filter) == ""@ || v.text("kind"@) == filter_medium(page.filter)
    &&& filter_source(page.source) == ""@ || v.text("source"@) == filter_source(page.source)
    &&& in_folder(page, v)
    &&& !page.favorites || flag(v, "favorite"@)
}

fn is_in_folder(page: &PersonalPage, v: &Json) -> (r: bool)
    ensures
        r == in_folder(page@, v@),
{
    let filter: i32 = page.folder_filter;
    if filter == 0 || (filter == 1 && v.at("folder_id").is_null()) {
        return true;
    }
    if filter < 2 || (filter - 2) as usize >= page.folders.len() {
        return false;
    }
    let id: String = page.folders[(filter - 2) as usize].text("id");
    v.text_is("folder_id", id.as_str())
}

pub fn shows(page: &PersonalPage, v: &Json) -> (r: bool)
    ensures
        r == is_visible(page@, v@),
{
    if has_flag(v, "trashed") != page.trash {
        return false;
    }
    let name: String = to_lowercase(v.text("name").as_str());
    let search: String = to_lowercase(page.search.as_str());
    if !contains(name.as_str(), search.as_str()) {
        return false;
    }
    let kind: &'static str = medium_for(page.filter);
    if !same(kind, "") && !v.text_is("kind", kind) {
        return false;
    }
    let source: &'static str = if page.source == 1 {
        "imported"
    } else if page.source == 2 {
        "generated"
    } else {
        ""
    };
    if !same(source, "") && !v.text_is("source", source) {
        return false;
    }
    is_in_folder(page, v) && (!page.favorites || has_flag(v, "favorite"))
}

/// What a file is sorted by.
pub open spec fn asset_key(sort: i32, v: JsonModel) -> KeyView {
    let kind = v.text("kind"@);
    KeyView {
        group: if sort != 2 || kind == "image"@ {
            0
        } else if kind == "video"@ {
            1
        } else {
            2
        },
        name: if sort == 1 || sort == 2 {
            lowercase(v.text("name"@))
        } else {
            ""@
        },
        time: number_at(v, "created_at"@),
        id: v.text("id"@),
    }
}

fn make_key(sort: i32, v: &Json) -> (r: SortKey)
    ensures
        r@ == asset_key(sort, v@),
{
    let group: i64 = if sort != 2 || v.text_is("kind", "image") {
        0
    } else if v.text_is("kind", "video") {
        1
    } else {
        2
    };
    let name: String = if sort == 1 || sort == 2 {
        to_lowercase(v.text("name").as_str())
    } else {
        "".to_owned()
    };
    SortKey { group, name, time: get_number(v, "created_at"), id: v.text("id") }
}

/// The places of the first `n` files that are shown.
pub open spec fn visible_places(page: PersonalView, n: nat) -> Seq<usize>
    decreases n,
{
    if n == 0 {
        Seq::empty()
    } else {
        let before = visible_places(page, (n - 1) as nat);
        if is_visible(page, page.assets[n - 1]) {
            before.push((n - 1) as usize)
        } else {
            before
        }
    }
}

/// What the files that are shown are sorted by.
pub open spec fn visible_keys(page: PersonalView) -> Seq<KeyView> {
    let places = visible_places(page, page.assets.len());
    Seq::new(places.len(), |i: int| asset_key(page.sort, page.assets[places[i] as int]))
}

/// The places of the files that are shown, in the order in which they are
/// shown.
pub open spec fn visible_order(page: PersonalView) -> Seq<usize> {
    let places = visible_places(page, page.assets.len());
    let order = order_of(visible_keys(page));
    Seq::new(order.len(), |i: int| places[order[i] as int])
}

fn list_visible(page: &PersonalPage) -> (r: Vec<usize>)
    ensures
        r@ == visible_places(page@, page@.assets.len()),
        forall|i: int| 0 <= i < r@.len() ==> #[trigger] r@[i] < page.assets.len(),
{
    let mut out: Vec<usize> = Vec::new();
    let mut i: usize = 0;
    while i < page.assets.len()
        invariant
            i <= page.assets.len(),
            out@ == visible_places(page@, i as nat),
            forall|j: int| 0 <= j < out@.len() ==> #[trigger] out@[j] < i,
        decreases page.assets.len() - i,
    {
        proof {
            assert(page@.assets[i as int] == page.assets@[i as int]@);
        }
        if shows(page, &page.assets[i]) {
            out.push(i);
        }
        i = i + 1;
    }
    out
}

/// The places of the files that are shown, in the order in which they are
/// shown.
pub fn visible_personal(page: &PersonalPage) -> (r: Vec<usize>)
    ensures
        r@ == visible_order(page@),
        forall|i: int| 0 <= i < r@.len() ==> #[trigger] r@[i] < page.assets.len(),
{
    let places: Vec<usize> = list_visible(page);
    let mut keys: Vec<SortKey> = Vec::new();
    let mut i: usize = 0;
    while i < places.len()
        invariant
            i <= places.len(),
            forall|j: int| 0 <= j < places@.len() ==> #[trigger] places@[j] < page.assets.len(),
            keys@.len() == i,
            forall|j: int|
                0 <= j < i ==> (#[trigger] keys@[j])@ == asset_key(
                    page.sort,
                    page@.assets[places@[j] as int],
                ),
        decreases places.len() - i,
    {
        proof {
            assert(page@.assets[places@[i as int] as int] == page.assets@[places@[i as int] as int]@);
        }
        keys.push(make_key(page.sort, &page.assets[places[i]]));
        i = i + 1;
    }
    proof {
        assert(key_views(keys@) =~= visible_keys(page@));
    }
    let order: Vec<usize> = arrange(&keys);
    let mut out: Vec<usize> = Vec::new();
    let mut k: usize = 0;
    while k < order.len()
        invariant
            k <= order.len(),
            order@.len() == places@.len(),
            forall|j: int| 0 <= j < order@.len() ==> #[trigger] order@[j] < places@.len(),
            forall|j: int| 0 <= j < places@.len() ==> #[trigger] places@[j] < page.assets.len(),
            out@.len() == k,
            forall|j: int| 0 <= j < k ==> #[trigger] out@[j] == places@[order@[j] as int],
            forall|j: int| 0 <= j < k ==> #[trigger] out@[j] < page.assets.len(),
        decreases order.len() - k,
    {
        out.push(places[order[k]]);
        k = k + 1;
    }
    proof {
        assert(out@ =~= visible_order(page@));
    }
    out
}

/// Whether a file of this identity is shown.
pub open spec fn shows_id(page: PersonalView, id: Seq<char>) -> bool {
    exists|i: int|
        0 <= i < page.assets.len() && is_visible(page, #[trigger] page.assets[i])
            && page.assets[i].text("id"@) == id
}

pub fn is_shown(page: &PersonalPage, id: &str) -> (r: bool)
    ensures
        r == shows_id(page@, id@),
{
    let mut i: usize = 0;
    while i < page.assets.len()
        invariant
            i <= page.assets.len(),
            forall|j: int|
                0 <= j < i ==> !(is_visible(page@, #[trigger] page@.assets[j])
                    && page@.assets[j].text("id"@) == id@),
        decreases page.assets.len() - i,
    {
        proof {
            assert(page@.assets[i as int] == page.assets@[i as int]@);
        }
        if page.assets[i].text_is("id", id) && shows(page, &page.assets[i]) {
            return true;
        }
        i = i + 1;
    }
    false
}

/// The chosen files that are still shown.
pub open spec fn shown_choice(page: PersonalView) -> Set<Seq<char>> {
    page.selected.filter(|id: Seq<char>| shows_id(page, id))
}

/// Drops the files from the choice that are no longer shown, so that what is
/// done to the choice is done to what the user sees.
pub fn retain_visible(page: &mut PersonalPage)
    ensures
        final(page)@ == (PersonalView { selected: shown_choice(old(page)@), ..old(page)@ }),
{
    let ghost before = page@;
    let mut out: TextSet = TextSet::new();
    let mut i: usize = 0;
    {
        let texts: &Vec<String> = page.selected.texts();
        while i < texts.len()
            invariant
                i <= texts.len(),
                before == page@,
                views(texts@).to_set() == before.selected,
                forall|s: Seq<char>|
                    #[trigger] out@.contains(s) <==> (views(texts@).take(i as int).contains(s)
                        && shows_id(before, s)),
            decreases texts.len() - i,
        {
            let ghost all_ids = views(texts@);
            let id: &str = texts[i].as_str();
            let ghost prior = out@;
            if is_shown(page, id) {
                out.insert(id);
            }
            proof {
                let head = all_ids.take(i as int);
                let next = all_ids.take(i + 1);
                assert(next =~= head.push(id@));
                assert forall|s: Seq<char>| #[trigger] out@.contains(s) <==> (next.contains(s)
                    && shows_id(before, s)) by {
                    if next.contains(s) {
                        let k = choose|k: int| 0 <= k < next.len() && next[k] == s;
                        if k < i {
                            assert(head[k] == s);
                        }
                    }
                    if head.contains(s) {
                        let k = choose|k: int| 0 <= k < head.len() && head[k] == s;
                        assert(next[k] == s);
                    }
                    assert(next[i as int] == id@);
                    assert(prior.contains(s) || !prior.contains(s));
                }
            }
            i = i + 1;
        }
        proof {
            let all_ids = views(texts@);
            assert(all_ids.take(i as int) =~= all_ids);
            assert forall|s: Seq<char>| out@.contains(s) <==> shown_choice(before).contains(s) by {
                assert(all_ids.contains(s) <==> all_ids.to_set().contains(s));
            }
            assert(out@ =~= shown_choice(before));
        }
    }
    page.selected = out;
}

/// What is said of the size and the day of each file; both depend on the
/// machine.
pub struct AssetLabels {
    pub sizes: Vec<String>,
    pub days: Vec<Option<LocalDay>>,
}

pub open spec fn labels_fit(labels: AssetLabels, n: nat) -> bool {
    labels.sizes@.len() == n && labels.days@.len() == n
}

/// The row of the file at a place.
pub open spec fn asset_row(page: PersonalView, labels: AssetLabels, i: int) -> ItemRow {
    let v = page.assets[i];
    ItemRow {
        id: v.text("id"@),
        name: v.text("name"@),
        detail: detail_of(v, labels.sizes@[i]@),
        status: status_of(v, labels.sizes@[i]@),
        kind: v.text("kind"@),
        ready: flag(v, "available"@),
        local: true,
        date_label: day_label(labels.days@[i]),
        favorite: flag(v, "favorite"@),
        selected: page.selected.contains(v.text("id"@)),
        preview: v.text("thumbnail"@),
        ..blank()
    }
}

fn make_asset_row(page: &PersonalPage, labels: &AssetLabels, i: usize) -> (r: CloudItem)
    requires
        i < page.assets.len(),
        labels_fit(*labels, page@.assets.len()),
    ensures
        r@ == asset_row(page@, *labels, i as int),
{
    let v: &Json = &page.assets[i];
    let size: &str = labels.sizes[i].as_str();
    let id: String = v.text("id");
    let selected: bool = page.selected.has(id.as_str());
    CloudItem {
        id,
        name: v.text("name"),
        detail: personal_asset_detail(v, size),
        status: personal_asset_status(v, size),
        kind: v.text("kind"),
        ready: has_flag(v, "available"),
        local: true,
        date_label: local_date_label(&labels.days[i]),
        favorite: has_flag(v, "favorite"),
        selected,
        preview: v.text("thumbnail"),
        ..blank_item()
    }
}

/// The rows of the files that are shown.
pub open spec fn personal_rows(page: PersonalView, labels: AssetLabels) -> Seq<ItemRow> {
    let order = visible_order(page);
    Seq::new(order.len(), |i: int| asset_row(page, labels, order[i] as int))
}

/// The rows of the files that are shown.
pub fn render_personal(page: &PersonalPage, labels: &AssetLabels) -> (r: Vec<CloudItem>)
    requires
        labels_fit(*labels, page@.assets.len()),
    ensures
        row_views(r@) == personal_rows(page@, *labels),
{
    let order: Vec<usize> = visible_personal(page);
    let mut out: Vec<CloudItem> = Vec::new();
    let mut i: usize = 0;
    while i < order.len()
        invariant
            i <= order.len(),
            labels_fit(*labels, page@.assets.len()),
            forall|j: int| 0 <= j < order@.len() ==> #[trigger] order@[j] < page.assets.len(),
            out@.len() == i,
            forall|j: int|
                0 <= j < i ==> (#[trigger] out@[j])@ == asset_row(
                    page@,
                    *labels,
                    order@[j] as int,
                ),
        decreases order.len() - i,
    {
        out.push(make_asset_row(page, labels, order[i]));
        i = i + 1;
    }
    proof {
        assert(row_views(out@) =~= personal_rows(page@, *labels));
    }
    out
}

/// Rows that are shown under one heading.
pub struct PersonalAssetGroup {
    pub label: String,
    pub items: Vec<CloudItem>,
}

pub struct GroupView {
    pub label: Seq<char>,
    pub items: Seq<ItemRow>,
}

impl View for PersonalAssetGroup {
    type V = GroupView;

    open spec fn view(&self) -> GroupView {
        GroupView {
            label: self.label@,
            items: row_views(self.items@),
        }
    }
}

/// The views of a list of groups.
pub open spec fn group_views(v: Seq<PersonalAssetGroup>) -> Seq<GroupView> {
    Seq::new(v.len(), |i: int| v[i]@)
}

/// The heading of a row: its day where the files are sorted by time.
pub open spec fn heading(sort: i32, row: ItemRow) -> Seq<char> {
    if sort == 0 {
        row.date_label
    } else {
        "全部素材"@
    }
}

/// The rows in groups: neighbours of the same heading stand together.
pub open spec fn grouped(sort: i32, rows: Seq<ItemRow>) -> Seq<GroupView>
    decreases rows.len(),
{
    if rows.len() == 0 {
        Seq::empty()
    } else {
        let before = grouped(sort, rows.drop_last());
        let row = rows.last();
        let label = heading(sort, row);
        if before.len() > 0 && before.last().label == label {
            before.drop_last().push(
                GroupView { label, items: before.last().items.push(row) },
            )
        } else {
            before.push(GroupView { label, items: seq![row] })
        }
    }
}

/// The rows in groups.
pub fn group_rows(sort: i32, rows: &Vec<CloudItem>) -> (r: Vec<PersonalAssetGroup>)
    ensures
        group_views(r@) == grouped(sort, row_views(rows@)),
{
    let ghost all_rows = row_views(rows@);
    let mut out: Vec<PersonalAssetGroup> = Vec::new();
    let mut i: usize = 0;
    proof {
        assert(all_rows.take(0) =~= Seq::empty());
        assert(group_views(out@) =~= Seq::empty());
    }
    while i < rows.len()
        invariant
            i <= rows.len(),
            all_rows == row_views(rows@),
            group_views(out@) == grouped(sort, all_rows.take(i as int)),
        decreases rows.len() - i,
    {
        proof {
            assert(all_rows.take(i + 1).drop_last() =~= all_rows.take(i as int));
            assert(all_rows.take(i + 1).last() == rows@[i as int]@);
        }
        let label: String = if sort == 0 {
            rows[i].date_label.clone()
        } else {
            "全部素材".to_owned()
        };
        let n: usize = out.len();
        let ghost before = group_views(out@);
        let joins: bool = n > 0 && same(out[n - 1].label.as_str(), label.as_str());
        if joins {
            proof {
                assert(before.last() == out@[n - 1]@);
            }
            let group: Option<PersonalAssetGroup> = out.pop();
            if let Some(g) = group {
                let mut shown: Vec<CloudItem> = g.items;
                let ghost prior = row_views(shown@);
                shown.push(rows[i].copy());
                proof {
                    assert(row_views(shown@) =~= prior.push(rows@[i as int]@));
                    assert(group_views(out@) =~= before.drop_last());
                }
                let ghost rest = group_views(out@);
                let whole: PersonalAssetGroup = PersonalAssetGroup { label, items: shown };
                let ghost view = whole@;
                out.push(whole);
                proof {
                    assert(group_views(out@) =~= rest.push(view));
                }
            }
        } else {
            proof {
                if n > 0 {
                    assert(before.last() == out@[n - 1]@);
                }
            }
            let mut shown: Vec<CloudItem> = Vec::new();
            shown.push(rows[i].copy());
            proof {
                assert(row_views(shown@) =~= seq![rows@[i as int]@]);
            }
            let whole: PersonalAssetGroup = PersonalAssetGroup { label, items: shown };
            let ghost view = whole@;
            out.push(whole);
            proof {
                assert(group_views(out@) =~= before.push(view));
            }
        }
        i = i + 1;
    }
    proof {
        assert(all_rows.take(all_rows.len() as int) =~= all_rows);
    }
    out
}

/// The choices in the list of folders that filters the files.
pub open spec fn folder_choices(page: PersonalView) -> Seq<Seq<char>> {
    seq!["全部素材"@, "未分类"@] + names_in(page.folders)
}

/// The choices in the list of folders that files are moved to.
pub open spec fn move_choices(page: PersonalView) -> Seq<Seq<char>> {
    seq!["未分类"@] + names_in(page.folders)
}

/// The names in the list of folders that filters the files.
pub fn folder_names(page: &PersonalPage) -> (r: Vec<String>)
    ensures
        views(r@) == seq!["全部素材"@, "未分类"@] + names_in(page@.folders),
        views(r@) == folder_choices(page@),
{
    let mut out: Vec<String> = Vec::new();
    out.push("全部素材".to_owned());
    out.push("未分类".to_owned());
    let mut names: Vec<String> = list_names(&page.folders);
    let ghost tail = views(names@);
    let ghost head = out@;
    out.append(&mut names);
    proof {
        assert(views(out@) =~= seq!["全部素材"@, "未分类"@] + tail);
    }
    out
}

/// The names in the list of folders that files are moved to.
pub fn move_folder_names(page: &PersonalPage) -> (r: Vec<String>)
    ensures
        views(r@) == seq!["未分类"@] + names_in(page@.folders),
        views(r@) == move_choices(page@),
{
    let mut out: Vec<String> = Vec::new();
    out.push("未分类".to_owned());
    let mut names: Vec<String> = list_names(&page.folders);
    let ghost tail = views(names@);
    out.append(&mut names);
    proof {
        assert(views(out@) =~= seq!["未分类"@] + tail);
    }
    out
}

/// Whether the file picker offers a file.
pub open spec fn offered_in(picker: PickerView, mode: i32, v: JsonModel) -> bool {
    let imports = picker.open && picker.purpose == "import"@;
    let canvas = picker.open && picker.purpose == "canvas"@;
    let kind = v.text("kind"@);
    &&& !flag(v, "trashed"@)
    &&& v.at("available"@) == JsonModel::Bool(true)
    &&& imports || (!canvas && mode != 0) || kind == "image"@
    &&& contains_text(lowercase(v.text("name"@)), lowercase(picker.personal_search))
    &&& filter_medium(picker.personal_filter) == ""@ || kind == filter_medium(
        picker.personal_filter,
    )
    &&& imports || kind_of_path(v.text("path"@)) != "unsupported"@
}

fn offers(picker: &Picker, mode: i32, v: &Json) -> (r: bool)
    ensures
        r == offered_in(picker@, mode, v@),
{
    let imports: bool = picker.open && same(picker.purpose.as_str(), "import");
    let canvas: bool = picker.open && same(picker.purpose.as_str(), "canvas");
    if has_flag(v, "trashed") || !v.at("available").same(&Json::Bool(true)) {
        return false;
    }
    if !imports && (canvas || mode == 0) && !v.text_is("kind", "image") {
        return false;
    }
    let name: String = to_lowercase(v.text("name").as_str());
    let search: String = to_lowercase(picker.personal_search.as_str());
    if !contains(name.as_str(), search.as_str()) {
        return false;
    }
    let kind: &'static str = medium_for(picker.personal_filter);
    if !same(kind, "") && !v.text_is("kind", kind) {
        return false;
    }
    imports || !same(reference_kind(v.text("path").as_str()), "unsupported")
}

/// The rows of the first `n` files that the file picker offers.
pub open spec fn offered_rows(
    page: PersonalView,
    picker: PickerView,
    mode: i32,
    labels: AssetLabels,
    n: nat,
) -> Seq<ItemRow>
    decreases n,
{
    if n == 0 {
        Seq::empty()
    } else {
        let before = offered_rows(page, picker, mode, labels, (n - 1) as nat);
        let v = page.assets[n - 1];
        if offered_in(picker, mode, v) {
            before.push(
                ItemRow {
                    selected: picker.open && picker.purpose != "canvas"@
                        && picker.selected.contains(v.text("id"@)),
                    ..asset_row(page, labels, n - 1)
                },
            )
        } else {
            before
        }
    }
}

/// The rows of the files that the file picker offers.
pub fn picker_rows(page: &PersonalPage, picker: &Picker, mode: i32, labels: &AssetLabels) -> (r: Vec<
    CloudItem,
>)
    requires
        labels_fit(*labels, page@.assets.len()),
    ensures
        row_views(r@) == offered_rows(page@, picker@, mode, *labels, page@.assets.len()),
{
    let mut out: Vec<CloudItem> = Vec::new();
    let mut i: usize = 0;
    proof {
        assert(row_views(out@) =~= Seq::empty());
    }
    while i < page.assets.len()
        invariant
            i <= page.assets.len(),
            labels_fit(*labels, page@.assets.len()),
            row_views(out@) == offered_rows(page@, picker@, mode, *labels, i as nat),
        decreases page.assets.len() - i,
    {
        proof {
            assert(page@.assets[i as int] == page.assets@[i as int]@);
        }
        if offers(picker, mode, &page.assets[i]) {
            let mut row: CloudItem = make_asset_row(page, labels, i);
            let id: String = page.assets[i].text("id");
            row.selected = picker.open && !same(picker.purpose.as_str(), "canvas")
                && crate::text::has_text(&picker.selected, id.as_str());
            let ghost before = out@;
            let ghost view = row@;
            out.push(row);
            proof {
                assert(row_views(out@) =~= row_views(before).push(view));
            }
        }
        i = i + 1;
    }
    out
}

/// The folder that a drop on a place of the list of folders means; the list of
/// all files is no place to drop on.
pub open spec fn drop_target(page: PersonalView, folder_index: i32) -> Option<Seq<char>> {
    if folder_index == 1 {
        Some(""@)
    } else {
        folder_at(page.folders, folder_index - 2)
    }
}

/// The files that a drop moves: the choice where the dragged file belongs to
/// it, or else the file alone.
pub open spec fn drop_ids(page: PersonalView, id: Seq<char>) -> Set<Seq<char>> {
    if page.selected.contains(id) {
        page.selected
    } else {
        Set::empty().insert(id)
    }
}

/// The file of an identity.
pub open spec fn asset_with_id(page: PersonalView, id: Seq<char>) -> Option<JsonModel> {
    match first_where(page.assets, text_is("id"@, id)) {
        Some(i) => Some(page.assets[i]),
        None => None,
    }
}

/// Whether a file can be moved.
pub open spec fn is_movable(page: PersonalView, id: Seq<char>) -> bool {
    asset_with_id(page, id) matches Some(v) && !flag(v, "trashed"@)
}

/// The folder of a file, empty where it is in none.
pub open spec fn folder_of(v: JsonModel) -> Seq<char> {
    match v.at("folder_id"@).as_text() {
        Some(id) => id,
        None => ""@,
    }
}

/// Whether a move to a folder changes anything.
pub open spec fn move_changes(page: PersonalView, ids: Seq<Seq<char>>, target: Seq<char>) -> bool {
    exists|i: int|
        0 <= i < ids.len() && asset_with_id(page, #[trigger] ids[i]) is Some && folder_of(
            asset_with_id(page, ids[i])->0,
        ) != target
}

/// What a drop moves, and where to: nothing where a file of it is gone or in
/// the bin, or where all are there already.
pub open spec fn drop_plan(page: PersonalView, id: Seq<char>, folder_index: i32) -> Option<
    (Seq<Seq<char>>, Seq<char>),
> {
    let ids = ascending(drop_ids(page, id));
    match drop_target(page, folder_index) {
        None => None,
        Some(target) => if is_movable(page, id) && (forall|i: int|
            0 <= i < ids.len() ==> is_movable(page, #[trigger] ids[i])) && move_changes(
            page,
            ids,
            target,
        ) {
            Some((ids, target))
        } else {
            None
        },
    }
}

/// The view of a plan.
pub open spec fn plan_view(r: Option<(Vec<String>, String)>) -> Option<
    (Seq<Seq<char>>, Seq<char>),
> {
    match r {
        Some((ids, target)) => Some((views(ids@), target@)),
        None => None,
    }
}

fn movable(page: &PersonalPage, id: &str) -> (r: Option<String>)
    ensures
        r is Some <==> is_movable(page@, id@),
        r matches Some(folder) ==> folder@ == folder_of(asset_with_id(page@, id@)->0),
{
    let i: usize = match find_text(&page.assets, "id", id) {
        Some(i) => i,
        None => return None,
    };
    let v: &Json = &page.assets[i];
    if has_flag(v, "trashed") {
        return None;
    }
    match v.at("folder_id").as_text() {
        Some(folder) => Some(folder),
        None => Some("".to_owned()),
    }
}

fn find_target(page: &PersonalPage, folder_index: i32) -> (r: Option<String>)
    ensures
        opt(r) == drop_target(page@, folder_index),
{
    if folder_index == 1 {
        return Some("".to_owned());
    }
    if folder_index < 2 || (folder_index - 2) as usize >= page.folders.len() {
        return None;
    }
    Some(page.folders[(folder_index - 2) as usize].text("id"))
}

/// What a drop moves, and where to.
pub fn personal_drop_plan(page: &PersonalPage, id: &str, folder_index: i32) -> (r: Option<
    (Vec<String>, String),
>)
    ensures
        plan_view(r) == drop_plan(page@, id@, folder_index),
{
    let target: String = match find_target(page, folder_index) {
        Some(target) => target,
        None => return None,
    };
    if movable(page, id).is_none() {
        return None;
    }
    let mut dragged: TextSet = TextSet::new();
    if page.selected.has(id) {
        dragged = page.selected.copy();
    } else {
        dragged.insert(id);
    }
    proof {
        assert(dragged@ =~= drop_ids(page@, id@));
    }
    let ids: Vec<String> = sorted_texts(&dragged);
    let ghost all_ids = views(ids@);
    let mut changes: bool = false;
    let mut i: usize = 0;
    while i < ids.len()
        invariant
            i <= ids.len(),
            all_ids == views(ids@),
            all_ids == ascending(drop_ids(page@, id@)),
            drop_target(page@, folder_index) == Some(target@),
            is_movable(page@, id@),
            forall|j: int| 0 <= j < i ==> is_movable(page@, #[trigger] all_ids[j]),
            changes == exists|j: int|
                0 <= j < i && asset_with_id(page@, #[trigger] all_ids[j]) is Some && folder_of(
                    asset_with_id(page@, all_ids[j])->0,
                ) != target@,
        decreases ids.len() - i,
    {
        proof {
            assert(all_ids[i as int] == ids@[i as int]@);
        }
        match movable(page, ids[i].as_str()) {
            None => return None,
            Some(folder) => {
                if !same(folder.as_str(), target.as_str()) {
                    changes = true;
                }
            },
        }
        i = i + 1;
    }
    if changes {
        Some((ids, target))
    } else {
        None
    }
}

/// What a drop moves while the page can be worked on.
pub fn personal_drop_move(page: &PersonalPage, working: bool, id: &str, folder_index: i32) -> (r:
    Option<(Vec<String>, String)>)
    ensures
        plan_view(r) == if page.trash || working || page.dialog > 0 {
            None
        } else {
            drop_plan(page@, id@, folder_index)
        },
{
    if page.trash || working || page.dialog > 0 {
        return None;
    }
    personal_drop_plan(page, id, folder_index)
}

/// An answer that ends the choice of files.
pub open spec fn ends_choice(name: Seq<char>) -> bool {
    name == "personal-bulk"@ || name == "personal-dialog-move"@ || name == "personal-drag-move"@
}

/// The page and the steps when the library has answered a job.
pub open spec fn personal_answered(page: PersonalView, name: Seq<char>, value: JsonModel) -> (
    PersonalView,
    Seq<StepView>,
) {
    let dialog = has_prefix(name, "personal-dialog-"@);
    let notice = value.text("notice"@);
    let listed = PersonalView {
        assets: items_of(value),
        folders: value.list("folders"@),
        selected: if ends_choice(name) {
            Set::empty()
        } else {
            page.selected
        },
        ..page
    };
    (
        if dialog {
            PersonalView { dialog_busy: false, dialog_error: ""@, dialog: 0, ..listed }
        } else {
            listed
        },
        step_if(
            step_if(
                seq![StepView::Draw(Panel::Personal)],
                name == "personal-cache"@,
                StepView::Draw(Panel::Tasks),
            ),
            notice.len() > 0,
            StepView::Notice(notice),
        ),
    )
}

/// Takes an answer of the library.
pub fn personal_listed(page: &mut PersonalPage, name: &str, value: &Json) -> (r: Vec<Step>)
    ensures
        (final(page)@, step_views(r@)) == personal_answered(old(page)@, name@, value@),
{
    page.assets = items(value);
    page.folders = value.list("folders");
    if same(name, "personal-bulk") || same(name, "personal-dialog-move") || same(
        name,
        "personal-drag-move",
    ) {
        page.selected.clear();
    }
    let mut steps: Vec<Step> = one(Step::Draw(Panel::Personal));
    if starts_with(name, "personal-dialog-") {
        page.dialog_busy = false;
        page.dialog_error = "".to_owned();
        page.dialog = 0;
    }
    if same(name, "personal-cache") {
        then_do(&mut steps, Step::Draw(Panel::Tasks));
    }
    let notice: String = value.text("notice");
    if !notice.as_str().is_empty() {
        then_do(&mut steps, Step::Notice(notice));
    }
    steps
}

/// A drop never goes to the list of all files, never touches a file in the
/// bin, and always changes something.
pub proof fn drops_move_live_files_to_folders(
    page: PersonalView,
    id: Seq<char>,
    folder_index: i32,
    ids: Seq<Seq<char>>,
    target: Seq<char>,
    i: int,
)
    requires
        drop_plan(page, id, folder_index) == Some((ids, target)),
        0 <= i < ids.len(),
    ensures
        folder_index >= 1,
        asset_with_id(page, ids[i]) matches Some(v) && !flag(v, "trashed"@),
        move_changes(page, ids, target),
{
    assert(is_movable(page, ids[i]));
}

/// After the choice has been held to what is shown, every chosen file is shown.
pub proof fn choices_are_shown(page: PersonalView, id: Seq<char>)
    requires
        shown_choice(page).contains(id),
    ensures
        page.selected.contains(id) && shows_id(page, id),
{
}

/// The places that are listed are those of the files that are shown.
proof fn listed_places(page: PersonalView, n: nat)
    requires
        n <= page.assets.len() <= usize::MAX,
    ensures
        visible_places(page, n).len() <= n,
        forall|k: int|
            0 <= k < visible_places(page, n).len() ==> #[trigger] visible_places(page, n)[k] < n
                && is_visible(page, page.assets[visible_places(page, n)[k] as int]),
        forall|j: int, k: int|
            0 <= j < k < visible_places(page, n).len() ==> #[trigger] visible_places(page, n)[j]
                < #[trigger] visible_places(page, n)[k],
        forall|i: int|
            0 <= i < n && is_visible(page, #[trigger] page.assets[i]) ==> exists|k: int|
                0 <= k < visible_places(page, n).len() && #[trigger] visible_places(page, n)[k] == i,
    decreases n,
{
    if n > 0 {
        let before = visible_places(page, (n - 1) as nat);
        listed_places(page, (n - 1) as nat);
        let now = visible_places(page, n);
        assert forall|i: int| 0 <= i < n && is_visible(
            page,
            #[trigger] page.assets[i],
        ) implies exists|k: int| 0 <= k < now.len() && #[trigger] now[k] == i by {
            if i < n - 1 {
                let k = choose|k: int| 0 <= k < before.len() && #[trigger] before[k] == i;
                assert(now[k] == i);
            } else {
                assert(now[before.len() as int] == i);
            }
        }
    }
}

/// The order in which the files are shown lists the files that are shown.
proof fn shown_order(page: PersonalView)
    requires
        page.assets.len() <= usize::MAX,
    ensures
        is_order(order_of(visible_keys(page)), visible_keys(page)),
        visible_order(page).len() == visible_places(page, page.assets.len()).len(),
        forall|at: int|
            0 <= at < visible_order(page).len() ==> #[trigger] visible_order(page)[at]
                < page.assets.len() && is_visible(
                page,
                page.assets[visible_order(page)[at] as int],
            ),
        forall|i: int|
            0 <= i < page.assets.len() && is_visible(page, #[trigger] page.assets[i])
                ==> exists|at: int|
                0 <= at < visible_order(page).len() && #[trigger] visible_order(page)[at] == i,
{
    let places = visible_places(page, page.assets.len());
    let keys = visible_keys(page);
    listed_places(page, page.assets.len());
    orders_exist(keys);
    let order = order_of(keys);
    assert forall|i: int| 0 <= i < page.assets.len() && is_visible(
        page,
        #[trigger] page.assets[i],
    ) implies exists|at: int|
        0 <= at < visible_order(page).len() && #[trigger] visible_order(page)[at] == i by {
        let k = choose|k: int| 0 <= k < places.len() && #[trigger] places[k] == i;
        let at = order_onto(order, keys, k as usize);
        assert(visible_order(page)[at] == i);
    }
}

/// Every file that is shown is one that the page asks for: in the bin or not,
/// as the page is; with a name that holds what is searched for; of the medium
/// and the source that are chosen; in the folder that is open; and a favourite
/// where only favourites are asked for.
pub proof fn shown_files_are_asked_for(page: PersonalView, at: int)
    requires
        page.assets.len() <= usize::MAX,
        0 <= at < visible_order(page).len(),
    ensures
        visible_order(page)[at] < page.assets.len(),
        ({
            let v = page.assets[visible_order(page)[at] as int];
            &&& page.trash == (v.at("trashed"@) == JsonModel::Bool(true))
            &&& contains_text(lowercase(v.text("name"@)), lowercase(page.search))
            &&& page.filter == 1 ==> v.text("kind"@) == "image"@
            &&& page.filter == 2 ==> v.text("kind"@) == "video"@
            &&& page.filter == 3 ==> v.text("kind"@) == "audio"@
            &&& page.source == 1 ==> v.text("source"@) == "imported"@
            &&& page.source == 2 ==> v.text("source"@) == "generated"@
            &&& page.folder_filter == 1 ==> v.at("folder_id"@) is Null
            &&& page.folder_filter < 0 ==> false
            &&& page.folder_filter >= 2 ==> page.folder_filter - 2 < page.folders.len()
                && v.text("folder_id"@) == page.folders[page.folder_filter - 2].text("id"@)
            &&& page.favorites ==> v.at("favorite"@) == JsonModel::Bool(true)
        }),
{
    shown_order(page);
    reveal_strlit("");
    reveal_strlit("image");
    reveal_strlit("video");
    reveal_strlit("audio");
    reveal_strlit("imported");
    reveal_strlit("generated");
}

/// Every file that the page asks for is shown.
pub proof fn files_asked_for_are_shown(page: PersonalView, i: int) -> (at: int)
    requires
        page.assets.len() <= usize::MAX,
        0 <= i < page.assets.len(),
        ({
            let v = page.assets[i];
            &&& page.trash == (v.at("trashed"@) == JsonModel::Bool(true))
            &&& contains_text(lowercase(v.text("name"@)), lowercase(page.search))
            &&& page.filter == 1 ==> v.text("kind"@) == "image"@
            &&& page.filter == 2 ==> v.text("kind"@) == "video"@
            &&& page.filter == 3 ==> v.text("kind"@) == "audio"@
            &&& page.source == 1 ==> v.text("source"@) == "imported"@
            &&& page.source == 2 ==> v.text("source"@) == "generated"@
            &&& page.folder_filter >= 0
            &&& page.folder_filter == 1 ==> v.at("folder_id"@) is Null
            &&& page.folder_filter >= 2 ==> page.folder_filter - 2 < page.folders.len()
                && v.text("folder_id"@) == page.folders[page.folder_filter - 2].text("id"@)
            &&& page.favorites ==> v.at("favorite"@) == JsonModel::Bool(true)
        }),
    ensures
        0 <= at < visible_order(page).len(),
        visible_order(page)[at] == i,
{
    shown_order(page);
    assert(is_visible(page, page.assets[i]));
    choose|at: int| 0 <= at < visible_order(page).len() && #[trigger] visible_order(page)[at] == i
}

/// The files are shown each once and in the order that is chosen: by name; by
/// medium, pictures before videos before sound, and then by name; otherwise
/// the latest first.
pub proof fn shown_files_are_in_order(page: PersonalView, i: int, j: int)
    requires
        page.assets.len() <= usize::MAX,
        0 <= i < j < visible_order(page).len(),
    ensures
        visible_order(page)[i] != visible_order(page)[j],
        ({
            let a = page.assets[visible_order(page)[i] as int];
            let b = page.assets[visible_order(page)[j] as int];
            let first = lowercase(a.text("name"@));
            let second = lowercase(b.text("name"@));
            let by_time = number_at(a, "created_at"@) >= number_at(b, "created_at"@);
            &&& page.sort == 1 ==> text_less(first, second) || (first == second && by_time)
            &&& page.sort == 2 && a.text("kind"@) == b.text("kind"@) ==> text_less(first, second)
                || (first == second && by_time)
            &&& page.sort == 2 && b.text("kind"@) == "image"@ ==> a.text("kind"@) == "image"@
            &&& page.sort == 2 && b.text("kind"@) == "video"@ ==> a.text("kind"@) == "image"@
                || a.text("kind"@) == "video"@
            &&& page.sort != 1 && page.sort != 2 ==> by_time
        }),
{
    shown_order(page);
    listed_places(page, page.assets.len());
    let places = visible_places(page, page.assets.len());
    let keys = visible_keys(page);
    let order = order_of(keys);
    assert(row_less(keys, order[i] as int, order[j] as int));
    if order[i] == order[j] {
        text_less_total(keys[order[i] as int].name, keys[order[i] as int].name);
        text_less_total(keys[order[i] as int].id, keys[order[i] as int].id);
    }
    assert(order[i] < places.len() && order[j] < places.len());
    if order[i] < order[j] {
        assert(places[order[i] as int] < places[order[j] as int]);
    } else {
        assert(places[order[j] as int] < places[order[i] as int]);
    }
    reveal_strlit("image");
    reveal_strlit("video");
}

} // verus!
