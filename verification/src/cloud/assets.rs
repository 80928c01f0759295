//! The rows of the files of a team.

use crate::cloud::picker::{medium, medium_of, Picker, PickerView};
use crate::cloud::rows::{blank, blank_item, row_views, CloudItem, ItemRow};
use crate::cloud::teams::{TeamPage, TeamView};
use crate::collections::TextMap;
use crate::json::{models, Json, JsonModel};
use crate::lists::{kept, kept_all, kept_step};
use crate::text::{
    contains, contains_text, has_prefix, has_text, lowercase, same, starts_with, to_lowercase,
};
use vstd::prelude::*;
use vstd::string::*;

verus! {

/// Whether the rows are those of the file picker.
pub open spec fn picks_from_team(picker: PickerView) -> bool {
    picker.open && picker.source == 1
}

/// Whether a file suits what it would be picked for.
pub open spec fn suits(picker: PickerView, mode: i32, asset: JsonModel) -> bool {
    let image = has_prefix(asset.text("content_type"@), "image/"@);
    ||| !picks_from_team(picker)
    ||| picker.purpose == "import"@
    ||| if picker.purpose == "canvas"@ {
        image
    } else {
        mode != 0 || image
    }
}

/// The beginning of the types of content that a filter lets through.
pub open spec fn filter_prefix(filter: i32) -> Seq<char> {
    if filter == 1 {
        "image"@
    } else if filter == 2 {
        "video"@
    } else {
        "audio"@
    }
}

/// Whether a file of the team is shown; `wanted` is the text that is searched
/// for and `name` the name of the file, both in lower case.
pub open spec fn passes(
    picker: PickerView,
    mode: i32,
    filter: i32,
    asset: JsonModel,
    name: Seq<char>,
    wanted: Seq<char>,
) -> bool {
    &&& contains_text(name, wanted)
    &&& suits(picker, mode, asset)
    &&& filter == 0 || has_prefix(asset.text("content_type"@), filter_prefix(filter))
}

/// Whether a file of the team is shown, given the names in lower case.
pub fn passes_filters(
    picker: &Picker,
    mode: i32,
    filter: i32,
    asset: &Json,
    name: &str,
    wanted: &str,
) -> (r: bool)
    ensures
        r == passes(picker@, mode, filter, asset@, name@, wanted@),
{
    let content: String = asset.text("content_type");
    let image: bool = starts_with(content.as_str(), "image/");
    let suited: bool = !(picker.open && picker.source == 1) || same(
        picker.purpose.as_str(),
        "import",
    ) || if same(picker.purpose.as_str(), "canvas") {
        image
    } else {
        mode != 0 || image
    };
    let prefix: &str = if filter == 1 {
        "image"
    } else if filter == 2 {
        "video"
    } else {
        "audio"
    };
    contains(name, wanted) && suited && (filter == 0 || starts_with(content.as_str(), prefix))
}

/// The text that is searched for.
pub open spec fn team_search(picker: PickerView, page: TeamView) -> Seq<char> {
    if picks_from_team(picker) {
        picker.team_search
    } else {
        page.search
    }
}

/// The filter that is set.
pub open spec fn team_filter(picker: PickerView, page: TeamView) -> i32 {
    if picks_from_team(picker) {
        picker.team_filter
    } else {
        page.filter
    }
}

pub open spec fn is_listed(picker: PickerView, page: TeamView, mode: i32) -> spec_fn(
    JsonModel,
) -> bool {
    |asset: JsonModel|
        passes(
            picker,
            mode,
            team_filter(picker, page),
            asset,
            lowercase(asset.text("filename"@)),
            lowercase(team_search(picker, page)),
        )
}

/// The row of a file of the team.
pub open spec fn asset_row(
    picker: PickerView,
    local: Map<Seq<char>, Seq<char>>,
    asset: JsonModel,
) -> ItemRow {
    let id = asset.text("id"@);
    let content = asset.text("content_type"@);
    ItemRow {
        id,
        name: asset.text("filename"@),
        detail: asset.text("uploader_email"@),
        kind: medium_of(content),
        ready: true,
        selected: picks_from_team(picker) && picker.purpose != "canvas"@
            && picker.selected.contains(id),
        preview: if local.contains_key(id) && has_prefix(content, "image/"@) {
            local[id]
        } else {
            ""@
        },
        ..blank()
    }
}

fn make_asset_row(picker: &Picker, local: &TextMap<String>, asset: &Json) -> (r: CloudItem)
    ensures
        r@ == asset_row(picker@, local@, asset@),
{
    let mut row: CloudItem = blank_item();
    let id: String = asset.text("id");
    let content: String = asset.text("content_type");
    row.name = asset.text("filename");
    row.detail = asset.text("uploader_email");
    row.kind = medium(content.as_str());
    row.ready = true;
    row.selected = picker.open && picker.source == 1 && !same(picker.purpose.as_str(), "canvas")
        && has_text(&picker.selected, id.as_str());
    if starts_with(content.as_str(), "image/") {
        if let Some(path) = local.get(id.as_str()) {
            row.preview = path.clone();
        }
    }
    row.id = id;
    row
}

/// The rows of the files of the team that are shown.
pub open spec fn asset_rows(
    picker: PickerView,
    page: TeamView,
    local: Map<Seq<char>, Seq<char>>,
    mode: i32,
) -> Seq<ItemRow> {
    let shown = kept(page.assets, is_listed(picker, page, mode));
    Seq::new(shown.len(), |i: int| asset_row(picker, local, shown[i]))
}

/// The rows of the files of the team.
pub fn render_assets(picker: &Picker, page: &TeamPage, local: &TextMap<String>, mode: i32) -> (r: Vec<
    CloudItem,
>)
    ensures
        row_views(r@) == asset_rows(picker@, page@, local@, mode),
{
    let in_picker: bool = picker.open && picker.source == 1;
    let wanted: String = to_lowercase(
        if in_picker {
            picker.team_search.as_str()
        } else {
            page.search.as_str()
        },
    );
    let filter: i32 = if in_picker {
        picker.team_filter
    } else {
        page.filter
    };
    let ghost all = models(page.assets@);
    let ghost p = is_listed(picker@, page@, mode);
    let mut out: Vec<CloudItem> = Vec::new();
    let mut i: usize = 0;
    proof {
        kept_all(all, p);
    }
    while i < page.assets.len()
        invariant
            i <= page.assets.len(),
            all == models(page.assets@),
            p == is_listed(picker@, page@, mode),
            wanted@ == lowercase(team_search(picker@, page@)),
            filter == team_filter(picker@, page@),
            out@.len() == kept(all.take(i as int), p).len(),
            forall|j: int|
                0 <= j < out@.len() ==> (#[trigger] out@[j])@ == asset_row(
                    picker@,
                    local@,
                    kept(all.take(i as int), p)[j],
                ),
        decreases page.assets.len() - i,
    {
        proof {
            kept_step(all, p, i as int);
            assert(all[i as int] == page.assets@[i as int]@);
        }
        let filename: String = page.assets[i].text("filename");
        let name: String = to_lowercase(filename.as_str());
        if passes_filters(picker, mode, filter, &page.assets[i], name.as_str(), wanted.as_str()) {
            out.push(make_asset_row(picker, local, &page.assets[i]));
        }
        i = i + 1;
    }
    proof {
        kept_all(all, p);
        assert(row_views(out@) =~= asset_rows(picker@, page@, local@, mode));
    }
    out
}

/// While files are picked for a canvas, only pictures are offered.
pub proof fn canvases_are_offered_pictures(
    picker: PickerView,
    page: TeamView,
    mode: i32,
    asset: JsonModel,
)
    requires
        picks_from_team(picker),
        picker.purpose == "canvas"@,
        is_listed(picker, page, mode)(asset),
    ensures
        has_prefix(asset.text("content_type"@), "image/"@),
{
    reveal_strlit("canvas");
    reveal_strlit("import");
    assert("canvas"@[0] == 'c' && "import"@[0] == 'i');
}

} // verus!
