//! What is done with the files of the personal library, seen from outside.

use crate::cloud::asking::media_differ;
use crate::cloud::intents::IntentsView;
use crate::cloud::personal::{
    asset_with_id, clock_of, day_label, detail_of, drop_plan, folder_choices, in_folder,
    move_choices, number_at, offered_in, offered_rows, personal_answered, personal_rows, shows_id,
    status_of, visible_order, whole_seconds, AssetLabels, LocalDay, PersonalView,
};
use crate::cloud::personal_actions::{personal_acted, ActionView};
use crate::cloud::picker::{
    batch_continued, choices, context_of, picker_begun, picker_confirmed,
    picker_toggled, use_steps, BatchView, FactsView, PickerView, SelectionView,
};
use crate::cloud::requests::QueueView;
use crate::cloud::steps::{ask, Panel, StepView};
use crate::cloud::teams::TeamView;
use crate::cloud::export_copy::text_models;
use crate::json::JsonModel;
use crate::lists::any;
use crate::sort::ascending;
use crate::text::{contains_text, decimal, lowercase, trimmed, two_digits};
use vstd::prelude::*;

verus! {

/// What can be done with a file is told apart.
proof fn deeds_differ()
    ensures
        "personal-drop"@.len() == 13 && "personal-drop"@[9] == 'd',
        "personal-move"@.len() == 13 && "personal-move"@[9] == 'm',
        "personal-trash"@.len() == 14 && "personal-trash"@[10] == 'r',
        "personal-teams"@.len() == 14 && "personal-teams"@[10] == 'e',
        "personal-browse"@.len() == 15 && "personal-browse"@[9] == 'b',
        "personal-folder"@.len() == 15 && "personal-folder"@[9] == 'f',
        "personal-select"@.len() == 15 && "personal-select"@[9] == 's',
        "personal-rename"@.len() == 15 && "personal-rename"@[9] == 'r',
        "personal-canvas"@.len() == 15 && "personal-canvas"@[9] == 'c',
        "personal-upload"@.len() == 15 && "personal-upload"@[9] == 'u',
        "personal-preview"@.len() == 16 && "personal-preview"@[11] == 'e',
        "personal-refresh"@.len() == 16 && "personal-refresh"@[11] == 'f',
        "personal-restore"@.len() == 16 && "personal-restore"@[11] == 's',
        "personal-project"@.len() == 16 && "personal-project"@[11] == 'o',
        "personal-favorite"@.len() == 17,
        "personal-reference"@.len() == 18,
        "personal-drop-folder"@.len() == 20,
        "personal-freeze-delete"@.len() == 22 && "personal-freeze-delete"@[9] == 'f',
        "personal-create-folder"@.len() == 22 && "personal-create-folder"@[9] == 'c',
        "personal-move-selected"@.len() == 22 && "personal-move-selected"@[9] == 'm',
        "personal-trash-selected"@.len() == 23 && "personal-trash-selected"@[9] == 't',
        "personal-select-visible"@.len() == 23 && "personal-select-visible"@[9] == 's',
        "personal-confirm-delete"@.len() == 23 && "personal-confirm-delete"@[9] == 'c',
        "personal-register-canvas"@.len() == 24 && "personal-register-canvas"@[9] == 'r',
        "personal-canvas-selected"@.len() == 24 && "personal-canvas-selected"@[9] == 'c',
        "personal-export-selected"@.len() == 24 && "personal-export-selected"@[9] == 'e',
        "personal-restore-selected"@.len() == 25 && "personal-restore-selected"@[9] == 'r',
        "personal-project-selected"@.len() == 25 && "personal-project-selected"@[9] == 'p',
        "personal-reference-selected"@.len() == 27,
{
    reveal_strlit("personal-preview");
    reveal_strlit("personal-refresh");
    reveal_strlit("personal-register-canvas");
    reveal_strlit("personal-trash-selected");
    reveal_strlit("personal-restore-selected");
    reveal_strlit("personal-drop-folder");
    reveal_strlit("personal-favorite");
    reveal_strlit("personal-browse");
    reveal_strlit("personal-drop");
    reveal_strlit("personal-folder");
    reveal_strlit("personal-trash");
    reveal_strlit("personal-restore");
    reveal_strlit("personal-select");
    reveal_strlit("personal-select-visible");
    reveal_strlit("personal-freeze-delete");
    reveal_strlit("personal-confirm-delete");
    reveal_strlit("personal-create-folder");
    reveal_strlit("personal-move");
    reveal_strlit("personal-move-selected");
    reveal_strlit("personal-rename");
    reveal_strlit("personal-teams");
    reveal_strlit("personal-reference-selected");
    reveal_strlit("personal-project-selected");
    reveal_strlit("personal-canvas-selected");
    reveal_strlit("personal-export-selected");
    reveal_strlit("personal-project");
    reveal_strlit("personal-canvas");
    reveal_strlit("personal-reference");
    reveal_strlit("personal-upload");
}

/// A file goes to the bin and comes back from it by its own request, and a
/// choice of files by that of all of them; a choice of none is refused.
pub proof fn files_go_to_the_bin_and_come_back(
    page: PersonalView,
    intents: IntentsView,
    facts: ActionView,
    id: Seq<char>,
)
    ensures
        ({
            let one = JsonModel::Object(seq![("id"@, JsonModel::Text(id))]);
            let chosen = ascending(page.selected);
            let all = JsonModel::Object(seq![("ids"@, JsonModel::Array(text_models(chosen)))]);
            let gone = personal_acted(page, intents, facts, "personal-trash"@, id);
            let back = personal_acted(page, intents, facts, "personal-restore"@, id);
            let all_gone = personal_acted(page, intents, facts, "personal-trash-selected"@, id);
            let all_back = personal_acted(page, intents, facts, "personal-restore-selected"@, id);
            &&& gone == (
                page,
                intents,
                seq![ask("personal"@, "POST"@, "local:library-"@ + "trash"@, one)],
            )
            &&& back == (
                page,
                intents,
                seq![ask("personal"@, "POST"@, "local:library-"@ + "restore"@, one)],
            )
            &&& chosen.len() > 0 ==> all_gone.2 == seq![
                ask("personal-bulk"@, "POST"@, "local:library-"@ + "trash-selected"@, all),
            ] && all_back.2 == seq![
                ask("personal-bulk"@, "POST"@, "local:library-"@ + "restore-selected"@, all),
            ]
            &&& chosen.len() == 0 ==> all_gone.2.len() == 1 && all_gone.2[0] is Error
                && all_back.2.len() == 1 && all_back.2[0] is Error
            &&& all_gone.0 == page && all_back.0 == page
        }),
{
    deeds_differ();
}

/// The star of a file is put on where it was off, and taken off where it was
/// on.
pub proof fn stars_are_switched(
    page: PersonalView,
    intents: IntentsView,
    facts: ActionView,
    id: Seq<char>,
    v: JsonModel,
)
    requires
        asset_with_id(page, id) == Some(v),
    ensures
        personal_acted(page, intents, facts, "personal-favorite"@, id).2 == seq![
            ask(
                "personal"@,
                "POST"@,
                "local:library-"@ + "favorite"@,
                JsonModel::Object(
                    seq![
                        ("id"@, JsonModel::Text(id)),
                        (
                            "favorite"@,
                            JsonModel::Bool(v.at("favorite"@) != JsonModel::Bool(true)),
                        ),
                    ],
                ),
            ),
        ],
{
    deeds_differ();
}

/// A click on a file that is shown chooses it, and a second one lets it go; no
/// other file is touched. All files that are shown are chosen, or let go, at
/// once.
pub proof fn clicks_choose_files(
    page: PersonalView,
    intents: IntentsView,
    facts: ActionView,
    id: Seq<char>,
    other: Seq<char>,
)
    ensures
        ({
            let clicked = personal_acted(page, intents, facts, "personal-select"@, id).0;
            let on = personal_acted(page, intents, facts, "personal-select-visible"@, "true"@).0;
            let off = personal_acted(page, intents, facts, "personal-select-visible"@, "false"@).0;
            &&& shows_id(page, id) ==> clicked.selected.contains(id) == !page.selected.contains(id)
            &&& !shows_id(page, id) ==> clicked == page
            &&& other != id ==> clicked.selected.contains(other) == page.selected.contains(other)
            &&& on.selected.contains(other) == (page.selected.contains(other) || shows_id(
                page,
                other,
            ))
            &&& off.selected.contains(other) == (page.selected.contains(other) && !shows_id(
                page,
                other,
            ))
            &&& clicked.assets == page.assets && on.assets == page.assets && off.assets
                == page.assets
        }),
{
    deeds_differ();
    reveal_strlit("true");
    reveal_strlit("false");
    assert("true"@.len() == 4 && "false"@.len() == 5);
}

/// Files are moved to the folder that is picked, out of all folders where none
/// is: the one that was named, or all that are chosen.
pub proof fn files_are_moved_to_the_folder(
    page: PersonalView,
    intents: IntentsView,
    facts: ActionView,
    id: Seq<char>,
)
    requires
        !page.dialog_busy,
        0 <= page.folder_target <= page.folders.len(),
        page.folder_target > 0 ==> page.folders[page.folder_target - 1].text("id"@).len() > 0,
    ensures
        ({
            let folder = if page.folder_target == 0 {
                ""@
            } else {
                page.folders[page.folder_target - 1].text("id"@)
            };
            let moved = personal_acted(page, intents, facts, "personal-move"@, id);
            let all_moved = personal_acted(page, intents, facts, "personal-move-selected"@, id);
            let chosen = ascending(page.selected);
            &&& moved.2 == seq![
                ask(
                    "personal-dialog-"@ + "move"@,
                    "POST"@,
                    "local:library-"@ + "move"@,
                    JsonModel::Object(
                        seq![
                            ("ids"@, JsonModel::Array(text_models(seq![id]))),
                            ("folder_id"@, JsonModel::Text(folder)),
                        ],
                    ),
                ),
            ]
            &&& moved.0.dialog_busy
            &&& chosen.len() > 0 ==> all_moved.2 == seq![
                ask(
                    "personal-dialog-"@ + "move"@,
                    "POST"@,
                    "local:library-"@ + "move"@,
                    JsonModel::Object(
                        seq![
                            ("ids"@, JsonModel::Array(text_models(chosen))),
                            ("folder_id"@, JsonModel::Text(folder)),
                        ],
                    ),
                ),
            ]
            &&& chosen.len() == 0 ==> all_moved.2.len() == 0 && all_moved.0.dialog_error.len() > 0
        }),
{
    deeds_differ();
    reveal_strlit("请先选择素材");
    reveal_strlit("");
}

/// A file gets the name that is typed and a new folder too, without the blanks
/// around it; a blank name is refused.
pub proof fn names_are_taken_as_typed(
    page: PersonalView,
    intents: IntentsView,
    facts: ActionView,
    id: Seq<char>,
)
    requires
        !page.dialog_busy,
    ensures
        ({
            let renamed = personal_acted(page, intents, facts, "personal-rename"@, id);
            let made = personal_acted(page, intents, facts, "personal-create-folder"@, id);
            &&& trimmed(page.rename).len() == 0 ==> renamed.2.len() == 0
                && renamed.0.dialog_error.len() > 0
            &&& trimmed(page.rename).len() > 0 ==> renamed.2 == seq![
                ask(
                    "personal-dialog-"@ + "rename"@,
                    "POST"@,
                    "local:library-"@ + "rename"@,
                    JsonModel::Object(
                        seq![
                            ("id"@, JsonModel::Text(id)),
                            ("name"@, JsonModel::Text(trimmed(page.rename))),
                        ],
                    ),
                ),
            ]
            &&& trimmed(page.new_folder).len() == 0 ==> made.2.len() == 0
                && made.0.dialog_error.len() > 0
            &&& trimmed(page.new_folder).len() > 0 ==> made.2 == seq![
                ask(
                    "personal-dialog-"@ + "create-folder"@,
                    "POST"@,
                    "local:library-"@ + "create-folder"@,
                    JsonModel::Object(seq![("name"@, JsonModel::Text(trimmed(page.new_folder)))]),
                ),
            ]
        }),
{
    deeds_differ();
    reveal_strlit("请输入素材名称");
    reveal_strlit("请输入文件夹名称");
}

/// A file is used where it is wanted: on the timeline, on a canvas where it is
/// a picture, as a reference, or for the team that is open. A file that is
/// missing is used nowhere.
pub proof fn files_are_used_where_they_are_wanted(
    page: PersonalView,
    intents: IntentsView,
    facts: ActionView,
    id: Seq<char>,
    v: JsonModel,
)
    requires
        asset_with_id(page, id) == Some(v),
    ensures
        ({
            let path = v.text("path"@);
            let one = seq![
                crate::cloud::steps::ImportView { path, name: Some(v.text("name"@)) },
            ];
            let clip = personal_acted(page, intents, facts, "personal-project"@, id).2;
            let canvas = personal_acted(page, intents, facts, "personal-canvas"@, id).2;
            let reference = personal_acted(page, intents, facts, "personal-reference"@, id);
            let team = personal_acted(page, intents, facts, "personal-upload"@, id).2;
            &&& !facts.present.contains(path) ==> clip.last() is Error && canvas.last() is Error
                && reference.2.last() is Error && team.last() is Error
            &&& facts.present.contains(path) ==> {
                &&& clip.last() == StepView::Handoff("clip"@, one)
                &&& v.text("kind"@) == "image"@ ==> canvas.last() == StepView::Handoff(
                    "canvas"@,
                    one,
                )
                &&& v.text("kind"@) != "image"@ ==> canvas.len() == 1 && canvas[0] is Error
                &&& facts.signed_in && facts.catalog.models.len() > 0 ==> reference.2.last()
                    == StepView::UploadPersonal(path, v.text("name"@)) && reference.1 == intents
                &&& !facts.signed_in ==> reference.2.last() is ShowAuth
                &&& facts.team.len() > 0 ==> team == seq![StepView::Upload(path, "team_asset"@)]
                &&& facts.team.len() == 0 ==> team.len() == 1 && team[0] is Error
            }
        }),
{
    deeds_differ();
}

/// Files that are dropped on a folder go into it, those that are dropped on
/// the unfiled ones out of all folders. Where the file in hand is chosen all
/// that are chosen go along, otherwise it goes alone.
pub proof fn drops_go_to_the_folder(
    page: PersonalView,
    id: Seq<char>,
    place: i32,
    ids: Seq<Seq<char>>,
    target: Seq<char>,
)
    requires
        drop_plan(page, id, place) == Some((ids, target)),
    ensures
        place == 1 ==> target == ""@,
        place >= 2 ==> place - 2 < page.folders.len() && target == page.folders[place - 2].text(
            "id"@,
        ),
        place >= 1,
        page.selected.contains(id) ==> ids == ascending(page.selected),
        !page.selected.contains(id) ==> ids == ascending(Set::<Seq<char>>::empty().insert(id)),
{
}

/// The length of a file is shown in whole seconds, rounded up: as minutes and
/// seconds, from an hour on with the hours before them.
pub proof fn lengths_are_shown_as_a_clock(hours: nat, minutes: nat, seconds: nat, ms: u64)
    requires
        minutes < 60,
        seconds < 60,
    ensures
        hours > 0 ==> clock_of(3600 * hours + 60 * minutes + seconds) == two_digits(hours) + ":"@
            + two_digits(minutes) + ":"@ + two_digits(seconds),
        clock_of(60 * minutes + seconds) == two_digits(minutes) + ":"@ + two_digits(seconds),
        ms <= 1000 * whole_seconds(ms) < ms + 1000,
{
    let n = 3600 * hours + 60 * minutes + seconds;
    if hours > 0 {
        assert(n / 3600 == hours);
        assert((n / 60) % 60 == minutes);
        assert(n % 60 == seconds);
    }
    let m = 60 * minutes + seconds;
    assert(m / 60 == minutes);
    assert(m % 60 == seconds);
}

/// Beside a picture its measures are shown, width before height; beside a film
/// or a sound its length; the size of the file where neither is known.
pub proof fn files_show_their_measure(v: JsonModel, size: Seq<char>)
    ensures
        ({
            let width = number_at(v, "media_width"@);
            let height = number_at(v, "media_height"@);
            let length = number_at(v, "media_duration_ms"@);
            let shown = detail_of(v, size);
            &&& v.text("kind"@) == "image"@ && width > 0 && height > 0 ==> shown == decimal(
                width as nat,
            ) + " × "@ + decimal(height as nat)
            &&& v.text("kind"@) != "image"@ && length > 0 ==> shown == clock_of(
                whole_seconds(length),
            )
            &&& (width == 0 || height == 0) && (v.text("kind"@) == "image"@ || length == 0)
                ==> shown == size
        }),
{
}

/// The words beside a file name its medium and where it came from.
pub proof fn files_say_where_they_came_from(v: JsonModel, size: Seq<char>)
    ensures
        ({
            let kind = v.text("kind"@);
            let medium = if kind == "image"@ {
                "图片"@
            } else if kind == "video"@ {
                "视频"@
            } else {
                "音频"@
            };
            let origin = if v.text("source"@) == "generated"@ {
                "生成结果"@
            } else {
                "本地导入"@
            };
            status_of(v, size) == medium + " · "@ + origin + " · "@ + detail_of(v, size)
        }),
{
}

/// A file of today is shown as of today, one of the day before as of
/// yesterday, any other with its date.
pub proof fn days_are_named(day: LocalDay)
    ensures
        day.days_ago == 0 ==> day_label(Some(day)) == "今天"@,
        day.days_ago == 1 ==> day_label(Some(day)) == "昨天"@,
        day.days_ago != 0 && day.days_ago != 1 ==> day_label(Some(day)) == day.date@,
{
}

/// What the picker offers can be used: it is not in the bin, its file is here,
/// its name holds what is searched for, and it is of the medium that is chosen
/// and, for a canvas or a picture model, a picture.
pub proof fn offered_files_can_be_used(
    page: PersonalView,
    picker: PickerView,
    mode: i32,
    labels: AssetLabels,
    k: int,
) -> (i: int)
    requires
        0 <= k < offered_rows(page, picker, mode, labels, page.assets.len()).len(),
    ensures
        0 <= i < page.assets.len(),
        ({
            let row = offered_rows(page, picker, mode, labels, page.assets.len())[k];
            let v = page.assets[i];
            &&& row.id == v.text("id"@) && row.name == v.text("name"@)
            &&& v.at("trashed"@) != JsonModel::Bool(true)
            &&& v.at("available"@) == JsonModel::Bool(true)
            &&& contains_text(lowercase(v.text("name"@)), lowercase(picker.personal_search))
            &&& picker.personal_filter == 1 ==> v.text("kind"@) == "image"@
            &&& picker.personal_filter == 2 ==> v.text("kind"@) == "video"@
            &&& picker.personal_filter == 3 ==> v.text("kind"@) == "audio"@
            &&& picker.open && picker.purpose == "canvas"@ ==> v.text("kind"@) == "image"@
            &&& picker.open && picker.purpose == "reference"@ && mode == 0 ==> v.text("kind"@)
                == "image"@
        }),
{
    purposes();
    media_differ();
    offered_so_far(page, picker, mode, labels, page.assets.len(), k)
}

proof fn offered_so_far(
    page: PersonalView,
    picker: PickerView,
    mode: i32,
    labels: AssetLabels,
    n: nat,
    k: int,
) -> (i: int)
    requires
        n <= page.assets.len(),
        0 <= k < offered_rows(page, picker, mode, labels, n).len(),
    ensures
        0 <= i < n,
        offered_in(picker, mode, page.assets[i]),
        offered_rows(page, picker, mode, labels, n)[k].id == page.assets[i].text("id"@),
        offered_rows(page, picker, mode, labels, n)[k].name == page.assets[i].text("name"@),
    decreases n,
{
    let before = offered_rows(page, picker, mode, labels, (n - 1) as nat);
    if k < before.len() {
        offered_so_far(page, picker, mode, labels, (n - 1) as nat, k)
    } else {
        n - 1
    }
}

/// What the picker is opened for is told apart.
proof fn purposes()
    ensures
        ""@.len() == 0,
        "import"@.len() == 6 && "import"@[0] == 'i',
        "canvas"@.len() == 6 && "canvas"@[0] == 'c',
        "reference"@.len() == 9,
{
    reveal_strlit("reference");
    reveal_strlit("import");
    reveal_strlit("canvas");
    reveal_strlit("");
}

/// The picker opens empty on the source that is asked for. It starts at
/// pictures where only pictures can be used, and at everything otherwise.
pub proof fn pickers_open_on_what_can_be_used(
    picker: PickerView,
    page: TeamView,
    purpose: Seq<char>,
    source: i32,
    mode: i32,
    signed_in: bool,
)
    ensures
        ({
            let (now, shown, steps) = picker_begun(picker, page, purpose, source, mode, signed_in);
            let pictures = purpose == "canvas"@ || (purpose == "reference"@ && mode == 0);
            &&& now.open && now.purpose == purpose && now.source == source
            &&& now.selected.len() == 0 && now.count == 0
            &&& now.personal_search.len() == 0 && now.team_search.len() == 0
            &&& pictures ==> now.personal_filter == 1 && now.team_filter == 1
            &&& !pictures ==> now.personal_filter == 0 && now.team_filter == 0
            &&& !shown.trash_open
            &&& source == 0 ==> (steps.last() matches StepView::Job(name, request) && name
                == "personal"@ && request.path == "local:library-list"@)
            &&& source != 0 && signed_in ==> (steps.last() matches StepView::Job(name, request)
                && name == "teams"@ && request.path == "/api/teams"@)
        }),
{
    purposes();
}

/// A click in the picker chooses what was not chosen, last in the order, and
/// lets go what was.
pub proof fn picker_clicks_choose(
    picker: PickerView,
    personal: Seq<JsonModel>,
    page: TeamView,
    id: Seq<char>,
    i: int,
)
    requires
        picker.open,
        picker.purpose != "canvas"@,
        picker.context == context_of(picker, page),
        picker.source == 0,
        0 <= i < personal.len(),
        personal[i].text("id"@) == id,
        personal[i].at("available"@) == JsonModel::Bool(true),
        !picker.selected.contains(id),
    ensures
        ({
            let (now, steps) = picker_toggled(picker, personal, page, id);
            &&& now.selected == picker.selected.push(id)
            &&& picker_toggled(now, personal, page, id).0.selected == picker.selected
        }),
{
    let p = crate::cloud::picker::available_is(id);
    assert(p(personal[i]));
    assert(any(personal, p));
    let now = picker_toggled(picker, personal, page, id).0;
    assert(now.selected.last() == id);
    assert(now.selected.contains(id));
    assert(context_of(now, page) == context_of(picker, page));
    crate::cloud::picker::clicking_twice_changes_nothing(picker.selected, id);
}

/// What the picker hands on is what was chosen, in its order: imported under
/// its name, or sent as a reference. The picker closes.
pub proof fn chosen_files_are_handed_on_in_order(
    picker: PickerView,
    facts: FactsView,
    queue: QueueView,
    batch: BatchView,
    k: int,
)
    requires
        picker.batch == Some(batch),
        batch_continued(picker, facts, queue).0.batch is None,
        !(batch_continued(picker, facts, queue).1.last() is Error),
        0 <= k < batch.items.len(),
    ensures
        ({
            let (now, steps) = batch_continued(picker, facts, queue);
            let item = batch.items[k];
            let step = steps[steps.len() - batch.items.len() + k];
            &&& !now.open && now.selected.len() == 0
            &&& steps.len() >= batch.items.len()
            &&& batch.purpose == "import"@ ==> step == StepView::ImportNamed(
                item.local_path,
                item.name,
            )
            &&& batch.purpose == "reference"@ ==> step == StepView::Upload(
                item.local_path,
                "generation_input"@,
            )
        }),
{
    purposes();
    let first = if batch.purpose == "import"@ {
        seq![StepView::Draw(Panel::Assets)]
    } else {
        seq![StepView::Draw(Panel::Assets), StepView::Page(1), StepView::GenerationStep(0)]
    };
    used_in_order(first, batch.purpose, batch.items, k);
}

proof fn used_in_order(
    first: Seq<StepView>,
    purpose: Seq<char>,
    items: Seq<SelectionView>,
    k: int,
)
    requires
        0 <= k < items.len(),
    ensures
        use_steps(first, purpose, items).len() == first.len() + items.len(),
        use_steps(first, purpose, items)[first.len() + k] == if purpose == "import"@ {
            StepView::ImportNamed(items[k].local_path, items[k].name)
        } else {
            StepView::Upload(items[k].local_path, "generation_input"@)
        },
    decreases items.len(),
{
    reveal_with_fuel(use_steps, 2);
    if k < items.len() - 1 {
        used_in_order(first, purpose, items.drop_last(), k);
    } else if items.len() > 1 {
        used_in_order(first, purpose, items.drop_last(), 0);
    } else {
        assert(items.drop_last().len() == 0);
    }
}

/// What is confirmed is what was chosen, one entry each and in order.
pub proof fn confirmed_choices_are_complete(picker: PickerView, facts: FactsView, k: int)
    requires
        picker.open,
        picker.purpose != "canvas"@,
        picker.context == context_of(picker, facts.page),
        picker.batch is None,
        picker_confirmed(picker, facts).0.batch is Some,
        0 <= k < picker.selected.len(),
    ensures
        ({
            let batch = picker_confirmed(picker, facts).0.batch->0;
            &&& batch.purpose == picker.purpose
            &&& batch.items.len() == picker.selected.len()
            &&& batch.items[k].id == picker.selected[k]
        }),
{
    let synced = crate::cloud::picker::picker_synced(picker, facts.page);
    chosen_in_order(synced, facts, synced.selected.len(), k);
}

proof fn chosen_in_order(picker: PickerView, facts: FactsView, n: nat, k: int)
    requires
        n <= picker.selected.len(),
    ensures
        choices(
            picker,
            facts.personal,
            facts.page,
            facts.local,
            facts.present,
            facts.folder,
            n,
        ) matches Ok(list) ==> list.len() == n && (0 <= k < n ==> list[k].id
            == picker.selected[k]),
    decreases n,
{
    if n > 0 {
        chosen_in_order(picker, facts, (n - 1) as nat, k);
    }
}

/// A change of many files lets the choice go, any other answer keeps it; the
/// files and folders are then those of the answer, and a dialog that waited
/// for it is closed.
pub proof fn answers_bring_the_files(page: PersonalView, value: JsonModel)
    ensures
        ({
            let listed = personal_answered(page, "personal"@, value).0;
            let moved = personal_answered(page, "personal-dialog-move"@, value).0;
            let bulk = personal_answered(page, "personal-bulk"@, value).0;
            &&& listed.assets == crate::cloud::requests::items_of(value)
            &&& listed.folders == value.list("folders"@)
            &&& listed.selected == page.selected && listed.dialog == page.dialog
            &&& bulk.selected.len() == 0 && bulk.assets == listed.assets
            &&& moved.selected.len() == 0 && moved.dialog == 0 && !moved.dialog_busy
        }),
{
    answers_differ();
    assert(Set::<Seq<char>>::empty().len() == 0);
    reveal_strlit("personal-dialog-");
    reveal_strlit("personal-dialog-move");
    assert("personal-dialog-move"@.subrange(0, 16) =~= "personal-dialog-"@);
}

/// The answers are told apart.
proof fn answers_differ()
    ensures
        "personal"@.len() == 8,
        "personal-bulk"@.len() == 13,
        "personal-cache"@.len() == 14,
        "personal-dialog-"@.len() == 16,
        "personal-drag-move"@.len() == 18,
        "personal-dialog-move"@.len() == 20,
{
    reveal_strlit("personal");
    reveal_strlit("personal-dialog-move");
    reveal_strlit("personal-bulk");
    reveal_strlit("personal-drag-move");
    reveal_strlit("personal-cache");
    reveal_strlit("personal-dialog-");
}

/// A row of the library shows its file: its name, its medium, whether it is
/// there, liked and chosen, and its picture.
pub proof fn rows_show_their_files(page: PersonalView, labels: AssetLabels, i: int)
    requires
        0 <= i < visible_order(page).len(),
    ensures
        ({
            let row = personal_rows(page, labels)[i];
            let v = page.assets[visible_order(page)[i] as int];
            &&& personal_rows(page, labels).len() == visible_order(page).len()
            &&& row.id == v.text("id"@) && row.name == v.text("name"@) && row.kind == v.text(
                "kind"@,
            )
            &&& row.ready <==> v.at("available"@) == JsonModel::Bool(true)
            &&& row.favorite <==> v.at("favorite"@) == JsonModel::Bool(true)
            &&& row.selected <==> page.selected.contains(v.text("id"@))
            &&& row.preview == v.text("thumbnail"@)
        }),
{
}

/// The folders are listed after all files and those in no folder, in the same
/// places that the filter counts them in; files are moved to no folder or to
/// one of them.
pub proof fn folders_are_listed_as_they_are_counted(page: PersonalView, v: JsonModel, k: int)
    requires
        0 <= k < page.folders.len(),
        page.folders.len() < i32::MAX - 2,
    ensures
        ({
            let all = folder_choices(page);
            let filtered = |n: int| in_folder(PersonalView { folder_filter: n as i32, ..page }, v);
            &&& all.len() == page.folders.len() + 2
            &&& all[0] == "全部素材"@ && filtered(0)
            &&& all[1] == "未分类"@ && (v.at("folder_id"@) is Null ==> filtered(1))
            &&& all[k + 2] == page.folders[k].text("name"@) && (page.folders[k].text("id"@)
                == v.text("folder_id"@) ==> filtered(k + 2))
            &&& move_choices(page).len() == page.folders.len() + 1 && move_choices(page)[0]
                == "未分类"@ && move_choices(page)[k + 1] == page.folders[k].text("name"@)
        }),
{
}

} // verus!
