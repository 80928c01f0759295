//! Pages, preferences and what changes of the form lead to.

use crate::cloud::auth::{navigation_decision, page_needs_account, page_of, NavigationDecision};
use crate::cloud::personal_actions::{library_job, personal_job};
use crate::cloud::requests::{identity_error, should_clear_identity_error_for_target};
use crate::cloud::steps::{
    fetch, fetching, none, one, step_if, step_views, then_do, Panel, Step, StepView,
};
use crate::json::{Json, JsonModel};
use crate::paths::{is_absolute, join_path, joined_path};
use crate::text::{has_prefix, same, starts_with};
use vstd::prelude::*;
use vstd::string::*;

verus! {

/// The steps that ask for the catalog of models.
pub open spec fn models_asked(signed_in: bool) -> Seq<StepView> {
    step_if(Seq::empty(), signed_in, fetch("models"@, "/api/generation/models"@))
}

pub fn refresh_models(signed_in: bool) -> (r: Vec<Step>)
    ensures
        step_views(r@) == models_asked(signed_in),
{
    let mut steps: Vec<Step> = none();
    if signed_in {
        then_do(&mut steps, fetching("models", "/api/generation/models"));
    }
    steps
}

/// The steps that open a page and ask for what it shows.
pub open spec fn page_steps(page: i32, signed_in: bool) -> Seq<StepView> {
    let shown = seq![StepView::Page(page)];
    if page == 5 {
        shown.push(library_job("list"@, JsonModel::Null))
    } else if page == 7 {
        step_if(
            shown.push(StepView::Draw(Panel::Templates)),
            signed_in,
            StepView::RefreshModels,
        )
    } else if page == 1 && signed_in {
        shown.push(StepView::RefreshModels).push(fetch("tasks"@, "/api/generation/tasks"@))
    } else if page == 2 {
        shown.push(fetch("teams"@, "/api/teams"@))
    } else if page == 3 {
        shown.push(fetch("plans"@, "/api/credit-plans"@)).push(
            fetch("wallet"@, "/api/wallet"@),
        ).push(fetch("orders"@, "/api/orders"@))
    } else {
        shown
    }
}

pub fn load_page(page: i32, signed_in: bool) -> (r: Vec<Step>)
    ensures
        step_views(r@) == page_steps(page, signed_in),
{
    let mut steps: Vec<Step> = one(Step::Page(page));
    if page == 5 {
        then_do(&mut steps, personal_job("list", Json::Null));
    } else if page == 7 {
        then_do(&mut steps, Step::Draw(Panel::Templates));
        if signed_in {
            then_do(&mut steps, Step::RefreshModels);
        }
    } else if page == 1 && signed_in {
        then_do(&mut steps, Step::RefreshModels);
        then_do(&mut steps, fetching("tasks", "/api/generation/tasks"));
    } else if page == 2 {
        then_do(&mut steps, fetching("teams", "/api/teams"));
    } else if page == 3 {
        then_do(&mut steps, fetching("plans", "/api/credit-plans"));
        then_do(&mut steps, fetching("wallet", "/api/wallet"));
        then_do(&mut steps, fetching("orders", "/api/orders"));
    }
    steps
}

/// The steps when the user goes to a page: one that needs an account asks for
/// it first.
pub open spec fn navigation_steps(
    current: i32,
    target: i32,
    signed_in: bool,
    error: Seq<char>,
) -> Seq<StepView> {
    let gallery = if target == 6 {
        seq![StepView::GalleryOpen(true), StepView::RefreshProjects]
    } else {
        Seq::empty()
    };
    step_if(
        gallery,
        (target == 0 || target == 5) && identity_error(error),
        StepView::Error(""@),
    ).push(
        if !signed_in && page_needs_account(page_of(target)) {
            StepView::ShowAuth(Some(page_of(target)))
        } else {
            StepView::LoadPage(page_of(target))
        },
    )
}

pub fn navigate(current: i32, target: i32, signed_in: bool, error: &str) -> (r: Vec<Step>)
    ensures
        step_views(r@) == navigation_steps(current, target, signed_in, error@),
{
    let mut steps: Vec<Step> = none();
    if target == 6 {
        then_do(&mut steps, Step::GalleryOpen(true));
        then_do(&mut steps, Step::RefreshProjects);
        proof {
            assert(step_views(steps@) =~= seq![
                StepView::GalleryOpen(true),
                StepView::RefreshProjects,
            ]);
        }
    }
    if should_clear_identity_error_for_target(target, error) {
        then_do(&mut steps, Step::Error("".to_owned()));
    }
    match navigation_decision(current, target, signed_in) {
        NavigationDecision::Open(page) => then_do(&mut steps, Step::LoadPage(page)),
        NavigationDecision::Authenticate { stay: _, target: page } => then_do(
            &mut steps,
            Step::ShowAuth(Some(page)),
        ),
    }
    steps
}

/// Whether the tasks are asked for now and then: while the generation page is
/// open and nothing else is asked for.
pub fn heartbeat(signed_in: bool, busy: bool, page: i32) -> (r: Vec<Step>)
    ensures
        step_views(r@) == step_if(
            Seq::empty(),
            signed_in && !busy && page == 1,
            fetch("tasks"@, "/api/generation/tasks"@),
        ),
{
    let mut steps: Vec<Step> = none();
    if signed_in && !busy && page == 1 {
        then_do(&mut steps, fetching("tasks", "/api/generation/tasks"));
    }
    steps
}

/// What is kept from one start to the next.
pub struct Preferences {
    /// Where files are brought to.
    pub folder: String,
    pub reduced_motion: bool,
    /// 0 or 1, or -1 where the user has not chosen yet.
    pub creator_mode: i32,
}

pub struct PreferencesView {
    pub folder: Seq<char>,
    pub reduced_motion: bool,
    pub creator_mode: i32,
}

impl View for Preferences {
    type V = PreferencesView;

    open spec fn view(&self) -> PreferencesView {
        PreferencesView {
            folder: self.folder@,
            reduced_motion: self.reduced_motion,
            creator_mode: self.creator_mode,
        }
    }
}

/// A number held between 0 and 1.
pub open spec fn zero_or_one(n: int) -> int {
    if n < 0 {
        0
    } else if n > 1 {
        1
    } else {
        n
    }
}

/// The preferences of a saved document; its folder counts where it is an
/// absolute one.
pub open spec fn preferences_of(saved: JsonModel, home: Seq<char>, absolute: bool) -> PreferencesView {
    PreferencesView {
        folder: match saved.at("folder"@).as_text() {
            Some(folder) => if absolute {
                folder
            } else {
                joined_path(home, "Movies/SeeCut"@)
            },
            None => joined_path(home, "Movies/SeeCut"@),
        },
        reduced_motion: saved.at("reduced_motion"@).as_bool() == Some(true),
        creator_mode: match saved.at("creator_mode"@).as_i64() {
            Some(n) => zero_or_one(n as int) as i32,
            None => (-1) as i32,
        },
    }
}

/// Reads the preferences of a saved document; `absolute` says of its folder
/// whether the machine takes it for an absolute one.
pub fn read_preferences_with(saved: &Json, home: &str, absolute: bool) -> (r: Preferences)
    ensures
        r@ == preferences_of(saved@, home@, absolute),
{
    let standard: String = join_path(home, "Movies/SeeCut");
    let folder: String = match saved.at("folder").as_text() {
        Some(folder) => if absolute {
            folder
        } else {
            standard
        },
        None => standard,
    };
    let reduced_motion: bool = match saved.at("reduced_motion").as_bool() {
        Some(b) => b,
        None => false,
    };
    let creator_mode: i32 = match saved.at("creator_mode").as_i64() {
        Some(n) => if n < 0 {
            0
        } else if n > 1 {
            1
        } else {
            n as i32
        },
        None => -1,
    };
    Preferences { folder, reduced_motion, creator_mode }
}

/// Reads the preferences of a saved document.
pub fn read_preferences(saved: &Json, home: &str) -> (r: Preferences)
    ensures
        exists|absolute: bool| r@ == #[trigger] preferences_of(saved@, home@, absolute),
{
    let absolute: bool = match saved.at("folder").as_text() {
        Some(folder) => is_absolute(folder.as_str()),
        None => false,
    };
    let r: Preferences = read_preferences_with(saved, home, absolute);
    proof {
        assert(r@ == preferences_of(saved@, home@, absolute));
    }
    r
}

/// The document that preferences are saved as.
pub open spec fn saved_preferences(p: PreferencesView) -> JsonModel {
    JsonModel::Object(
        seq![
            ("folder"@, JsonModel::Text(p.folder)),
            ("reduced_motion"@, JsonModel::Bool(p.reduced_motion)),
            ("creator_mode"@, crate::json::int_model(p.creator_mode as int)),
        ],
    )
}

pub fn save_preferences(p: &Preferences) -> (r: Json)
    ensures
        r@ == saved_preferences(p@),
{
    let mut fields: Vec<(String, Json)> = Vec::new();
    fields.push(("folder".to_owned(), Json::from_text(p.folder.as_str())));
    fields.push(("reduced_motion".to_owned(), Json::from_bool(p.reduced_motion)));
    fields.push(("creator_mode".to_owned(), Json::from_int(p.creator_mode as i64)));
    let r: Json = Json::from_members(fields);
    proof {
        assert(r@->Object_0 =~= saved_preferences(p@)->Object_0);
    }
    r
}

/// A field of the form that a quote depends on.
pub open spec fn is_quoted_field(field: Seq<char>) -> bool {
    ||| field == "mode"@
    ||| field == "model"@
    ||| field == "prompt"@
    ||| field == "ratio"@
    ||| field == "resolution"@
    ||| field == "quality"@
    ||| field == "duration"@
    ||| field == "generate-audio"@
    ||| field == "quantity"@
}

fn quoted_field(field: &str) -> (r: bool)
    ensures
        r == is_quoted_field(field@),
{
    same(field, "mode") || same(field, "model") || same(field, "prompt") || same(field, "ratio")
        || same(field, "resolution") || same(field, "quality") || same(field, "duration") || same(
        field,
        "generate-audio",
    ) || same(field, "quantity")
}

/// A field that the list of team files depends on.
pub open spec fn is_asset_field(field: Seq<char>) -> bool {
    ||| field == "asset-search"@
    ||| field == "asset-filter"@
    ||| field == "asset-picker-team-search"@
    ||| field == "asset-picker-team-filter"@
    ||| field == "asset-picker-purpose"@
}

/// A field that changes what the personal library shows, so that the choice is
/// dropped.
pub open spec fn is_view_field(field: Seq<char>) -> bool {
    ||| field == "personal-selection-mode"@
    ||| field == "personal-trash"@
    ||| field == "personal-folder-filter"@
    ||| field == "personal-search"@
    ||| field == "personal-filter"@
    ||| field == "personal-source"@
    ||| field == "personal-favorites"@
}

fn view_field(field: &str) -> (r: bool)
    ensures
        r == is_view_field(field@),
{
    same(field, "personal-selection-mode") || same(field, "personal-trash") || same(
        field,
        "personal-folder-filter",
    ) || same(field, "personal-search") || same(field, "personal-filter") || same(
        field,
        "personal-source",
    ) || same(field, "personal-favorites")
}

/// The steps of a change of the form itself.
pub open spec fn form_steps(field: Seq<char>, signed_in: bool) -> Seq<StepView> {
    let s1 = step_if(Seq::empty(), field == "reduced-motion"@, StepView::SavePreferences);
    let s2 = step_if(s1, field == "mode"@ || field == "model"@, StepView::UpdateOptions);
    let s3 = step_if(
        s2,
        field == "prompt"@ || field == "prompt-cursor"@,
        StepView::UpdateMention,
    );
    step_if(s3, is_quoted_field(field) && signed_in, StepView::RefreshQuote)
}

/// The steps of a change of the lists of files.
pub open spec fn list_steps(
    first: Seq<StepView>,
    field: Seq<char>,
    picker_open: bool,
    picker_source: i32,
) -> Seq<StepView> {
    let s1 = step_if(first, field == "team"@, StepView::TeamChanged);
    let s2 = step_if(s1, is_asset_field(field), StepView::Draw(Panel::Assets));
    let s3 = if field == "asset-picker-purpose"@ {
        s2.push(StepView::SyncPicker).push(StepView::Draw(Panel::Personal))
    } else {
        s2
    };
    let s4 = if field == "team"@ && picker_open && picker_source == 1 {
        s3.push(StepView::SyncPicker).push(StepView::Draw(Panel::Assets))
    } else {
        s3
    };
    if has_prefix(field, "personal-"@) || field == "asset-picker-personal-filter"@ {
        step_if(s4, is_view_field(field), StepView::ClearChoice).push(
            StepView::Draw(Panel::Personal),
        )
    } else {
        s4
    }
}

/// The steps when a field has been changed; while the lists of the form are
/// being updated, a change is not the user's and leads to nothing.
pub open spec fn change_steps(
    field: Seq<char>,
    updating: bool,
    signed_in: bool,
    picker_open: bool,
    picker_source: i32,
) -> Seq<StepView> {
    if updating {
        Seq::empty()
    } else {
        list_steps(form_steps(field, signed_in), field, picker_open, picker_source)
    }
}

fn add_list_steps(steps: &mut Vec<Step>, field: &str, picker_open: bool, picker_source: i32)
    ensures
        step_views(final(steps)@) == list_steps(
            step_views(old(steps)@),
            field@,
            picker_open,
            picker_source,
        ),
{
    if same(field, "team") {
        then_do(steps, Step::TeamChanged);
    }
    if same(field, "asset-search") || same(field, "asset-filter") || same(
        field,
        "asset-picker-team-search",
    ) || same(field, "asset-picker-team-filter") || same(field, "asset-picker-purpose") {
        then_do(steps, Step::Draw(Panel::Assets));
    }
    if same(field, "asset-picker-purpose") {
        then_do(steps, Step::SyncPicker);
        then_do(steps, Step::Draw(Panel::Personal));
    }
    if same(field, "team") && picker_open && picker_source == 1 {
        then_do(steps, Step::SyncPicker);
        then_do(steps, Step::Draw(Panel::Assets));
    }
    if starts_with(field, "personal-") || same(field, "asset-picker-personal-filter") {
        if view_field(field) {
            then_do(steps, Step::ClearChoice);
        }
        then_do(steps, Step::Draw(Panel::Personal));
    }
}

/// A field has been changed.
pub fn field_changed(
    field: &str,
    updating: bool,
    signed_in: bool,
    picker_open: bool,
    picker_source: i32,
) -> (r: Vec<Step>)
    ensures
        step_views(r@) == change_steps(field@, updating, signed_in, picker_open, picker_source),
{
    let mut steps: Vec<Step> = none();
    if updating {
        return steps;
    }
    if same(field, "reduced-motion") {
        then_do(&mut steps, Step::SavePreferences);
    }
    if same(field, "mode") || same(field, "model") {
        then_do(&mut steps, Step::UpdateOptions);
    }
    if same(field, "prompt") || same(field, "prompt-cursor") {
        then_do(&mut steps, Step::UpdateMention);
    }
    if quoted_field(field) && signed_in {
        then_do(&mut steps, Step::RefreshQuote);
    }
    add_list_steps(&mut steps, field, picker_open, picker_source);
    steps
}

/// Preferences that are saved are read again as they were, where their folder
/// is taken for an absolute one and the mode is one that can be chosen.
pub proof fn preferences_survive(p: PreferencesView, home: Seq<char>)
    requires
        p.creator_mode == 0 || p.creator_mode == 1,
    ensures
        preferences_of(saved_preferences(p), home, true) == p,
{
    let saved = saved_preferences(p);
    let entries = saved->Object_0;
    reveal_strlit("folder");
    reveal_strlit("reduced_motion");
    reveal_strlit("creator_mode");
    assert("folder"@.len() == 6);
    assert("reduced_motion"@.len() == 14);
    assert("creator_mode"@.len() == 12);
    reveal_with_fuel(crate::json::lookup, 4);
    assert(saved.at("folder"@) == JsonModel::Text(p.folder));
    assert(saved.at("reduced_motion"@) == JsonModel::Bool(p.reduced_motion));
    assert(saved.at("creator_mode"@) == crate::json::int_model(p.creator_mode as int));
}

} // verus!
