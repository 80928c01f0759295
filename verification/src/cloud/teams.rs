//! Teams and their files.

use crate::cloud::requests::{items, items_of};
use crate::cloud::rows::{entry_views, AccountEntry, EntryView};
use crate::cloud::steps::{
    fetch, fetching, none, one, step_if, step_views, then_do, Panel, Step, StepView,
};
use crate::json::{models, Json, JsonModel};
use crate::text::{cat, cat3, same, views};
use vstd::prelude::*;
use vstd::string::*;

verus! {

/// The teams of the user and the page of their files.
pub struct TeamPage {
    pub teams: Vec<Json>,
    pub names: Vec<String>,
    /// The place of the chosen team.
    pub index: i32,
    /// Whether the chosen team is the user's own.
    pub owner: bool,
    pub trash_open: bool,
    pub assets: Vec<Json>,
    /// The request that the list of files answers.
    pub assets_context: String,
    pub search: String,
    pub filter: i32,
    pub invite_id: String,
    pub invite_url: String,
    pub invite_detail: String,
}

pub struct TeamView {
    pub teams: Seq<JsonModel>,
    pub names: Seq<Seq<char>>,
    pub index: i32,
    pub owner: bool,
    pub trash_open: bool,
    pub assets: Seq<JsonModel>,
    pub assets_context: Seq<char>,
    pub search: Seq<char>,
    pub filter: i32,
    pub invite_id: Seq<char>,
    pub invite_url: Seq<char>,
    pub invite_detail: Seq<char>,
}

impl View for TeamPage {
    type V = TeamView;

    open spec fn view(&self) -> TeamView {
        TeamView {
            teams: models(self.teams@),
            names: views(self.names@),
            index: self.index,
            owner: self.owner,
            trash_open: self.trash_open,
            assets: models(self.assets@),
            assets_context: self.assets_context@,
            search: self.search@,
            filter: self.filter,
            invite_id: self.invite_id@,
            invite_url: self.invite_url@,
            invite_detail: self.invite_detail@,
        }
    }
}

/// The identity of the chosen team, empty where there is none.
pub open spec fn team_of(page: TeamView) -> Seq<char> {
    let i = if page.index < 0 {
        0
    } else {
        page.index as int
    };
    if i < page.teams.len() {
        page.teams[i].text("id"@)
    } else {
        ""@
    }
}

pub fn team_id(page: &TeamPage) -> (r: String)
    ensures
        r@ == team_of(page@),
{
    let i: usize = if page.index < 0 {
        0
    } else {
        page.index as usize
    };
    if i < page.teams.len() {
        page.teams[i].text("id")
    } else {
        "".to_owned()
    }
}

/// The request for the files of a team.
pub open spec fn assets_path(team: Seq<char>, trash: bool) -> Seq<char> {
    "/api/teams/"@ + team + "/assets?trash="@ + if trash {
        "true"@
    } else {
        "false"@
    }
}

pub fn asset_request(team: &str, trash: bool) -> (r: String)
    ensures
        r@ == assets_path(team@, trash),
{
    cat(
        cat3("/api/teams/", team, "/assets?trash=").as_str(),
        if trash {
            "true"
        } else {
            "false"
        },
    )
}

/// Takes a list of files where it answers the expected request; a list that
/// answers another is left alone.
pub fn accept_asset_list(page: &mut TeamPage, value: &Json, expected: &str) -> (r: bool)
    ensures
        r == (value@.text("client_assets_context"@) == expected@),
        final(page)@ == if r {
            TeamView { assets: items_of(value@), assets_context: expected@, ..old(page)@ }
        } else {
            old(page)@
        },
{
    if !value.text_is("client_assets_context", expected) {
        return false;
    }
    page.assets_context = expected.to_owned();
    page.assets = items(value);
    true
}

/// The page and the steps when the files of the chosen team are asked for: the
/// files of another request are no longer shown.
pub open spec fn assets_refreshed(page: TeamView, signed_in: bool) -> (TeamView, Seq<StepView>) {
    let context = assets_path(team_of(page), page.trash_open);
    let stale = page.assets_context != context;
    if !signed_in {
        (page, Seq::empty())
    } else {
        (
            if stale {
                TeamView { assets: Seq::empty(), assets_context: context, ..page }
            } else {
                page
            },
            step_if(
                step_if(Seq::empty(), stale, StepView::Draw(Panel::Assets)),
                team_of(page).len() > 0,
                fetch("assets"@, context),
            ),
        )
    }
}

pub fn refresh_assets(page: &mut TeamPage, signed_in: bool) -> (r: Vec<Step>)
    ensures
        (final(page)@, step_views(r@)) == assets_refreshed(old(page)@, signed_in),
{
    let mut steps: Vec<Step> = none();
    if !signed_in {
        return steps;
    }
    let id: String = team_id(page);
    let context: String = asset_request(id.as_str(), page.trash_open);
    if !same(page.assets_context.as_str(), context.as_str()) {
        page.assets = Vec::new();
        page.assets_context = context.clone();
        proof {
            assert(models(page.assets@) =~= Seq::empty());
        }
        then_do(&mut steps, Step::Draw(Panel::Assets));
    }
    if !id.as_str().is_empty() {
        then_do(&mut steps, fetching("assets", context.as_str()));
    }
    steps
}

/// The names of a list of documents.
pub open spec fn names_in(list: Seq<JsonModel>) -> Seq<Seq<char>> {
    Seq::new(list.len(), |i: int| list[i].text("name"@))
}

pub fn list_names(list: &Vec<Json>) -> (r: Vec<String>)
    ensures
        views(r@) == names_in(models(list@)),
{
    let mut out: Vec<String> = Vec::new();
    let mut i: usize = 0;
    while i < list.len()
        invariant
            i <= list.len(),
            out@.len() == i,
            forall|j: int| 0 <= j < i ==> (#[trigger] out@[j])@ == models(list@)[j].text("name"@),
        decreases list.len() - i,
    {
        out.push(list[i].text("name"));
        i = i + 1;
    }
    proof {
        assert(views(out@) =~= names_in(models(list@)));
    }
    out
}

/// The page and the steps when the list of teams has come: the first team is
/// chosen.
pub open spec fn teams_answered(page: TeamView, value: JsonModel) -> (TeamView, Seq<StepView>) {
    let teams = items_of(value);
    let listed = TeamView { teams, names: names_in(teams), ..page };
    if teams.len() == 0 {
        (listed, Seq::empty())
    } else {
        (
            TeamView { index: 0, owner: teams[0].text("role"@) == "owner"@, ..listed },
            seq![StepView::RefreshAssets],
        )
    }
}

pub fn teams_listed(page: &mut TeamPage, value: &Json) -> (r: Vec<Step>)
    ensures
        (final(page)@, step_views(r@)) == teams_answered(old(page)@, value@),
{
    page.teams = items(value);
    page.names = list_names(&page.teams);
    if page.teams.len() == 0 {
        return none();
    }
    page.index = 0;
    page.owner = page.teams[0].text_is("role", "owner");
    one(Step::RefreshAssets)
}

/// The chosen team.
pub open spec fn chosen_team(page: TeamView) -> JsonModel {
    let i = if page.index < 0 {
        0
    } else {
        page.index as int
    };
    if i < page.teams.len() {
        page.teams[i]
    } else {
        JsonModel::Null
    }
}

/// Another team has been chosen: its files are asked for, and an invitation to
/// the one before is no longer shown.
pub fn team_changed(page: &mut TeamPage) -> (r: Vec<Step>)
    ensures
        final(page)@ == (TeamView {
            owner: chosen_team(old(page)@).text("role"@) == "owner"@,
            invite_id: ""@,
            invite_url: ""@,
            ..old(page)@
        }),
        step_views(r@) == seq![StepView::RefreshAssets],
{
    let i: usize = if page.index < 0 {
        0
    } else {
        page.index as usize
    };
    page.owner = if i < page.teams.len() {
        page.teams[i].text_is("role", "owner")
    } else {
        Json::Null.text_is("role", "owner")
    };
    page.invite_id = "".to_owned();
    page.invite_url = "".to_owned();
    one(Step::RefreshAssets)
}

/// The page with a new invitation.
pub fn invited(page: &mut TeamPage, value: &Json)
    ensures
        final(page)@ == (TeamView {
            invite_id: value@.text("id"@),
            invite_url: value@.text("invite_url"@),
            invite_detail: "24 小时内有效，仅可使用一次"@,
            ..old(page)@
        }),
{
    page.invite_id = value.text("id");
    page.invite_url = value.text("invite_url");
    page.invite_detail = "24 小时内有效，仅可使用一次".to_owned();
}

/// The page without an invitation.
pub fn invite_revoked(page: &mut TeamPage)
    ensures
        final(page)@ == (TeamView { invite_id: ""@, invite_url: ""@, ..old(page)@ }),
{
    page.invite_id = "".to_owned();
    page.invite_url = "".to_owned();
}

/// The row of a member.
pub open spec fn member_row(v: JsonModel) -> EntryView {
    EntryView {
        id: v.text("id"@),
        title: v.text("email"@),
        detail: ""@,
        value: if v.text("role"@) == "owner"@ {
            "创建者"@
        } else {
            "成员"@
        },
    }
}

pub open spec fn member_rows(value: JsonModel) -> Seq<EntryView> {
    Seq::new(items_of(value).len(), |i: int| member_row(items_of(value)[i]))
}

/// The rows of the members of a team.
pub fn list_members(value: &Json) -> (r: Vec<AccountEntry>)
    ensures
        entry_views(r@) == member_rows(value@),
{
    let list: Vec<Json> = items(value);
    let mut out: Vec<AccountEntry> = Vec::new();
    let mut i: usize = 0;
    while i < list.len()
        invariant
            i <= list.len(),
            models(list@) == items_of(value@),
            out@.len() == i,
            forall|j: int| 0 <= j < i ==> (#[trigger] out@[j])@ == member_row(models(list@)[j]),
        decreases list.len() - i,
    {
        let role: &'static str = if list[i].text_is("role", "owner") {
            "创建者"
        } else {
            "成员"
        };
        out.push(
            AccountEntry {
                id: list[i].text("id"),
                title: list[i].text("email"),
                detail: "".to_owned(),
                value: role.to_owned(),
            },
        );
        i = i + 1;
    }
    proof {
        assert(entry_views(out@) =~= member_rows(value@));
    }
    out
}

/// The request for the members of the chosen team.
pub fn members_request(page: &TeamPage) -> (r: Step)
    ensures
        r@ == fetch("members"@, "/api/teams/"@ + team_of(page@) + "/members"@),
{
    let id: String = team_id(page);
    fetching("members", cat3("/api/teams/", id.as_str(), "/members").as_str())
}

/// After a refresh the files that are shown are those of the open team and
/// bin: files of another request are dropped at once, before the answer comes.
pub proof fn shown_assets_belong_to_the_open_team(page: TeamView)
    ensures
        ({
            let after = assets_refreshed(page, true).0;
            &&& after.assets_context == assets_path(team_of(after), after.trash_open)
            &&& after.assets == page.assets || after.assets.len() == 0
            &&& page.assets_context != after.assets_context ==> after.assets.len() == 0
        }),
{
}

} // verus!
