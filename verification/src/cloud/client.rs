//! The whole state of the client, and what the answers of the service and of
//! the local workers do to it.

use crate::cloud::account::{
    capabilities_answered, capabilities_listed, ledger_rows, list_ledger, orders_answered,
    orders_listed, plans_answered, plans_listed, wallet_answered, wallet_listed, Account, AccountView,
};
use crate::cloud::auth::{
    auth_return_target, email_notice, email_told, page_of, quieted, switch_auth, switched, AuthForm,
    AuthView,
};
use crate::cloud::catalog::{
    current_remembered, options_updated, remember_current_model_draft,
    update_model_options_preserving_catalog, Catalog, CatalogView, FormView,
};
use crate::cloud::export_copy::{
    complete_size, completed_bytes, export_answered, export_copied, opt_export, with_texts,
    ExportCopyJob, ExportPanel, ExportView, PanelView,
};
use crate::cloud::generation::{accept_quote, quote_answered, QuoteView};
use crate::cloud::imports::{Transfers, TransfersView};
use crate::cloud::intents::{pair_views, Intents, IntentsView};
use crate::cloud::mentions::PromptView;
use crate::cloud::personal::{personal_answered, personal_listed, PersonalPage, PersonalView};
use crate::cloud::personal_actions::{library_job, personal_job, single};
use crate::cloud::picker::{
    batch_with_path, picker_fault, selection_views, set_picker_batch_path,
    validate_picker_reference_selection, Picker, PickerSelection, PickerView, SelectionView,
};
use crate::cloud::preview::{MediaPreview, PreviewView};
use crate::cloud::references::{kind_of_path, reference_kind};
use crate::cloud::requests::{items, items_of, JobQueue, QueueView};
use crate::cloud::results::{from_path, plain_imports};
use crate::cloud::rows::{entry_views, AccountEntry};
use crate::cloud::steps::{
    ask, asking, fail, fetch, fetching, none, one, step_if, step_views, then_all, then_do, Panel,
    Step, StepView,
};
use crate::cloud::studio::{Studio, StudioView};
use crate::cloud::submissions::{generation_answered, generation_listed};
use crate::cloud::tasks::{
    tasks_answered, tasks_listed, tasks_trashed, TaskList, TaskListView,
};
use crate::cloud::teams::{
    accept_asset_list, asset_request, assets_path, invite_revoked, invited, list_members,
    member_rows, members_request, team_id, team_of, teams_answered, teams_listed, TeamPage,
    TeamView,
};
use crate::cloud::templates::{refill_inputs, refill_task};
use crate::cloud::uploads::{are_objects, reference_answered, reference_uploaded};
use crate::collections::TextSet;
use crate::json::{members, models, Json, JsonModel};
use crate::text::{
    cat, has_prefix, same, starts_with, trim_prefixes, trim_start_text, to_uppercase, uppercase,
    views,
};
use vstd::prelude::*;
use vstd::string::*;

verus! {

/// The state of the client.
pub struct Client {
    pub studio: Studio,
    pub auth: AuthForm,
    /// The page that is opened after the sign-in.
    pub return_page: Option<i32>,
    pub queue: JobQueue,
    pub tasks: TaskList,
    pub team: TeamPage,
    pub personal: PersonalPage,
    pub picker: Picker,
    pub intents: Intents,
    pub panel: ExportPanel,
    pub export: Option<ExportCopyJob>,
    pub account: Account,
    pub preview: MediaPreview,
    pub transfers: Transfers,
    /// The result that a team is asked for.
    pub save_team_task: String,
}

pub struct ClientView {
    pub studio: StudioView,
    pub auth: AuthView,
    pub return_page: Option<i32>,
    pub queue: QueueView,
    pub tasks: TaskListView,
    pub team: TeamView,
    pub personal: PersonalView,
    pub picker: PickerView,
    pub intents: IntentsView,
    pub panel: PanelView,
    pub export: Option<ExportView>,
    pub account: AccountView,
    pub preview: PreviewView,
    pub transfers: TransfersView,
    pub save_team_task: Seq<char>,
}

impl View for Client {
    type V = ClientView;

    open spec fn view(&self) -> ClientView {
        ClientView {
            studio: self.studio@,
            auth: self.auth@,
            return_page: self.return_page,
            queue: self.queue@,
            tasks: self.tasks@,
            team: self.team@,
            personal: self.personal@,
            picker: self.picker@,
            intents: self.intents@,
            panel: self.panel@,
            export: opt_export(self.export),
            account: self.account@,
            preview: self.preview@,
            transfers: self.transfers@,
            save_team_task: self.save_team_task@,
        }
    }
}

/// A reference that has to be uploaded again because the session has changed.
pub open spec fn expired(reference: JsonModel) -> JsonModel {
    reference.with("id"@, JsonModel::Null).with("status"@, JsonModel::Text("expired"@)).with(
        "error"@,
        JsonModel::Text("登录状态已变化，请重新上传"@),
    )
}

pub open spec fn all_expired(references: Seq<JsonModel>) -> Seq<JsonModel> {
    Seq::new(references.len(), |i: int| expired(references[i]))
}

fn expire_all(references: &mut Vec<Json>)
    requires
        are_objects(models(old(references)@)),
    ensures
        models(final(references)@) == all_expired(models(old(references)@)),
{
    let ghost before = models(references@);
    let mut out: Vec<Json> = Vec::new();
    let mut i: usize = 0;
    while i < references.len()
        invariant
            i <= references.len(),
            before == models(references@),
            are_objects(before),
            out@.len() == i,
            forall|j: int| 0 <= j < i ==> (#[trigger] out@[j])@ == expired(before[j]),
        decreases references.len() - i,
    {
        proof {
            assert(before[i as int] is Object);
        }
        let mut one_reference: Json = references[i].copy().with("id", Json::Null);
        one_reference = one_reference.with("status", Json::from_text("expired"));
        one_reference = one_reference.with(
            "error",
            Json::from_text("登录状态已变化，请重新上传"),
        );
        out.push(one_reference);
        i = i + 1;
    }
    *references = out;
    proof {
        assert(models(references@) =~= all_expired(before));
    }
}

/// The studio without a session.
pub open spec fn studio_cleared(studio: StudioView, keep: bool) -> StudioView {
    StudioView {
        form: FormView { recovery_warning: ""@, ..studio.form },
        prompt: PromptView { mention_open: false, ..studio.prompt },
        catalog: CatalogView {
            models: Seq::empty(),
            selected_image: None,
            selected_video: None,
            parameter_drafts: Seq::empty(),
            generation_mode: None,
            updating_model_options: false,
            unavailable_model_id: None,
            unavailable_model_kind: None,
        },
        quote: QuoteView {
            id: ""@,
            credits: None,
            text: ""@,
            insufficient: false,
            can_generate: false,
            reference_error: if keep && studio.references.len() > 0 {
                "登录状态已变化，请逐项重传参考素材"@
            } else {
                ""@
            },
            ..studio.quote
        },
        references: if keep {
            all_expired(studio.references)
        } else {
            Seq::empty()
        },
        submission: None,
        signed_in: false,
        ..studio
    }
}

fn clear_studio(studio: &mut Studio, keep: bool)
    requires
        are_objects(old(studio)@.references),
    ensures
        final(studio)@ == studio_cleared(old(studio)@, keep),
{
    let had: bool = studio.references.len() > 0;
    proof {
        assert(models(studio.references@).len() == studio.references@.len());
    }
    studio.form.recovery_warning = "".to_owned();
    studio.prompt.mention_open = false;
    studio.catalog = Catalog {
        models: Vec::new(),
        selected_image: None,
        selected_video: None,
        parameter_drafts: Vec::new(),
        generation_mode: None,
        updating_model_options: false,
        unavailable_model_id: None,
        unavailable_model_kind: None,
    };
    studio.quote.id = "".to_owned();
    studio.quote.credits = None;
    studio.quote.text = "".to_owned();
    studio.quote.insufficient = false;
    studio.quote.can_generate = false;
    studio.quote.reference_error = (if keep && had {
        "登录状态已变化，请逐项重传参考素材"
    } else {
        ""
    }).to_owned();
    if keep {
        expire_all(&mut studio.references);
    } else {
        studio.references = Vec::new();
    }
    studio.submission = None;
    studio.signed_in = false;
    proof {
        assert(models(studio.catalog.models@) =~= Seq::empty());
        assert(members(studio.catalog.parameter_drafts@) =~= Seq::empty());
        if !keep {
            assert(models(studio.references@) =~= Seq::empty());
        }
    }
}

/// The tasks without a session.
pub open spec fn tasks_cleared(list: TaskListView) -> TaskListView {
    TaskListView {
        tasks: Seq::empty(),
        local: Map::empty(),
        snapshots: Map::empty(),
        references: Set::empty(),
        attempts: Set::empty(),
        selected_task: (-1) as i32,
        ..list
    }
}

fn clear_tasks(list: &mut TaskList)
    ensures
        final(list)@ == tasks_cleared(old(list)@),
{
    list.tasks = Vec::new();
    list.local.clear();
    list.snapshots.clear();
    list.references.clear();
    list.attempts.clear();
    list.selected_task = -1;
    proof {
        assert(models(list.tasks@) =~= Seq::empty());
    }
}

/// The teams without a session.
pub open spec fn team_cleared(page: TeamView) -> TeamView {
    TeamView {
        teams: Seq::empty(),
        names: Seq::empty(),
        index: (-1) as i32,
        assets: Seq::empty(),
        assets_context: ""@,
        invite_url: ""@,
        ..page
    }
}

fn clear_team(page: &mut TeamPage)
    ensures
        final(page)@ == team_cleared(old(page)@),
{
    page.teams = Vec::new();
    page.names = Vec::new();
    page.index = -1;
    page.assets = Vec::new();
    page.assets_context = "".to_owned();
    page.invite_url = "".to_owned();
    proof {
        assert(models(page.teams@) =~= Seq::empty());
        assert(views(page.names@) =~= Seq::empty());
        assert(models(page.assets@) =~= Seq::empty());
    }
}

/// The picker without a session.
pub open spec fn picker_cleared(picker: PickerView, keep: bool) -> PickerView {
    if keep {
        PickerView { count: 0, ..picker }
    } else {
        PickerView {
            count: 0,
            selected: Seq::empty(),
            context: ""@,
            batch: None,
            open: false,
            ..picker
        }
    }
}

fn clear_picker(picker: &mut Picker, keep: bool)
    ensures
        final(picker)@ == picker_cleared(old(picker)@, keep),
{
    picker.count = 0;
    if !keep {
        picker.selected = Vec::new();
        picker.context = "".to_owned();
        picker.batch = None;
        picker.open = false;
        proof {
            assert(views(picker.selected@) =~= Seq::empty());
        }
    }
}

/// No intents.
pub open spec fn no_intents() -> IntentsView {
    IntentsView {
        references: Seq::empty(),
        team_picker: false,
        template_id: None,
        refill_id: None,
    }
}

fn clear_intents(intents: &mut Intents)
    ensures
        final(intents)@ == no_intents(),
{
    intents.references = Vec::new();
    intents.team_picker = false;
    intents.template_id = None;
    intents.refill_id = None;
    proof {
        assert(pair_views(intents.references@) =~= Seq::empty());
    }
}

/// The queue without a session: what runs belongs to the session before.
pub open spec fn queue_cleared(queue: QueueView) -> QueueView {
    QueueView {
        busy: false,
        active_name: ""@,
        pending: Seq::empty(),
        epoch: (queue.epoch + 1) as u64,
        auth_busy: false,
        working: false,
    }
}

/// The account without a session.
pub open spec fn account_cleared(account: AccountView) -> AccountView {
    AccountView {
        token: ""@,
        email: ""@,
        label: "?"@,
        balance: "--"@,
        credits: None,
        frozen: "--"@,
        orders: Seq::empty(),
        snapshot_name: ""@,
        ..account
    }
}

fn clear_account(account: &mut Account)
    ensures
        final(account)@ == account_cleared(old(account)@),
{
    account.token = "".to_owned();
    account.email = "".to_owned();
    account.label = "?".to_owned();
    account.balance = "--".to_owned();
    account.credits = None;
    account.frozen = "--".to_owned();
    account.orders = Vec::new();
    account.snapshot_name = "".to_owned();
    proof {
        assert(models(account.orders@) =~= Seq::empty());
    }
}

/// The client without a session; `keep` says whether what the user meant to do
/// is kept.
pub open spec fn session_cleared(c: ClientView, keep: bool) -> ClientView {
    ClientView {
        studio: studio_cleared(c.studio, keep),
        auth: AuthView { token: ""@, password: ""@, password_confirm: ""@, ..c.auth },
        return_page: if keep {
            c.return_page
        } else {
            None
        },
        queue: queue_cleared(c.queue),
        tasks: tasks_cleared(c.tasks),
        team: team_cleared(c.team),
        picker: picker_cleared(c.picker, keep),
        intents: if keep {
            c.intents
        } else {
            no_intents()
        },
        account: account_cleared(c.account),
        preview: PreviewView {
            token: c.preview.token.wrapping_add(1),
            open: false,
            loading: false,
            error: ""@,
            ..c.preview
        },
        save_team_task: ""@,
        ..c
    }
}

/// The steps that show that a session has ended: the rows of the account go,
/// and the lists are drawn as they are left.
pub open spec fn cleared_steps() -> Seq<StepView> {
    seq![
        StepView::Draw(Panel::Tasks),
        StepView::Draw(Panel::Assets),
        StepView::Draw(Panel::References),
        StepView::Members(Seq::empty()),
        StepView::Ledger(Seq::empty()),
        StepView::Draw(Panel::Orders),
    ]
}

fn show_cleared() -> (r: Vec<Step>)
    ensures
        step_views(r@) == cleared_steps(),
{
    let nobody: Vec<AccountEntry> = Vec::new();
    let nothing: Vec<AccountEntry> = Vec::new();
    proof {
        assert(entry_views(nobody@) =~= Seq::empty());
        assert(entry_views(nothing@) =~= Seq::empty());
    }
    let mut steps: Vec<Step> = one(Step::Draw(Panel::Tasks));
    then_do(&mut steps, Step::Draw(Panel::Assets));
    then_do(&mut steps, Step::Draw(Panel::References));
    then_do(&mut steps, Step::Members(nobody));
    then_do(&mut steps, Step::Ledger(nothing));
    then_do(&mut steps, Step::Draw(Panel::Orders));
    proof {
        assert(step_views(steps@) =~= cleared_steps());
    }
    steps
}

/// What always holds of a client: its references are objects.
pub open spec fn is_sound(c: ClientView) -> bool {
    are_objects(c.studio.references)
}

/// Ends the session.
pub fn clear_session(c: &mut Client, keep: bool) -> (r: Vec<Step>)
    requires
        is_sound(old(c)@),
        old(c).queue.epoch < u64::MAX,
    ensures
        final(c)@ == session_cleared(old(c)@, keep),
        step_views(r@) == cleared_steps(),
        is_sound(final(c)@),
{
    clear_studio(&mut c.studio, keep);
    c.auth.token = "".to_owned();
    c.auth.password = "".to_owned();
    c.auth.password_confirm = "".to_owned();
    if !keep {
        c.return_page = None;
        clear_intents(&mut c.intents);
    }
    c.queue = JobQueue {
        busy: false,
        active_name: "".to_owned(),
        pending: Vec::new(),
        epoch: c.queue.epoch + 1,
        auth_busy: false,
        working: false,
    };
    proof {
        assert(crate::cloud::requests::job_views(c.queue.pending@) =~= Seq::empty());
    }
    clear_tasks(&mut c.tasks);
    clear_team(&mut c.team);
    clear_picker(&mut c.picker, keep);
    clear_account(&mut c.account);
    c.preview.token = c.preview.token.wrapping_add(1);
    c.preview.open = false;
    c.preview.loading = false;
    c.preview.error = "".to_owned();
    c.save_team_task = "".to_owned();
    show_cleared()
}

/// The letter that stands for the user.
pub open spec fn initial(email: Seq<char>) -> Seq<char> {
    uppercase(
        if email.len() > 0 {
            email[0]
        } else {
            '?'
        },
    )
}

fn make_initial(email: &str) -> (r: String)
    ensures
        r@ == initial(email@),
{
    let v: Vec<char> = crate::text::chars_of(email);
    to_uppercase(
        if v.len() > 0 {
            v[0]
        } else {
            '?'
        },
    )
}

/// The client and the steps after a sign-in; `label` stands for the user.
pub open spec fn signed_in_as(c: ClientView, value: JsonModel, label: Seq<char>) -> (
    ClientView,
    Seq<StepView>,
) {
    let token = value.text("access_token"@);
    if token.len() == 0 {
        (c, seq![StepView::Error("登录响应缺少会话凭据"@)])
    } else {
        let clear = session_cleared(c, true);
        let uid = value.at("user"@).text("id"@);
        let history = uid + "-history.json"@;
        let snapshots = uid + "-task-inputs.json"@;
        let target = match clear.return_page {
            Some(page) => page_of(page),
            None => page_of(clear.studio.page),
        };
        let s1 = cleared_steps() + seq![
            StepView::OpenAccount(history, snapshots),
            fetch("capabilities"@, "/api/capabilities"@),
            fetch("wallet"@, "/api/wallet"@),
            StepView::LoadPage(target),
        ];
        let s2 = step_if(s1, clear.intents.team_picker, fetch("teams"@, "/api/teams"@));
        (
            ClientView {
                studio: StudioView { signed_in: true, ..clear.studio },
                auth: AuthView { open: false, ..clear.auth },
                account: AccountView {
                    token,
                    email: clear.auth.email,
                    label,
                    history_name: history,
                    snapshot_name: snapshots,
                    ..clear.account
                },
                return_page: None,
                intents: IntentsView { team_picker: false, ..clear.intents },
                ..clear
            },
            step_if(
                s2,
                clear.intents.references.len() > 0 && target != 1,
                StepView::RefreshModels,
            ),
        )
    }
}

/// Takes the answer to a sign-in; `label` stands for the user.
pub fn sign_in(c: &mut Client, value: &Json, label: String) -> (r: Vec<Step>)
    requires
        is_sound(old(c)@),
        old(c).queue.epoch < u64::MAX,
    ensures
        (final(c)@, step_views(r@)) == signed_in_as(old(c)@, value@, label@),
        is_sound(final(c)@),
{
    let token: String = value.text("access_token");
    if token.as_str().is_empty() {
        return fail("登录响应缺少会话凭据");
    }
    let mut steps: Vec<Step> = clear_session(c, true);
    c.account.token = token;
    c.studio.signed_in = true;
    c.account.email = c.auth.email.clone();
    c.account.label = label;
    c.auth.open = false;
    let uid: String = value.at("user").text("id");
    let history: String = cat(uid.as_str(), "-history.json");
    let snapshots: String = cat(uid.as_str(), "-task-inputs.json");
    c.account.history_name = history.clone();
    c.account.snapshot_name = snapshots.clone();
    let target: i32 = auth_return_target(c.return_page, c.studio.page);
    c.return_page = None;
    then_do(&mut steps, Step::OpenAccount(history, snapshots));
    then_do(&mut steps, fetching("capabilities", "/api/capabilities"));
    then_do(&mut steps, fetching("wallet", "/api/wallet"));
    then_do(&mut steps, Step::LoadPage(target));
    proof {
        assert(step_views(steps@) =~= cleared_steps() + seq![
            StepView::OpenAccount(history@, snapshots@),
            fetch("capabilities"@, "/api/capabilities"@),
            fetch("wallet"@, "/api/wallet"@),
            StepView::LoadPage(target),
        ]);
        assert(pair_views(c.intents.references@).len() == c.intents.references@.len());
    }
    if c.intents.team_picker {
        then_do(&mut steps, fetching("teams", "/api/teams"));
    }
    c.intents.team_picker = false;
    if c.intents.references.len() > 0 && target != 1 {
        then_do(&mut steps, Step::RefreshModels);
    }
    steps
}

/// The client and the steps after another answer of the account forms.
pub open spec fn account_answered(c: ClientView, name: Seq<char>, value: JsonModel) -> (
    ClientView,
    Seq<StepView>,
) {
    if name == "logout"@ {
        let clear = session_cleared(c, false);
        (
            ClientView { auth: AuthView { open: true, ..switched(clear.auth, 0) }, ..clear },
            cleared_steps() + quieted(),
        )
    } else if name == "register"@ {
        let shown = switched(c.auth, 3);
        (
            ClientView {
                auth: if value.text("email_delivery"@) == "sent"@ {
                    AuthView { resend_seconds: 60, ..shown }
                } else {
                    shown
                },
                ..c
            },
            quieted().push(email_told(3, value)),
        )
    } else if name == "verify-email"@ {
        (
            ClientView { auth: switched(c.auth, 0), ..c },
            quieted().push(StepView::Notice("邮箱验证成功，请登录"@)),
        )
    } else if name == "password-reset-confirm"@ {
        let clear = session_cleared(c, false);
        (
            ClientView { auth: switched(clear.auth, 0), ..clear },
            (cleared_steps() + quieted()).push(StepView::Notice("密码已更新，请使用新密码登录"@)),
        )
    } else {
        let mode: i32 = if name == "verification-resend"@ {
            3
        } else {
            4
        };
        let shown = if c.auth.mode != mode {
            switched(c.auth, mode)
        } else {
            c.auth
        };
        (
            ClientView { auth: AuthView { resend_seconds: 60, ..shown }, ..c },
            (if c.auth.mode != mode {
                quieted()
            } else {
                Seq::empty()
            }).push(email_told(mode, value)),
        )
    }
}

fn answer_account(c: &mut Client, name: &str, value: &Json) -> (r: Vec<Step>)
    requires
        is_sound(old(c)@),
        old(c).queue.epoch < u64::MAX,
    ensures
        (final(c)@, step_views(r@)) == account_answered(old(c)@, name@, value@),
        is_sound(final(c)@),
{
    if same(name, "logout") {
        let mut steps: Vec<Step> = clear_session(c, false);
        let quiet: Vec<Step> = switch_auth(&mut c.auth, 0);
        then_all(&mut steps, quiet);
        c.auth.open = true;
        return steps;
    }
    if same(name, "register") {
        let mut steps: Vec<Step> = switch_auth(&mut c.auth, 3);
        then_do(&mut steps, email_notice(&c.auth, value));
        if value.text_is("email_delivery", "sent") {
            c.auth.resend_seconds = 60;
        }
        return steps;
    }
    if same(name, "verify-email") {
        let mut steps: Vec<Step> = switch_auth(&mut c.auth, 0);
        then_do(&mut steps, Step::Notice("邮箱验证成功，请登录".to_owned()));
        return steps;
    }
    if same(name, "password-reset-confirm") {
        let mut steps: Vec<Step> = clear_session(c, false);
        let quiet: Vec<Step> = switch_auth(&mut c.auth, 0);
        then_all(&mut steps, quiet);
        then_do(&mut steps, Step::Notice("密码已更新，请使用新密码登录".to_owned()));
        return steps;
    }
    let mode: i32 = if same(name, "verification-resend") {
        3
    } else {
        4
    };
    let mut steps: Vec<Step> = if c.auth.mode != mode {
        switch_auth(&mut c.auth, mode)
    } else {
        none()
    };
    then_do(&mut steps, email_notice(&c.auth, value));
    c.auth.resend_seconds = 60;
    steps
}

/// The models in an answer.
pub open spec fn models_in(value: JsonModel) -> Seq<JsonModel> {
    match value.at("models"@).as_array() {
        Some(list) => list,
        None => items_of(value),
    }
}

fn list_models(value: &Json) -> (r: Vec<Json>)
    ensures
        models(r@) == models_in(value@),
{
    let found: Json = value.at("models");
    match found {
        Json::Array(list) => {
            proof {
                assert(found@->Array_0 =~= models(list@));
            }
            list
        },
        _ => items(value),
    }
}

/// The form and the catalog when a new catalog has come: what the form shows
/// is remembered first, so that it can be shown again.
pub open spec fn catalog_replaced(studio: StudioView, list: Seq<JsonModel>) -> StudioView {
    let remembered = current_remembered(studio.form, studio.catalog);
    let fresh = CatalogView { models: list, ..remembered };
    if fresh.updating_model_options {
        StudioView { catalog: fresh, ..studio }
    } else {
        let (form, catalog) = options_updated(studio.form, fresh, studio.references, true);
        StudioView { form, catalog, ..studio }
    }
}

pub fn replace_catalog(studio: &mut Studio, list: Vec<Json>)
    ensures
        final(studio)@ == catalog_replaced(old(studio)@, models(list@)),
{
    remember_current_model_draft(&studio.form, &mut studio.catalog);
    studio.catalog.models = list;
    update_model_options_preserving_catalog(
        &mut studio.form,
        &mut studio.catalog,
        &studio.references,
    );
}

/// The intents and the steps of what waited for the catalog.
pub open spec fn waited_for_catalog(
    intents: IntentsView,
    list: TaskListView,
    catalog: nat,
    first: Seq<StepView>,
) -> (IntentsView, Seq<StepView>) {
    let s1 = match intents.template_id {
        Some(id) => if catalog == 0 {
            first.push(StepView::Error("模型目录暂未加载，请重试应用模板"@))
        } else {
            first.push(StepView::ApplyTemplate(id))
        },
        None => first,
    };
    let s2 = match intents.refill_id {
        Some(id) => if catalog == 0 {
            s1.push(StepView::Error("模型目录暂未加载，请重试回填历史任务"@))
        } else {
            match refill_inputs(list, id) {
                Ok(_) => s1.push(StepView::RefillTask(id)),
                Err(e) => s1.push(StepView::Error(e)),
            }
        },
        None => s1,
    };
    (
        if catalog == 0 {
            intents
        } else {
            IntentsView { template_id: None, refill_id: None, ..intents }
        },
        s2,
    )
}

fn wait_for_catalog(
    intents: &mut Intents,
    list: &TaskList,
    catalog: usize,
    steps: &mut Vec<Step>,
)
    ensures
        (final(intents)@, step_views(final(steps)@)) == waited_for_catalog(
            old(intents)@,
            list@,
            catalog as nat,
            step_views(old(steps)@),
        ),
{
    if catalog == 0 {
        if intents.template_id.is_some() {
            then_do(steps, Step::Error("模型目录暂未加载，请重试应用模板".to_owned()));
        }
        if intents.refill_id.is_some() {
            then_do(steps, Step::Error("模型目录暂未加载，请重试回填历史任务".to_owned()));
        }
        return ;
    }
    let template: Option<String> = intents.template_id.take();
    if let Some(id) = template {
        then_do(steps, Step::ApplyTemplate(id));
    }
    let refill: Option<String> = intents.refill_id.take();
    if let Some(id) = refill {
        match refill_task(list, id.as_str()) {
            Ok(_) => then_do(steps, Step::RefillTask(id)),
            Err(e) => then_do(steps, Step::Error(e)),
        }
    }
}

/// The client and the steps when the catalog of models has come.
pub open spec fn models_answered(c: ClientView, value: JsonModel) -> (ClientView, Seq<StepView>) {
    let studio = catalog_replaced(c.studio, models_in(value));
    let first = step_if(
        seq![StepView::RefreshQuote],
        studio.page == 7,
        StepView::Draw(Panel::Templates),
    );
    let (intents, s2) = waited_for_catalog(
        c.intents,
        c.tasks,
        studio.catalog.models.len(),
        first,
    );
    let s3 = step_if(s2, studio.signed_in && c.picker.batch is Some, StepView::ContinuePicker);
    (
        ClientView { studio, intents, ..c },
        step_if(s3, studio.signed_in, StepView::UsePending),
    )
}

fn answer_models(c: &mut Client, value: &Json) -> (r: Vec<Step>)
    ensures
        (final(c)@, step_views(r@)) == models_answered(old(c)@, value@),
{
    let list: Vec<Json> = list_models(value);
    replace_catalog(&mut c.studio, list);
    let mut steps: Vec<Step> = one(Step::RefreshQuote);
    if c.studio.page == 7 {
        then_do(&mut steps, Step::Draw(Panel::Templates));
    }
    let count: usize = c.studio.catalog.models.len();
    proof {
        assert(models(c.studio.catalog.models@).len() == count);
    }
    wait_for_catalog(&mut c.intents, &c.tasks, count, &mut steps);
    if c.studio.signed_in && c.picker.batch.is_some() {
        then_do(&mut steps, Step::ContinuePicker);
    }
    if c.studio.signed_in {
        then_do(&mut steps, Step::UsePending);
    }
    steps
}

/// Files that waited, as files that may become references.
pub open spec fn waiting_choices(queue: Seq<(Seq<char>, Seq<char>)>) -> Seq<SelectionView> {
    Seq::new(queue.len(), |i: int| waiting_choice(queue[i]))
}

pub open spec fn waiting_choice(entry: (Seq<char>, Seq<char>)) -> SelectionView {
    SelectionView {
        id: entry.0,
        name: entry.1,
        kind: kind_of_path(entry.0),
        local_path: entry.0,
        download_endpoint: ""@,
        download_path: ""@,
    }
}

fn list_waiting(queue: &Vec<(String, String)>) -> (r: Vec<PickerSelection>)
    ensures
        selection_views(r@) == waiting_choices(pair_views(queue@)),
{
    let mut out: Vec<PickerSelection> = Vec::new();
    let mut i: usize = 0;
    while i < queue.len()
        invariant
            i <= queue.len(),
            out@.len() == i,
            forall|j: int|
                0 <= j < i ==> (#[trigger] out@[j])@ == waiting_choice(pair_views(queue@)[j]),
        decreases queue.len() - i,
    {
        let path: &str = queue[i].0.as_str();
        out.push(
            PickerSelection {
                id: path.to_owned(),
                name: queue[i].1.clone(),
                kind: reference_kind(path).to_owned(),
                local_path: path.to_owned(),
                download_endpoint: "".to_owned(),
                download_path: "".to_owned(),
            },
        );
        i = i + 1;
    }
    proof {
        assert(selection_views(out@) =~= waiting_choices(pair_views(queue@)));
    }
    out
}

/// `first`, then each of the files that waited becomes a reference.
pub open spec fn waiting_uploads(
    first: Seq<StepView>,
    queue: Seq<(Seq<char>, Seq<char>)>,
) -> Seq<StepView>
    decreases queue.len(),
{
    if queue.len() == 0 {
        first
    } else {
        waiting_uploads(first, queue.drop_last()).push(
            StepView::UploadPersonal(queue.last().0, queue.last().1),
        )
    }
}

/// The client and the steps when the files that waited become references: all
/// of them, or none where one cannot.
pub open spec fn pending_used(c: ClientView) -> (ClientView, Seq<StepView>) {
    let queue = c.intents.references;
    let fault = picker_fault(
        c.studio.form.mode,
        c.studio.form.model_index,
        c.studio.catalog,
        c.studio.references,
        waiting_choices(queue),
    );
    if !c.studio.signed_in || queue.len() == 0 {
        (c, Seq::empty())
    } else if fault is Some {
        (c, seq![StepView::Error(fault->0)])
    } else {
        (
            ClientView {
                intents: IntentsView { references: Seq::empty(), ..c.intents },
                ..c
            },
            waiting_uploads(seq![StepView::PickerOpen(false), StepView::Page(1)], queue),
        )
    }
}

/// The files that waited become references.
pub fn use_pending_references(c: &mut Client) -> (r: Vec<Step>)
    ensures
        (final(c)@, step_views(r@)) == pending_used(old(c)@),
{
    proof {
        assert(pair_views(c.intents.references@).len() == c.intents.references@.len());
    }
    if !c.studio.signed_in || c.intents.references.len() == 0 {
        return none();
    }
    let chosen: Vec<PickerSelection> = list_waiting(&c.intents.references);
    if let Err(e) = validate_picker_reference_selection(
        c.studio.form.mode,
        c.studio.form.model_index,
        &c.studio.catalog,
        &c.studio.references,
        &chosen,
    ) {
        return one(Step::Error(e));
    }
    let mut queue: Vec<(String, String)> = Vec::new();
    proof {
        assert(pair_views(queue@) =~= Seq::empty());
    }
    std::mem::swap(&mut queue, &mut c.intents.references);
    let ghost all = pair_views(queue@);
    let mut steps: Vec<Step> = one(Step::PickerOpen(false));
    then_do(&mut steps, Step::Page(1));
    let ghost first = seq![StepView::PickerOpen(false), StepView::Page(1)];
    let mut i: usize = 0;
    proof {
        assert(step_views(steps@) =~= first);
        assert(all.take(0) =~= Seq::empty());
    }
    while i < queue.len()
        invariant
            i <= queue.len(),
            all == pair_views(queue@),
            step_views(steps@) == waiting_uploads(first, all.take(i as int)),
        decreases queue.len() - i,
    {
        proof {
            assert(all.take(i + 1).drop_last() =~= all.take(i as int));
            assert(all.take(i + 1).last() == all[i as int]);
        }
        then_do(&mut steps, Step::UploadPersonal(queue[i].0.clone(), queue[i].1.clone()));
        i = i + 1;
    }
    proof {
        assert(all.take(all.len() as int) =~= all);
    }
    steps
}

/// Whether a newer quote waits to be asked for.
pub open spec fn quote_waits(queue: QueueView) -> bool {
    exists|i: int| 0 <= i < queue.pending.len() && (#[trigger] queue.pending[i]).0 == "quote"@
}

fn is_quote_waiting(queue: &JobQueue) -> (r: bool)
    ensures
        r == quote_waits(queue@),
{
    let mut i: usize = 0;
    while i < queue.pending.len()
        invariant
            i <= queue.pending.len(),
            forall|j: int| 0 <= j < i ==> (#[trigger] queue@.pending[j]).0 != "quote"@,
        decreases queue.pending.len() - i,
    {
        proof {
            assert(queue@.pending[i as int].0 == queue.pending@[i as int].0@);
        }
        if same(queue.pending[i].0.as_str(), "quote") {
            return true;
        }
        i = i + 1;
    }
    false
}

/// The client when a quote has come.
pub open spec fn quote_taken(c: ClientView, value: JsonModel) -> ClientView {
    let (quote, _) = quote_answered(
        c.studio.quote,
        value,
        c.studio.form,
        c.studio.prompt.prompt,
        c.studio.catalog,
        c.studio.references,
        quote_waits(c.queue),
        c.account.credits,
    );
    ClientView { studio: StudioView { quote, ..c.studio }, ..c }
}

fn take_quote(c: &mut Client, value: &Json)
    ensures
        final(c)@ == quote_taken(old(c)@, value@),
{
    let waits: bool = is_quote_waiting(&c.queue);
    accept_quote(
        &mut c.studio.quote,
        value,
        &c.studio.form,
        c.studio.prompt.prompt.as_str(),
        &c.studio.catalog,
        &c.studio.references,
        waits,
        c.account.credits,
    );
}

/// The client and the steps when a file of a team has been changed.
pub open spec fn asset_changed(c: ClientView, value: JsonModel) -> (ClientView, Seq<StepView>) {
    let path = value.text("local_path"@);
    let team = value.text("intent_team"@);
    let kept = path.len() > 0;
    (
        if kept {
            ClientView {
                tasks: TaskListView {
                    local: c.tasks.local.insert(value.text("id"@), path),
                    ..c.tasks
                },
                ..c
            }
        } else {
            c
        },
        step_if(
            step_if(Seq::empty(), kept, StepView::Notice("已上传到团队资产库"@)),
            team.len() == 0 || team == team_of(c.team),
            StepView::RefreshAssets,
        ),
    )
}

fn change_asset(c: &mut Client, value: &Json) -> (r: Vec<Step>)
    ensures
        (final(c)@, step_views(r@)) == asset_changed(old(c)@, value@),
{
    let mut steps: Vec<Step> = none();
    let path: String = value.text("local_path");
    if !path.as_str().is_empty() {
        let id: String = value.text("id");
        c.tasks.local.insert(id.as_str(), path);
        then_do(&mut steps, Step::Notice("已上传到团队资产库".to_owned()));
    }
    let team: String = value.text("intent_team");
    let chosen: String = team_id(&c.team);
    if team.as_str().is_empty() || same(team.as_str(), chosen.as_str()) {
        then_do(&mut steps, Step::RefreshAssets);
    }
    steps
}

/// The steps that use a file which has been fetched for an intent.
pub open spec fn fetched_steps(first: Seq<StepView>, value: JsonModel) -> Seq<StepView> {
    let path = value.text("path"@);
    let id = value.text("id"@);
    let intent = value.text("intent"@);
    if intent == "media-preview"@ {
        first.push(StepView::FinishPreview(id, path, value.at("preview_token"@).as_u64()))
    } else if intent == "batch-output"@ || intent == "cache"@ {
        first.push(StepView::ContinueResults)
    } else if intent == "picker-batch"@ {
        first.push(StepView::ContinuePicker)
    } else if intent == "preview"@ {
        first.push(StepView::OpenFile(path))
    } else if intent == "import"@ {
        first.push(StepView::Handoff("clip"@, plain_imports(seq![path])))
    } else if intent == "reference"@ {
        first.push(StepView::Upload(path, "generation_input"@))
    } else if intent == "canvas"@ {
        first.push(StepView::PickerOpen(false)).push(
            StepView::Handoff("canvas"@, plain_imports(seq![path])),
        )
    } else if intent == "download"@ {
        first.push(StepView::Notice("结果已保存到本机"@))
    } else if intent == "save-team"@ {
        first.push(
            StepView::UploadForTeam(path, "team_asset"@, value.text("intent_team"@)),
        )
    } else {
        first
    }
}

fn add_fetched(steps: &mut Vec<Step>, value: &Json)
    ensures
        step_views(final(steps)@) == fetched_steps(step_views(old(steps)@), value@),
{
    let path: String = value.text("path");
    let id: String = value.text("id");
    let intent: String = value.text("intent");
    let i: &str = intent.as_str();
    if same(i, "media-preview") {
        then_do(steps, Step::FinishPreview(id, path, value.at("preview_token").as_u64()));
    } else if same(i, "batch-output") || same(i, "cache") {
        then_do(steps, Step::ContinueResults);
    } else if same(i, "picker-batch") {
        then_do(steps, Step::ContinuePicker);
    } else if same(i, "preview") {
        then_do(steps, Step::OpenFile(path));
    } else if same(i, "import") {
        then_do(steps, Step::Handoff("clip".to_owned(), from_path(path.as_str())));
    } else if same(i, "reference") {
        then_do(steps, Step::Upload(path, "generation_input".to_owned()));
    } else if same(i, "canvas") {
        then_do(steps, Step::PickerOpen(false));
        then_do(steps, Step::Handoff("canvas".to_owned(), from_path(path.as_str())));
    } else if same(i, "download") {
        then_do(steps, Step::Notice("结果已保存到本机".to_owned()));
    } else if same(i, "save-team") {
        then_do(
            steps,
            Step::UploadForTeam(path, "team_asset".to_owned(), value.text("intent_team")),
        );
    }
}

/// The client and the steps when a file has been fetched: where it is kept is
/// noted, the file is used for what it was fetched for, and a result goes into
/// the personal library.
pub open spec fn file_fetched(c: ClientView, value: JsonModel) -> (ClientView, Seq<StepView>) {
    let path = value.text("path"@);
    let id = value.text("id"@);
    let intent = value.text("intent"@);
    let drawn = seq![
        StepView::SaveHistory,
        StepView::Draw(Panel::Tasks),
        StepView::Draw(Panel::Assets),
    ];
    let used = fetched_steps(drawn, value);
    let body = single("path"@, JsonModel::Text(path));
    (
        ClientView {
            tasks: TaskListView {
                references: c.tasks.references.remove(id),
                local: c.tasks.local.insert(id, path),
                ..c.tasks
            },
            picker: if intent == "picker-batch"@ {
                PickerView {
                    batch: match c.picker.batch {
                        Some(b) => Some(batch_with_path(b, id, path)),
                        None => None,
                    },
                    ..c.picker
                }
            } else {
                c.picker
            },
            ..c
        },
        if has_prefix(id, "gen_"@) {
            used.push(
                if intent == "cache"@ {
                    ask("personal-cache"@, "POST"@, "local:library-register"@, body)
                } else {
                    library_job("register"@, body)
                },
            )
        } else {
            used
        },
    )
}

fn path_body(path: &str) -> (r: Json)
    ensures
        r@ == single("path"@, JsonModel::Text(path@)),
{
    let mut fields: Vec<(String, Json)> = Vec::new();
    fields.push(("path".to_owned(), Json::from_text(path)));
    let r: Json = Json::from_members(fields);
    proof {
        assert(r@->Object_0 =~= single("path"@, JsonModel::Text(path@))->Object_0);
    }
    r
}

fn take_file(c: &mut Client, value: &Json) -> (r: Vec<Step>)
    ensures
        (final(c)@, step_views(r@)) == file_fetched(old(c)@, value@),
{
    let path: String = value.text("path");
    let id: String = value.text("id");
    let intent: String = value.text("intent");
    c.tasks.references.remove(id.as_str());
    c.tasks.local.insert(id.as_str(), path.clone());
    let mut steps: Vec<Step> = one(Step::SaveHistory);
    then_do(&mut steps, Step::Draw(Panel::Tasks));
    then_do(&mut steps, Step::Draw(Panel::Assets));
    proof {
        assert(step_views(steps@) =~= seq![
            StepView::SaveHistory,
            StepView::Draw(Panel::Tasks),
            StepView::Draw(Panel::Assets),
        ]);
    }
    if same(intent.as_str(), "picker-batch") {
        set_picker_batch_path(&mut c.picker, id.as_str(), path.as_str());
    }
    add_fetched(&mut steps, value);
    if starts_with(id.as_str(), "gen_") {
        if same(intent.as_str(), "cache") {
            then_do(
                &mut steps,
                asking(
                    "personal-cache",
                    "POST",
                    "local:library-register",
                    path_body(path.as_str()),
                ),
            );
        } else {
            then_do(&mut steps, personal_job("register", path_body(path.as_str())));
        }
    }
    steps
}

/// What an answer may have to be judged by.
pub struct World<'a> {
    /// The files that are there.
    pub present: &'a TextSet,
    /// The sizes of the files of the export.
    pub sizes: &'a Vec<u64>,
}

/// The export and what it shows when a run has ended.
pub open spec fn export_taken(c: ClientView, value: JsonModel, sizes: Seq<u64>) -> ClientView {
    match c.export {
        None => c,
        Some(job) => {
            let merged = ExportView {
                completed: with_texts(job.completed, value.list("completed"@)),
                ..job
            };
            let (after, panel) = export_answered(
                job,
                c.panel,
                value,
                complete_size(merged, sizes, job.items.len()) as u64,
            );
            ClientView { export: Some(after), panel, ..c }
        },
    }
}

fn take_export(c: &mut Client, value: &Json, sizes: &Vec<u64>)
    requires
        old(c).export matches Some(job) ==> sizes.len() == job.items.len(),
    ensures
        final(c)@ == export_taken(old(c)@, value@, sizes@),
{
    let mut taken: Option<ExportCopyJob> = None;
    std::mem::swap(&mut taken, &mut c.export);
    if let Some(job) = taken {
        let mut running: ExportCopyJob = job;
        let ghost before = running@;
        let list: Vec<Json> = value.list("completed");
        let mut merged: TextSet = running.completed.copy();
        crate::cloud::export_copy::insert_texts(&mut merged, &list);
        let probe: ExportCopyJob = ExportCopyJob {
            items: copy_items(&running.items),
            folder: running.folder.clone(),
            completed: merged,
            running: running.running,
            bytes_total: running.bytes_total,
        };
        proof {
            assert(probe@ == (ExportView {
                completed: with_texts(before.completed, value@.list("completed"@)),
                ..before
            }));
        }
        let bytes: u64 = completed_bytes(&probe, sizes);
        export_copied(&mut running, &mut c.panel, value, bytes);
        c.export = Some(running);
    }
}

fn copy_items(v: &Vec<crate::cloud::steps::ExportItem>) -> (r: Vec<crate::cloud::steps::ExportItem>)
    ensures
        crate::cloud::steps::item_views(r@) == crate::cloud::steps::item_views(v@),
        r@.len() == v@.len(),
{
    let mut out: Vec<crate::cloud::steps::ExportItem> = Vec::new();
    let mut i: usize = 0;
    while i < v.len()
        invariant
            i <= v.len(),
            out@.len() == i,
            forall|j: int| 0 <= j < i ==> (#[trigger] out@[j])@ == v@[j]@,
        decreases v.len() - i,
    {
        out.push(
            crate::cloud::steps::ExportItem {
                id: v[i].id.clone(),
                source: v[i].source.clone(),
                name: v[i].name.clone(),
            },
        );
        i = i + 1;
    }
    proof {
        assert(crate::cloud::steps::item_views(out@) =~= crate::cloud::steps::item_views(v@));
    }
    out
}

/// A job of the personal library.
pub open spec fn is_personal_job(name: Seq<char>) -> bool {
    ||| name == "personal"@
    ||| name == "personal-cache"@
    ||| name == "personal-bulk"@
    ||| name == "personal-dialog-rename"@
    ||| name == "personal-dialog-create-folder"@
    ||| name == "personal-dialog-move"@
    ||| name == "personal-drag-move"@
}

fn personal_job_named(name: &str) -> (r: bool)
    ensures
        r == is_personal_job(name@),
{
    same(name, "personal") || same(name, "personal-cache") || same(name, "personal-bulk") || same(
        name,
        "personal-dialog-rename",
    ) || same(name, "personal-dialog-create-folder") || same(name, "personal-dialog-move") || same(
        name,
        "personal-drag-move",
    )
}

/// A job of the account forms other than a sign-in, or a sign-out.
pub open spec fn is_account_job(name: Seq<char>) -> bool {
    ||| name == "logout"@
    ||| name == "register"@
    ||| name == "verify-email"@
    ||| name == "password-reset-confirm"@
    ||| name == "verification-resend"@
    ||| name == "password-reset-request"@
}

fn account_job_named(name: &str) -> (r: bool)
    ensures
        r == is_account_job(name@),
{
    same(name, "logout") || same(name, "register") || same(name, "verify-email") || same(
        name,
        "password-reset-confirm",
    ) || same(name, "verification-resend") || same(name, "password-reset-request")
}

/// A job that has fetched a file.
pub open spec fn is_fetch_job(name: Seq<char>) -> bool {
    ||| name == "local"@
    ||| has_prefix(name, "local-cache:"@)
    ||| has_prefix(name, "local-reference:"@)
    ||| has_prefix(name, "media-preview:"@)
    ||| name == "picker-batch"@
}

fn fetch_job_named(name: &str) -> (r: bool)
    ensures
        r == is_fetch_job(name@),
{
    same(name, "local") || starts_with(name, "local-cache:") || starts_with(
        name,
        "local-reference:",
    ) || starts_with(name, "media-preview:") || same(name, "picker-batch")
}

/// The client and the steps after an answer that concerns a team.
pub open spec fn team_answered(c: ClientView, name: Seq<char>, value: JsonModel) -> Option<
    (ClientView, Seq<StepView>),
> {
    if name == "teams"@ {
        let (team, steps) = teams_answered(c.team, value);
        Some((ClientView { team, ..c }, steps))
    } else if name == "team-create"@ || name == "team-join"@ {
        Some((c, seq![fetch("teams"@, "/api/teams"@)]))
    } else if name == "invite"@ {
        Some(
            (
                ClientView {
                    team: TeamView {
                        invite_id: value.text("id"@),
                        invite_url: value.text("invite_url"@),
                        invite_detail: "24 小时内有效，仅可使用一次"@,
                        ..c.team
                    },
                    ..c
                },
                Seq::empty(),
            ),
        )
    } else if name == "invite-revoke"@ {
        Some(
            (
                ClientView {
                    team: TeamView { invite_id: ""@, invite_url: ""@, ..c.team },
                    ..c
                },
                Seq::empty(),
            ),
        )
    } else if name == "members"@ {
        Some((c, seq![StepView::Members(member_rows(value))]))
    } else if name == "member-remove"@ {
        Some((c, seq![fetch("members"@, "/api/teams/"@ + team_of(c.team) + "/members"@)]))
    } else if name == "assets"@ {
        let expected = assets_path(team_of(c.team), c.team.trash_open);
        if value.text("client_assets_context"@) == expected {
            Some(
                (
                    ClientView {
                        team: TeamView {
                            assets: items_of(value),
                            assets_context: expected,
                            ..c.team
                        },
                        ..c
                    },
                    seq![StepView::Draw(Panel::Assets)],
                ),
            )
        } else {
            Some((c, Seq::empty()))
        }
    } else if name == "asset-change"@ {
        Some(asset_changed(c, value))
    } else {
        None
    }
}

fn answer_team(c: &mut Client, name: &str, value: &Json) -> (r: Option<Vec<Step>>)
    ensures
        match team_answered(old(c)@, name@, value@) {
            Some((after, steps)) => final(c)@ == after && r is Some && step_views(r->0@) == steps,
            None => final(c)@ == old(c)@ && r is None,
        },
{
    if same(name, "teams") {
        Some(teams_listed(&mut c.team, value))
    } else if same(name, "team-create") || same(name, "team-join") {
        Some(one(fetching("teams", "/api/teams")))
    } else if same(name, "invite") {
        invited(&mut c.team, value);
        Some(none())
    } else if same(name, "invite-revoke") {
        invite_revoked(&mut c.team);
        Some(none())
    } else if same(name, "members") {
        Some(one(Step::Members(list_members(value))))
    } else if same(name, "member-remove") {
        Some(one(members_request(&c.team)))
    } else if same(name, "assets") {
        let team: String = team_id(&c.team);
        let expected: String = asset_request(team.as_str(), c.team.trash_open);
        if accept_asset_list(&mut c.team, value, expected.as_str()) {
            Some(one(Step::Draw(Panel::Assets)))
        } else {
            Some(none())
        }
    } else if same(name, "asset-change") {
        Some(change_asset(c, value))
    } else {
        None
    }
}

/// The client and the steps after an answer that concerns generation.
pub open spec fn studio_answered(
    c: ClientView,
    name: Seq<char>,
    value: JsonModel,
    present: Set<Seq<char>>,
) -> Option<(ClientView, Seq<StepView>)> {
    if name == "models"@ {
        Some(models_answered(c, value))
    } else if name == "quote"@ {
        Some((quote_taken(c, value), Seq::empty()))
    } else if name == "generate"@ {
        let (studio, tasks, steps) = generation_answered(c.studio, c.tasks, value);
        Some((ClientView { studio, tasks, ..c }, steps))
    } else if name == "tasks"@ {
        let (tasks, steps) = tasks_answered(c.tasks, value, present);
        Some((ClientView { tasks, ..c }, steps))
    } else if name == "tasks-trash"@ {
        Some(
            (
                ClientView {
                    tasks: TaskListView {
                        selected: Set::empty(),
                        selection_mode: false,
                        ..c.tasks
                    },
                    ..c
                },
                seq![
                    StepView::Notice("已从结果列表移除"@),
                    fetch("tasks"@, "/api/generation/tasks"@),
                ],
            ),
        )
    } else if has_prefix(name, "reference:"@) {
        let (studio, steps) = reference_uploaded(
            c.studio,
            trim_start_text(name, "reference:"@),
            value,
        );
        Some((ClientView { studio, ..c }, steps))
    } else {
        None
    }
}

fn answer_studio(c: &mut Client, name: &str, value: &Json, present: &TextSet) -> (r: Option<
    Vec<Step>,
>)
    requires
        has_prefix(name@, "reference:"@) ==> value@.settable(),
    ensures
        match studio_answered(old(c)@, name@, value@, present@) {
            Some((after, steps)) => final(c)@ == after && r is Some && step_views(r->0@) == steps,
            None => final(c)@ == old(c)@ && r is None,
        },
{
    if same(name, "models") {
        Some(answer_models(c, value))
    } else if same(name, "quote") {
        take_quote(c, value);
        Some(none())
    } else if same(name, "generate") {
        Some(generation_listed(&mut c.studio, &mut c.tasks, value))
    } else if same(name, "tasks") {
        Some(tasks_listed(&mut c.tasks, value, present))
    } else if same(name, "tasks-trash") {
        Some(tasks_trashed(&mut c.tasks))
    } else if starts_with(name, "reference:") {
        let id: String = trim_prefixes(name, "reference:");
        Some(reference_answered(&mut c.studio, id.as_str(), value.copy()))
    } else {
        None
    }
}

/// The client and the steps after any other answer.
pub open spec fn other_answered(c: ClientView, name: Seq<char>, value: JsonModel) -> (
    ClientView,
    Seq<StepView>,
) {
    if name == "wallet"@ {
        let (account, quote) = wallet_answered(c.account, c.studio.quote, value);
        (
            ClientView { account, studio: StudioView { quote, ..c.studio }, ..c },
            seq![StepView::Ledger(ledger_rows(value))],
        )
    } else if is_fetch_job(name) {
        file_fetched(c, value)
    } else if name == "purchase"@ || name == "order"@ || name == "orders"@ {
        let (account, steps) = orders_answered(c.account, name, value);
        (ClientView { account, ..c }, steps)
    } else if name == "plans"@ {
        let (account, steps) = plans_answered(c.account, value);
        (ClientView { account, ..c }, steps)
    } else if name == "connect"@ || name == "capabilities"@ {
        let (account, steps) = capabilities_answered(c.account, name, value);
        (ClientView { account, ..c }, steps)
    } else {
        (c, Seq::empty())
    }
}

fn answer_other(c: &mut Client, name: &str, value: &Json) -> (r: Vec<Step>)
    ensures
        (final(c)@, step_views(r@)) == other_answered(old(c)@, name@, value@),
{
    if same(name, "wallet") {
        wallet_listed(&mut c.account, &mut c.studio.quote, value);
        one(Step::Ledger(list_ledger(value)))
    } else if fetch_job_named(name) {
        take_file(c, value)
    } else if same(name, "purchase") || same(name, "order") || same(name, "orders") {
        orders_listed(&mut c.account, name, value)
    } else if same(name, "plans") {
        plans_listed(&mut c.account, value)
    } else if same(name, "connect") || same(name, "capabilities") {
        capabilities_listed(&mut c.account, name, value)
    } else {
        none()
    }
}

/// The client and the steps after the answer to a job. `label` stands for the
/// user in the answer to a sign-in.
pub open spec fn published(
    c: ClientView,
    name: Seq<char>,
    value: JsonModel,
    present: Set<Seq<char>>,
    sizes: Seq<u64>,
    label: Seq<char>,
) -> (ClientView, Seq<StepView>) {
    if name == "export-copy"@ {
        (export_taken(c, value, sizes), Seq::empty())
    } else if is_personal_job(name) {
        let (personal, steps) = personal_answered(c.personal, name, value);
        (ClientView { personal, ..c }, steps)
    } else if name == "login"@ {
        signed_in_as(c, value, label)
    } else if is_account_job(name) {
        account_answered(c, name, value)
    } else if studio_answered(c, name, value, present) is Some {
        studio_answered(c, name, value, present)->0
    } else if team_answered(c, name, value) is Some {
        team_answered(c, name, value)->0
    } else {
        other_answered(c, name, value)
    }
}

/// Takes the answer to a job; `label` stands for the user in the answer to a
/// sign-in.
pub fn publish_with(c: &mut Client, name: &str, value: &Json, world: &World, label: String) -> (r: Vec<
    Step,
>)
    requires
        is_sound(old(c)@),
        old(c).queue.epoch < u64::MAX,
        old(c).export matches Some(job) ==> world.sizes.len() == job.items.len(),
        has_prefix(name@, "reference:"@) ==> value@.settable(),
    ensures
        (final(c)@, step_views(r@)) == published(
            old(c)@,
            name@,
            value@,
            world.present@,
            world.sizes@,
            label@,
        ),
{
    if same(name, "export-copy") {
        take_export(c, value, world.sizes);
        return none();
    }
    if personal_job_named(name) {
        return personal_listed(&mut c.personal, name, value);
    }
    if same(name, "login") {
        return sign_in(c, value, label);
    }
    if account_job_named(name) {
        return answer_account(c, name, value);
    }
    if let Some(steps) = answer_studio(c, name, value, world.present) {
        return steps;
    }
    if let Some(steps) = answer_team(c, name, value) {
        return steps;
    }
    answer_other(c, name, value)
}

/// Takes the answer to a job.
pub fn publish(c: &mut Client, name: &str, value: &Json, world: &World) -> (r: Vec<Step>)
    requires
        is_sound(old(c)@),
        old(c).queue.epoch < u64::MAX,
        old(c).export matches Some(job) ==> world.sizes.len() == job.items.len(),
        has_prefix(name@, "reference:"@) ==> value@.settable(),
    ensures
        (final(c)@, step_views(r@)) == published(
            old(c)@,
            name@,
            value@,
            world.present@,
            world.sizes@,
            initial(old(c)@.auth.email),
        ),
        is_sound(final(c)@),
{
    let label: String = make_initial(c.auth.email.as_str());
    proof {
        answers_keep_soundness(
            c@,
            name@,
            value@,
            world.present@,
            world.sizes@,
            initial(c@.auth.email),
        );
    }
    publish_with(c, name, value, world, label)
}

/// The end of a session keeps the references objects.
proof fn endings_keep_soundness(c: ClientView, keep: bool)
    requires
        is_sound(c),
    ensures
        is_sound(session_cleared(c, keep)),
{
    let after = session_cleared(c, keep).studio.references;
    assert forall|i: int| 0 <= i < after.len() implies (#[trigger] after[i]) is Object by {
        assert(after[i] == expired(c.studio.references[i]));
    }
}

/// The answer to an upload keeps the references objects.
proof fn uploads_keep_soundness(c: ClientView, id: Seq<char>, value: JsonModel)
    requires
        is_sound(c),
        value.settable(),
    ensures
        are_objects(reference_uploaded(c.studio, id, value).0.references),
{
    let after = reference_uploaded(c.studio, id, value).0.references;
    crate::lists::first_from_found(
        c.studio.references,
        crate::lists::text_is("client_id"@, id),
        0,
    );
    assert forall|i: int| 0 <= i < after.len() implies (#[trigger] after[i]) is Object by {
        assert(c.studio.references[i] is Object);
    }
}

proof fn other_answers_keep_references(
    c: ClientView,
    name: Seq<char>,
    value: JsonModel,
    present: Set<Seq<char>>,
)
    ensures
        other_answered(c, name, value).0.studio.references == c.studio.references,
        team_answered(c, name, value) matches Some((after, _)) ==> after.studio.references
            == c.studio.references,
        !has_prefix(name, "reference:"@) ==> (studio_answered(
            c,
            name,
            value,
            present,
        ) matches Some((after, _)) ==> after.studio.references == c.studio.references),
{
}

/// Every answer keeps the references objects, so that their state can always
/// be noted in them.
pub proof fn answers_keep_soundness(
    c: ClientView,
    name: Seq<char>,
    value: JsonModel,
    present: Set<Seq<char>>,
    sizes: Seq<u64>,
    label: Seq<char>,
)
    requires
        is_sound(c),
        has_prefix(name, "reference:"@) ==> value.settable(),
    ensures
        is_sound(published(c, name, value, present, sizes, label).0),
{
    endings_keep_soundness(c, true);
    endings_keep_soundness(c, false);
    if has_prefix(name, "reference:"@) {
        uploads_keep_soundness(c, trim_start_text(name, "reference:"@), value);
    }
    other_answers_keep_references(c, name, value, present);
    if has_prefix(name, "reference:"@) && studio_answered(c, name, value, present) is Some {
        upload_names_are_their_own(name);
    }
}

/// The name of an upload is that of no other answer of the studio.
proof fn upload_names_are_their_own(name: Seq<char>)
    requires
        has_prefix(name, "reference:"@),
    ensures
        name != "models"@ && name != "quote"@ && name != "generate"@ && name != "tasks"@ && name
            != "tasks-trash"@,
{
    reveal_strlit("reference:");
    reveal_strlit("models");
    reveal_strlit("quote");
    reveal_strlit("generate");
    reveal_strlit("tasks");
    reveal_strlit("tasks-trash");
    assert("reference:"@[0] == 'r' && "tasks-trash"@[0] == 't');
    assert("reference:"@.len() == 10 && "models"@.len() == 6 && "quote"@.len() == 5
        && "generate"@.len() == 8 && "tasks"@.len() == 5);
    assert(name[0] == "reference:"@[0]);
}

/// After a session has ended, nothing of it can be sent or shown: no request
/// waits, no token, task, file, team or order is left, the answer to what still
/// runs is for another epoch, and the rows that are shown go: those of the
/// members and of the ledger, and those that are drawn anew from what is left.
pub proof fn ended_sessions_leave_nothing(c: ClientView, keep: bool)
    requires
        c.queue.epoch < u64::MAX,
    ensures
        ({
            let after = session_cleared(c, keep);
            &&& !after.studio.signed_in
            &&& after.account.token == ""@
            &&& after.queue.pending.len() == 0
            &&& after.queue.epoch != c.queue.epoch
            &&& after.tasks.tasks.len() == 0
            &&& after.team.teams.len() == 0
            &&& after.team.assets.len() == 0
            &&& after.account.orders.len() == 0
            &&& after.studio.catalog.models.len() == 0
            &&& !after.studio.quote.can_generate
        }),
        cleared_steps().contains(StepView::Members(Seq::empty())),
        cleared_steps().contains(StepView::Ledger(Seq::empty())),
        cleared_steps().contains(StepView::Draw(Panel::Tasks)),
        cleared_steps().contains(StepView::Draw(Panel::Assets)),
        cleared_steps().contains(StepView::Draw(Panel::References)),
        cleared_steps().contains(StepView::Draw(Panel::Orders)),
{
    let steps = cleared_steps();
    assert(steps[0] == StepView::Draw(Panel::Tasks));
    assert(steps[1] == StepView::Draw(Panel::Assets));
    assert(steps[2] == StepView::Draw(Panel::References));
    assert(steps[3] == StepView::Members(Seq::empty()));
    assert(steps[4] == StepView::Ledger(Seq::empty()));
    assert(steps[5] == StepView::Draw(Panel::Orders));
}

/// A reference that was uploaded in a session does not count as uploaded in
/// the next: it has to be sent again.
pub proof fn references_expire_with_the_session(c: ClientView, i: int)
    requires
        is_sound(c),
        0 <= i < c.studio.references.len(),
    ensures
        session_cleared(c, true).studio.references[i].text("status"@) == "expired"@,
        session_cleared(c, true).studio.references[i].at("id"@) is Null,
{
    let r = c.studio.references[i];
    assert(r is Object);
    let with_id = r.with("id"@, JsonModel::Null);
    let with_status = with_id.with("status"@, JsonModel::Text("expired"@));
    reveal_strlit("id");
    reveal_strlit("status");
    reveal_strlit("error");
    assert("id"@.len() == 2 && "status"@.len() == 6 && "error"@.len() == 5);
    let message = JsonModel::Text("登录状态已变化，请重新上传"@);
    let entries = r->Object_0;
    crate::json::replaced_lookup(entries, "id"@, JsonModel::Null, "id"@);
    crate::json::replaced_lookup(
        with_id->Object_0,
        "status"@,
        JsonModel::Text("expired"@),
        "id"@,
    );
    crate::json::replaced_lookup(
        with_id->Object_0,
        "status"@,
        JsonModel::Text("expired"@),
        "status"@,
    );
    crate::json::replaced_lookup(with_status->Object_0, "error"@, message, "id"@);
    crate::json::replaced_lookup(with_status->Object_0, "error"@, message, "status"@);
}

} // verus!
