//! The client to begin with.

use crate::cloud::account::{Account, AccountView};
use crate::cloud::auth::{AuthForm, AuthView};
use crate::cloud::catalog::{Catalog, CatalogView, FormView, GenerationForm};
use crate::cloud::export_copy::{ExportPanel, PanelView};
use crate::cloud::generation::{Quote, QuoteView};
use crate::cloud::imports::{Transfers, TransfersView};
use crate::cloud::intents::{Intents, IntentsView};
use crate::cloud::mentions::{PromptForm, PromptView};
use crate::cloud::personal::{PersonalPage, PersonalView};
use crate::cloud::picker::{Picker, PickerView};
use crate::cloud::preview::{MediaPreview, PreviewView};
use crate::cloud::requests::{JobQueue, QueueView};
use crate::cloud::studio::{Studio, StudioView, TemplateForm, TemplateFormView};
use crate::cloud::tasks::{TaskList, TaskListView};
use crate::cloud::teams::{TeamPage, TeamView};
use crate::cloud::client::{is_sound, Client, ClientView};
use crate::cloud::rows::{blank, blank_item};
use crate::collections::{TextMap, TextSet};
use crate::json::{Json, JsonModel};
use vstd::prelude::*;
use vstd::string::*;

verus! {

/// The form of a generation to begin with.
pub open spec fn fresh_form() -> FormView {
    FormView {
        mode: 0,
        model_index: 0,
        ratio_index: 0,
        resolution_index: 0,
        duration_index: 0,
        quality_index: 0,
        quantity_index: 0,
        generate_audio: false,
        model_names: Seq::empty(),
        ratios: Seq::empty(),
        resolutions: Seq::empty(),
        durations: Seq::empty(),
        qualities: Seq::empty(),
        quantities: Seq::empty(),
        supports_generation_audio: false,
        accepts_references: false,
        reference_max: 0,
        reference_limit: ""@,
        recovery_warning: ""@,
        error: ""@,
    }
}

/// The form of a generation to begin with.
pub fn new_form() -> (r: GenerationForm)
    ensures
        r@ == fresh_form(),
{
    let r: GenerationForm = GenerationForm {
        mode: 0,
        model_index: 0,
        ratio_index: 0,
        resolution_index: 0,
        duration_index: 0,
        quality_index: 0,
        quantity_index: 0,
        generate_audio: false,
        model_names: Vec::new(),
        ratios: Vec::new(),
        resolutions: Vec::new(),
        durations: Vec::new(),
        qualities: Vec::new(),
        quantities: Vec::new(),
        supports_generation_audio: false,
        accepts_references: false,
        reference_max: 0,
        reference_limit: "".to_owned(),
        recovery_warning: "".to_owned(),
        error: "".to_owned(),
    };
    proof {
        assert(r@.model_names =~= Seq::empty());
        assert(r@.ratios =~= Seq::empty());
        assert(r@.resolutions =~= Seq::empty());
        assert(r@.durations =~= Seq::empty());
        assert(r@.qualities =~= Seq::empty());
        assert(r@.quantities =~= Seq::empty());
    }
    r
}

/// The prompt to begin with.
pub open spec fn fresh_prompt() -> PromptView {
    PromptView {
        prompt: ""@,
        prompt_cursor: 0,
        mention_open: false,
    }
}

/// The prompt to begin with.
pub fn new_prompt() -> (r: PromptForm)
    ensures
        r@ == fresh_prompt(),
{
    let r: PromptForm = PromptForm {
        prompt: "".to_owned(),
        prompt_cursor: 0,
        mention_open: false,
    };
    r
}

/// The catalog to begin with.
pub open spec fn fresh_catalog() -> CatalogView {
    CatalogView {
        models: Seq::empty(),
        selected_image: None,
        selected_video: None,
        parameter_drafts: Seq::empty(),
        generation_mode: None,
        updating_model_options: false,
        unavailable_model_id: None,
        unavailable_model_kind: None,
    }
}

/// The catalog to begin with.
pub fn new_catalog() -> (r: Catalog)
    ensures
        r@ == fresh_catalog(),
{
    let r: Catalog = Catalog {
        models: Vec::new(),
        selected_image: None,
        selected_video: None,
        parameter_drafts: Vec::new(),
        generation_mode: None,
        updating_model_options: false,
        unavailable_model_id: None,
        unavailable_model_kind: None,
    };
    proof {
        assert(r@.models =~= Seq::empty());
        assert(r@.parameter_drafts =~= Seq::empty());
    }
    r
}

/// The offer to begin with.
pub open spec fn fresh_quote() -> QuoteView {
    QuoteView {
        id: ""@,
        credits: None,
        body: JsonModel::Null,
        text: ""@,
        insufficient: false,
        can_generate: false,
        reference_error: ""@,
    }
}

/// The offer to begin with.
pub fn new_quote() -> (r: Quote)
    ensures
        r@ == fresh_quote(),
{
    let r: Quote = Quote {
        id: "".to_owned(),
        credits: None,
        body: Json::Null,
        text: "".to_owned(),
        insufficient: false,
        can_generate: false,
        reference_error: "".to_owned(),
    };
    r
}

/// The editor of templates to begin with.
pub open spec fn fresh_template() -> TemplateFormView {
    TemplateFormView {
        id: ""@,
        name: ""@,
        prompt: ""@,
        mode: 0,
        model_id: ""@,
        parameters_json: ""@,
        reference_paths: ""@,
    }
}

/// The editor of templates to begin with.
pub fn new_template() -> (r: TemplateForm)
    ensures
        r@ == fresh_template(),
{
    let r: TemplateForm = TemplateForm {
        id: "".to_owned(),
        name: "".to_owned(),
        prompt: "".to_owned(),
        mode: 0,
        model_id: "".to_owned(),
        parameters_json: "".to_owned(),
        reference_paths: "".to_owned(),
    };
    r
}

/// The studio to begin with.
pub open spec fn fresh_studio() -> StudioView {
    StudioView {
        form: fresh_form(),
        prompt: fresh_prompt(),
        catalog: fresh_catalog(),
        quote: fresh_quote(),
        references: Seq::empty(),
        template: fresh_template(),
        submission: None,
        page: 0,
        signed_in: false,
    }
}

/// The studio to begin with.
pub fn new_studio() -> (r: Studio)
    ensures
        r@ == fresh_studio(),
{
    let r: Studio = Studio {
        form: new_form(),
        prompt: new_prompt(),
        catalog: new_catalog(),
        quote: new_quote(),
        references: Vec::new(),
        template: new_template(),
        submission: None,
        page: 0,
        signed_in: false,
    };
    proof {
        assert(r@.references =~= Seq::empty());
    }
    r
}

/// The sign-in form to begin with.
pub open spec fn fresh_auth() -> AuthView {
    AuthView {
        mode: 0,
        open: false,
        busy: false,
        resend_seconds: 0,
        email: ""@,
        password: ""@,
        password_confirm: ""@,
        token: ""@,
    }
}

/// The sign-in form to begin with.
pub fn new_auth() -> (r: AuthForm)
    ensures
        r@ == fresh_auth(),
{
    let r: AuthForm = AuthForm {
        mode: 0,
        open: false,
        busy: false,
        resend_seconds: 0,
        email: "".to_owned(),
        password: "".to_owned(),
        password_confirm: "".to_owned(),
        token: "".to_owned(),
    };
    r
}

/// The jobs to begin with.
pub open spec fn fresh_queue() -> QueueView {
    QueueView {
        busy: false,
        active_name: ""@,
        pending: Seq::empty(),
        epoch: 0,
        auth_busy: false,
        working: false,
    }
}

/// The jobs to begin with.
pub fn new_queue() -> (r: JobQueue)
    ensures
        r@ == fresh_queue(),
{
    let r: JobQueue = JobQueue {
        busy: false,
        active_name: "".to_owned(),
        pending: Vec::new(),
        epoch: 0,
        auth_busy: false,
        working: false,
    };
    proof {
        assert(r@.pending =~= Seq::empty());
    }
    r
}

/// The tasks to begin with; results are brought to a folder.
pub open spec fn fresh_tasks(folder: Seq<char>) -> TaskListView {
    TaskListView {
        tasks: Seq::empty(),
        selected: Set::empty(),
        selection_mode: false,
        selected_task: 0,
        preview_open: false,
        local: Map::empty(),
        snapshots: Map::empty(),
        batch: None,
        attempts: Set::empty(),
        references: Set::empty(),
        pending_delete: Seq::empty(),
        folder: folder,
    }
}

/// The tasks to begin with; results are brought to a folder.
pub fn new_tasks(folder: String) -> (r: TaskList)
    ensures
        r@ == fresh_tasks(folder@),
{
    let r: TaskList = TaskList {
        tasks: Vec::new(),
        selected: TextSet::new(),
        selection_mode: false,
        selected_task: 0,
        preview_open: false,
        local: TextMap::new(),
        snapshots: TextMap::new(),
        batch: None,
        attempts: TextSet::new(),
        references: TextSet::new(),
        pending_delete: Vec::new(),
        folder: folder,
    };
    proof {
        assert(r@.tasks =~= Seq::empty());
        assert(r@.pending_delete =~= Seq::empty());
    }
    r
}

/// The page of teams to begin with.
pub open spec fn fresh_team() -> TeamView {
    TeamView {
        teams: Seq::empty(),
        names: Seq::empty(),
        index: 0,
        owner: false,
        trash_open: false,
        assets: Seq::empty(),
        assets_context: ""@,
        search: ""@,
        filter: 0,
        invite_id: ""@,
        invite_url: ""@,
        invite_detail: ""@,
    }
}

/// The page of teams to begin with.
pub fn new_team() -> (r: TeamPage)
    ensures
        r@ == fresh_team(),
{
    let r: TeamPage = TeamPage {
        teams: Vec::new(),
        names: Vec::new(),
        index: 0,
        owner: false,
        trash_open: false,
        assets: Vec::new(),
        assets_context: "".to_owned(),
        search: "".to_owned(),
        filter: 0,
        invite_id: "".to_owned(),
        invite_url: "".to_owned(),
        invite_detail: "".to_owned(),
    };
    proof {
        assert(r@.teams =~= Seq::empty());
        assert(r@.names =~= Seq::empty());
        assert(r@.assets =~= Seq::empty());
    }
    r
}

/// The personal library to begin with.
pub open spec fn fresh_personal() -> PersonalView {
    PersonalView {
        assets: Seq::empty(),
        folders: Seq::empty(),
        selected: Set::empty(),
        pending_delete: Seq::empty(),
        search: ""@,
        filter: 0,
        source: 0,
        folder_filter: 0,
        trash: false,
        favorites: false,
        sort: 0,
        folder_target: 0,
        new_folder: ""@,
        rename: ""@,
        dialog: 0,
        dialog_busy: false,
        dialog_error: ""@,
        delete_count: 0,
    }
}

/// The personal library to begin with.
pub fn new_personal() -> (r: PersonalPage)
    ensures
        r@ == fresh_personal(),
{
    let r: PersonalPage = PersonalPage {
        assets: Vec::new(),
        folders: Vec::new(),
        selected: TextSet::new(),
        pending_delete: Vec::new(),
        search: "".to_owned(),
        filter: 0,
        source: 0,
        folder_filter: 0,
        trash: false,
        favorites: false,
        sort: 0,
        folder_target: 0,
        new_folder: "".to_owned(),
        rename: "".to_owned(),
        dialog: 0,
        dialog_busy: false,
        dialog_error: "".to_owned(),
        delete_count: 0,
    };
    proof {
        assert(r@.assets =~= Seq::empty());
        assert(r@.folders =~= Seq::empty());
        assert(r@.pending_delete =~= Seq::empty());
    }
    r
}

/// The picker to begin with.
pub open spec fn fresh_picker() -> PickerView {
    PickerView {
        open: false,
        purpose: ""@,
        source: 0,
        personal_search: ""@,
        personal_filter: 0,
        team_search: ""@,
        team_filter: 0,
        count: 0,
        selected: Seq::empty(),
        context: ""@,
        batch: None,
    }
}

/// The picker to begin with.
pub fn new_picker() -> (r: Picker)
    ensures
        r@ == fresh_picker(),
{
    let r: Picker = Picker {
        open: false,
        purpose: "".to_owned(),
        source: 0,
        personal_search: "".to_owned(),
        personal_filter: 0,
        team_search: "".to_owned(),
        team_filter: 0,
        count: 0,
        selected: Vec::new(),
        context: "".to_owned(),
        batch: None,
    };
    proof {
        assert(r@.selected =~= Seq::empty());
    }
    r
}

/// What waits to begin with.
pub open spec fn fresh_intents() -> IntentsView {
    IntentsView {
        references: Seq::empty(),
        team_picker: false,
        template_id: None,
        refill_id: None,
    }
}

/// What waits to begin with.
pub fn new_intents() -> (r: Intents)
    ensures
        r@ == fresh_intents(),
{
    let r: Intents = Intents {
        references: Vec::new(),
        team_picker: false,
        template_id: None,
        refill_id: None,
    };
    proof {
        assert(r@.references =~= Seq::empty());
    }
    r
}

/// The panel of exports to begin with.
pub open spec fn fresh_panel() -> PanelView {
    PanelView {
        open: false,
        running: false,
        total: 0,
        done: 0,
        progress: 0,
        message: ""@,
    }
}

/// The panel of exports to begin with.
pub fn new_panel() -> (r: ExportPanel)
    ensures
        r@ == fresh_panel(),
{
    let r: ExportPanel = ExportPanel {
        open: false,
        running: false,
        total: 0,
        done: 0,
        progress: 0,
        message: "".to_owned(),
    };
    r
}

/// The account to begin with: nobody is signed in.
pub open spec fn fresh_account() -> AccountView {
    AccountView {
        token: ""@,
        email: ""@,
        label: ""@,
        balance: ""@,
        credits: None,
        frozen: ""@,
        payment_enabled: false,
        orders: Seq::empty(),
        plans: Seq::empty(),
        history_name: ""@,
        snapshot_name: ""@,
    }
}

/// The account to begin with: nobody is signed in.
pub fn new_account() -> (r: Account)
    ensures
        r@ == fresh_account(),
{
    let r: Account = Account {
        token: "".to_owned(),
        email: "".to_owned(),
        label: "".to_owned(),
        balance: "".to_owned(),
        credits: None,
        frozen: "".to_owned(),
        payment_enabled: false,
        orders: Vec::new(),
        plans: Vec::new(),
        history_name: "".to_owned(),
        snapshot_name: "".to_owned(),
    };
    proof {
        assert(r@.orders =~= Seq::empty());
        assert(r@.plans =~= Seq::empty());
    }
    r
}

/// The preview to begin with.
pub open spec fn fresh_preview() -> PreviewView {
    PreviewView {
        token: 0,
        open: false,
        source: ""@,
        item: blank(),
        loading: false,
        error: ""@,
    }
}

/// The preview to begin with.
pub fn new_preview() -> (r: MediaPreview)
    ensures
        r@ == fresh_preview(),
{
    let r: MediaPreview = MediaPreview {
        token: 0,
        open: false,
        source: "".to_owned(),
        item: blank_item(),
        loading: false,
        error: "".to_owned(),
    };
    r
}

/// The transfers to begin with.
pub open spec fn fresh_transfers() -> TransfersView {
    TransfersView {
        pending: Seq::empty(),
        names: Map::empty(),
        count: 0,
        handoff: None,
        source_page: 0,
        handoff_kind: ""@,
        handoff_count: 0,
        targets: Seq::empty(),
        selected_id: ""@,
        open: false,
    }
}

/// The transfers to begin with.
pub fn new_transfers() -> (r: Transfers)
    ensures
        r@ == fresh_transfers(),
{
    let r: Transfers = Transfers {
        pending: Vec::new(),
        names: TextMap::new(),
        count: 0,
        handoff: None,
        source_page: 0,
        handoff_kind: "".to_owned(),
        handoff_count: 0,
        targets: Vec::new(),
        selected_id: "".to_owned(),
        open: false,
    };
    proof {
        assert(r@.pending =~= Seq::empty());
        assert(r@.targets =~= Seq::empty());
    }
    r
}

/// The client to begin with: nobody is signed in, and nothing waits.
pub open spec fn fresh_client(folder: Seq<char>) -> ClientView {
    ClientView {
        studio: fresh_studio(),
        auth: fresh_auth(),
        return_page: None,
        queue: fresh_queue(),
        tasks: fresh_tasks(folder),
        team: fresh_team(),
        personal: fresh_personal(),
        picker: fresh_picker(),
        intents: fresh_intents(),
        panel: fresh_panel(),
        export: None,
        account: fresh_account(),
        preview: fresh_preview(),
        transfers: fresh_transfers(),
        save_team_task: ""@,
    }
}

/// The client to begin with; results are brought to `folder`.
pub fn new_client(folder: String) -> (r: Client)
    ensures
        r@ == fresh_client(folder@),
        is_sound(r@),
{
    Client {
        studio: new_studio(),
        auth: new_auth(),
        return_page: None,
        queue: new_queue(),
        tasks: new_tasks(folder),
        team: new_team(),
        personal: new_personal(),
        picker: new_picker(),
        intents: new_intents(),
        panel: new_panel(),
        export: None,
        account: new_account(),
        preview: new_preview(),
        transfers: new_transfers(),
        save_team_task: "".to_owned(),
    }
}

} // verus!
