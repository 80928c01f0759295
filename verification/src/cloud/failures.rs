//! What becomes of the client when a job is over, and when it has failed.

use crate::cloud::auth::{quieted, switch_auth, switched, AuthView};
use crate::cloud::client::{
    clear_session, cleared_steps, initial, is_sound, publish, published, session_cleared, Client, ClientView,
    World,
};
use crate::cloud::export_copy::{ExportCopyJob, ExportView, PanelView};
use crate::cloud::personal::PersonalView;
use crate::cloud::picker::PickerView;
use crate::cloud::preview::{fail_media_preview, preview_failed};
use crate::cloud::references::{sync_reference_recovery_warning, warning_synced};
use crate::cloud::requests::{
    account_failure, and_then_if, auth_job, background_job, ends_session, failure_of,
    failure_views, job_answered, job_failed, lit, plain_failure, preview_job,
    sync_operation_state, ClientError, ErrorView, FailureStep, FailureView, QueueView,
};
use crate::cloud::steps::{none, one, step_views, then_all, then_do, Panel, Step, StepView};
use crate::cloud::studio::StudioView;
use crate::cloud::tasks::TaskListView;
use crate::json::{copy_all, models, Json, JsonModel};
use crate::lists::{find_text, first_where, text_is};
use crate::text::{has_prefix, prefix_rest, same};
use vstd::prelude::*;
use vstd::string::*;

verus! {

/// A reference that the service does not know any more, where it was ready.
pub open spec fn stale(reference: JsonModel) -> JsonModel {
    if reference.text("status"@) == "ready"@ {
        reference.with("status"@, JsonModel::Text("expired"@))
    } else {
        reference
    }
}

/// The references when every ready one counts as expired.
pub open spec fn all_stale(references: Seq<JsonModel>) -> Seq<JsonModel> {
    Seq::new(references.len(), |i: int| stale(references[i]))
}

fn expire_ready(references: &mut Vec<Json>)
    requires
        forall|i: int|
            0 <= i < old(references)@.len() ==> (#[trigger] models(old(references)@)[i]) is Object,
    ensures
        models(final(references)@) == all_stale(models(old(references)@)),
{
    let ghost before = models(references@);
    let mut out: Vec<Json> = Vec::new();
    let mut i: usize = 0;
    while i < references.len()
        invariant
            i <= references.len(),
            before == models(references@),
            forall|j: int| 0 <= j < before.len() ==> (#[trigger] before[j]) is Object,
            out@.len() == i,
            forall|j: int| 0 <= j < i ==> (#[trigger] out@[j])@ == stale(before[j]),
        decreases references.len() - i,
    {
        proof {
            assert(before[i as int] is Object);
        }
        let reference: Json = references[i].copy();
        if reference.text_is("status", "ready") {
            out.push(reference.with("status", Json::from_text("expired")));
        } else {
            out.push(reference);
        }
        i = i + 1;
    }
    *references = out;
    proof {
        assert(models(references@) =~= all_stale(before));
    }
}

/// The references when the upload of one has failed.
pub open spec fn one_failed(
    references: Seq<JsonModel>,
    id: Seq<char>,
    message: Seq<char>,
) -> Seq<JsonModel> {
    match first_where(references, text_is("client_id"@, id)) {
        Some(i) => references.update(
            i,
            references[i].with("status"@, JsonModel::Text("failed"@)).with(
                "error"@,
                JsonModel::Text(message),
            ),
        ),
        None => references,
    }
}

fn fail_reference(references: &mut Vec<Json>, id: &str, message: &str)
    requires
        forall|i: int|
            0 <= i < old(references)@.len() ==> (#[trigger] models(old(references)@)[i]) is Object,
    ensures
        models(final(references)@) == one_failed(models(old(references)@), id@, message@),
{
    let ghost before = models(references@);
    if let Some(i) = find_text(references, "client_id", id) {
        proof {
            assert(before[i as int] is Object);
        }
        let failed: Json = references[i].copy().with("status", Json::from_text("failed"));
        let told: Json = failed.with("error", Json::from_text(message));
        references.set(i, told);
        proof {
            assert(models(references@) =~= one_failed(before, id@, message@));
        }
    }
}

/// The client with other references; the form warns of those that are open.
pub open spec fn with_references(c: ClientView, references: Seq<JsonModel>) -> ClientView {
    ClientView {
        studio: StudioView {
            references,
            form: warning_synced(c.studio.form, references),
            ..c.studio
        },
        ..c
    }
}

/// The steps that show that a session has ended and the user is asked to sign
/// in.
pub open spec fn left_steps() -> Seq<StepView> {
    cleared_steps() + quieted()
}

/// The client without its session, asked to sign in.
pub open spec fn session_left(c: ClientView, keep: bool) -> ClientView {
    let cleared = session_cleared(c, keep);
    ClientView {
        auth: AuthView { open: true, ..switched(cleared.auth, 0) },
        queue: lit(cleared.queue),
        ..cleared
    }
}

fn leave_session(c: &mut Client, keep: bool, told: Step) -> (r: Vec<Step>)
    requires
        is_sound(old(c)@),
        old(c).queue.epoch < u64::MAX,
    ensures
        final(c)@ == session_left(old(c)@, keep),
        step_views(r@) == left_steps().push(told@),
        is_sound(final(c)@),
{
    let mut steps: Vec<Step> = clear_session(c, keep);
    let quiet: Vec<Step> = switch_auth(&mut c.auth, 0);
    then_all(&mut steps, quiet);
    then_do(&mut steps, told);
    c.auth.open = true;
    sync_operation_state(&mut c.queue);
    steps
}

/// The steps that show changed references.
pub open spec fn references_shown() -> Seq<StepView> {
    seq![StepView::Draw(Panel::References), StepView::RefreshQuote]
}

fn show_references() -> (r: Vec<Step>)
    ensures
        step_views(r@) == references_shown(),
{
    let mut steps: Vec<Step> = one(Step::Draw(Panel::References));
    then_do(&mut steps, Step::RefreshQuote);
    proof {
        assert(step_views(steps@) =~= references_shown());
    }
    steps
}

/// What a step after a failure makes of the client.
pub open spec fn failure_taken(c: ClientView, step: FailureView) -> (
    ClientView,
    Seq<StepView>,
) {
    match step {
        FailureView::ExportStopped(message) => (
            ClientView {
                export: match c.export {
                    Some(job) => Some(ExportView { running: false, ..job }),
                    None => None,
                },
                panel: PanelView { running: false, message, ..c.panel },
                ..c
            },
            Seq::empty(),
        ),
        FailureView::DialogError(message) => (
            ClientView {
                personal: PersonalView {
                    dialog_busy: false,
                    dialog_error: message,
                    ..c.personal
                },
                ..c
            },
            Seq::empty(),
        ),
        FailureView::SessionExpired => (
            session_left(c, true),
            left_steps().push(StepView::Error("登录状态已失效，请重新登录"@)),
        ),
        FailureView::LoggedOut => (
            session_left(c, false),
            left_steps().push(StepView::Notice("已在本机退出登录"@)),
        ),
        FailureView::ClearPassword => (
            ClientView { auth: AuthView { password: ""@, ..c.auth }, ..c },
            Seq::empty(),
        ),
        FailureView::SwitchAuth(mode) => (
            ClientView { auth: switched(c.auth, mode), ..c },
            quieted(),
        ),
        FailureView::ResendSeconds(n) => (
            ClientView { auth: AuthView { resend_seconds: n, ..c.auth }, ..c },
            Seq::empty(),
        ),
        FailureView::ExpireReferences => (
            with_references(c, all_stale(c.studio.references)),
            references_shown(),
        ),
        FailureView::ReferenceFailed(id, message) => (
            with_references(c, one_failed(c.studio.references, id, message)),
            references_shown(),
        ),
        FailureView::ForgetTaskReference(id) => (
            ClientView {
                tasks: TaskListView { references: c.tasks.references.remove(id), ..c.tasks },
                ..c
            },
            Seq::empty(),
        ),
        FailureView::ForgetDownload(id) => (
            ClientView {
                tasks: TaskListView { attempts: c.tasks.attempts.remove(id), ..c.tasks },
                ..c
            },
            Seq::empty(),
        ),
        FailureView::PreviewFailed(id, token, message) => (
            ClientView { preview: preview_failed(c.preview, id, token, message), ..c },
            Seq::empty(),
        ),
        FailureView::DropPickerBatch => (
            ClientView { picker: PickerView { batch: None, ..c.picker }, ..c },
            Seq::empty(),
        ),
        FailureView::RefreshQuote => (c, seq![StepView::RefreshQuote]),
        FailureView::ShowError(message) => (c, seq![StepView::Error(message)]),
        FailureView::ShowErrorIfQuiet(message) => if !c.auth.open
            && c.studio.form.error == ""@ {
            (c, seq![StepView::Error(message)])
        } else {
            (c, Seq::empty())
        },
    }
}

/// Whether a step ends the session.
pub open spec fn ends(step: FailureView) -> bool {
    step is SessionExpired || step is LoggedOut
}

fn stop_export(c: &mut Client, message: String)
    ensures
        final(c)@ == failure_taken(old(c)@, FailureView::ExportStopped(message@)).0,
        final(c).queue == old(c).queue,
{
    let mut export: Option<ExportCopyJob> = None;
    std::mem::swap(&mut export, &mut c.export);
    if let Some(mut job) = export {
        job.running = false;
        c.export = Some(job);
    }
    c.panel.running = false;
    c.panel.message = message;
}

fn set_references(c: &mut Client, references: Vec<Json>)
    requires
        forall|i: int|
            0 <= i < references@.len() ==> (#[trigger] models(references@)[i]) is Object,
    ensures
        final(c)@ == with_references(old(c)@, models(references@)),
        final(c).queue == old(c).queue,
        is_sound(final(c)@),
{
    c.studio.references = references;
    sync_reference_recovery_warning(&mut c.studio.form, &c.studio.references);
}

fn take_references(c: &mut Client) -> (r: Vec<Json>)
    requires
        is_sound(old(c)@),
    ensures
        models(r@) == old(c)@.studio.references,
        forall|i: int| 0 <= i < r@.len() ==> (#[trigger] models(r@)[i]) is Object,
        final(c)@ == old(c)@,
        *final(c) == *old(c),
{
    let r: Vec<Json> = copy_all(&c.studio.references);
    proof {
        assert(models(r@).len() == r@.len());
        assert forall|i: int| 0 <= i < r@.len() implies (#[trigger] models(r@)[i]) is Object by {
            assert(c@.studio.references[i] is Object);
        }
    }
    r
}

fn expire_references(c: &mut Client)
    requires
        is_sound(old(c)@),
    ensures
        final(c)@ == with_references(old(c)@, all_stale(old(c)@.studio.references)),
        final(c).queue == old(c).queue,
        is_sound(final(c)@),
{
    let mut references: Vec<Json> = take_references(c);
    let ghost before = models(references@);
    expire_ready(&mut references);
    proof {
        assert(models(references@).len() == references@.len());
        assert forall|i: int| 0 <= i < references@.len() implies (#[trigger] models(
            references@,
        )[i]) is Object by {
            assert(before[i] is Object);
        }
    }
    set_references(c, references);
}

fn lose_reference(c: &mut Client, id: &str, message: &str)
    requires
        is_sound(old(c)@),
    ensures
        final(c)@ == with_references(
            old(c)@,
            one_failed(old(c)@.studio.references, id@, message@),
        ),
        final(c).queue == old(c).queue,
        is_sound(final(c)@),
{
    let mut references: Vec<Json> = take_references(c);
    let ghost before = models(references@);
    fail_reference(&mut references, id, message);
    proof {
        crate::lists::first_from_found(before, text_is("client_id"@, id@), 0);
        assert(models(references@).len() == references@.len());
        assert forall|i: int| 0 <= i < references@.len() implies (#[trigger] models(
            references@,
        )[i]) is Object by {
            assert(before[i] is Object);
        }
    }
    set_references(c, references);
}

fn take_account_step(c: &mut Client, step: &FailureStep) -> (r: Option<Vec<Step>>)
    requires
        is_sound(old(c)@),
        ends(step@) ==> old(c).queue.epoch < u64::MAX,
    ensures
        r is Some ==> (final(c)@, step_views(r->0@)) == failure_taken(old(c)@, step@),
        r is Some <==> (ends(step@) || step is ClearPassword || step is SwitchAuth
            || step is ResendSeconds),
        r is None ==> *final(c) == *old(c),
        is_sound(final(c)@),
        !ends(step@) ==> final(c).queue == old(c).queue,
{
    match step {
        FailureStep::SessionExpired => {
            Some(leave_session(c, true, Step::Error("登录状态已失效，请重新登录".to_owned())))
        },
        FailureStep::LoggedOut => {
            Some(leave_session(c, false, Step::Notice("已在本机退出登录".to_owned())))
        },
        FailureStep::ClearPassword => {
            c.auth.password = "".to_owned();
            Some(none())
        },
        FailureStep::SwitchAuth(mode) => {
            Some(switch_auth(&mut c.auth, *mode))
        },
        FailureStep::ResendSeconds(n) => {
            c.auth.resend_seconds = *n;
            Some(none())
        },
        _ => None,
    }
}

fn take_file_step(c: &mut Client, step: &FailureStep) -> (r: Option<Vec<Step>>)
    requires
        is_sound(old(c)@),
    ensures
        r is Some ==> (final(c)@, step_views(r->0@)) == failure_taken(old(c)@, step@),
        r is Some <==> (step is DialogError || step is ForgetTaskReference
            || step is ForgetDownload || step is PreviewFailed || step is DropPickerBatch),
        r is None ==> *final(c) == *old(c),
        is_sound(final(c)@),
        final(c).queue == old(c).queue,
{
    match step {
        FailureStep::DialogError(message) => {
            c.personal.dialog_busy = false;
            c.personal.dialog_error = message.clone();
        },
        FailureStep::ForgetTaskReference(id) => {
            c.tasks.references.remove(id.as_str());
        },
        FailureStep::ForgetDownload(id) => {
            c.tasks.attempts.remove(id.as_str());
        },
        FailureStep::PreviewFailed(id, token, message) => {
            fail_media_preview(&mut c.preview, id.as_str(), *token, message.as_str());
        },
        FailureStep::DropPickerBatch => {
            c.picker.batch = None;
        },
        _ => {
            return None;
        },
    }
    Some(none())
}

fn take_step(c: &mut Client, step: FailureStep) -> (r: Vec<Step>)
    requires
        is_sound(old(c)@),
        ends(step@) ==> old(c).queue.epoch < u64::MAX,
    ensures
        (final(c)@, step_views(r@)) == failure_taken(old(c)@, step@),
        is_sound(final(c)@),
        !ends(step@) ==> final(c).queue == old(c).queue,
{
    if let Some(steps) = take_account_step(c, &step) {
        return steps;
    }
    if let Some(steps) = take_file_step(c, &step) {
        return steps;
    }
    match step {
        FailureStep::ExportStopped(message) => {
            stop_export(c, message);
            none()
        },
        FailureStep::ExpireReferences => {
            expire_references(c);
            show_references()
        },
        FailureStep::ReferenceFailed(id, message) => {
            lose_reference(c, id.as_str(), message.as_str());
            show_references()
        },
        FailureStep::RefreshQuote => one(Step::RefreshQuote),
        FailureStep::ShowError(message) => one(Step::Error(message)),
        FailureStep::ShowErrorIfQuiet(message) => {
            if !c.auth.open && same(c.studio.form.error.as_str(), "") {
                one(Step::Error(message))
            } else {
                none()
            }
        },
        _ => none(),
    }
}

/// What the steps after a failure make of the client, one after the other.
pub open spec fn failures_taken(c: ClientView, steps: Seq<FailureView>) -> (
    ClientView,
    Seq<StepView>,
)
    decreases steps.len(),
{
    if steps.len() == 0 {
        (c, Seq::empty())
    } else {
        let (before, out) = failures_taken(c, steps.drop_last());
        let (after, more) = failure_taken(before, steps.last());
        (after, out + more)
    }
}

/// No step ends the session.
pub open spec fn is_calm(steps: Seq<FailureView>) -> bool {
    forall|k: int| 0 <= k < steps.len() ==> !ends(#[trigger] steps[k])
}

proof fn calm_with_one_more(steps: Seq<FailureView>, condition: bool, step: FailureView)
    requires
        is_calm(steps),
        condition ==> !ends(step),
    ensures
        is_calm(and_then_if(steps, condition, step)),
{
}

proof fn account_failures_are_calm(first: Seq<FailureView>, name: Seq<char>, error: ErrorView)
    requires
        is_calm(first),
    ensures
        is_calm(account_failure(first, name, error)),
{
    let s1 = and_then_if(first, name == "login"@, FailureView::ClearPassword);
    calm_with_one_more(first, name == "login"@, FailureView::ClearPassword);
    let c2 = name == "login"@ && error.code == "EMAIL_NOT_VERIFIED"@;
    let s2 = and_then_if(s1, c2, FailureView::SwitchAuth(3));
    calm_with_one_more(s1, c2, FailureView::SwitchAuth(3));
    let c3 = name == "register"@ && error.code == "EMAIL_ALREADY_REGISTERED"@;
    let s3 = and_then_if(s2, c3, FailureView::SwitchAuth(0));
    calm_with_one_more(s2, c3, FailureView::SwitchAuth(0));
    let c4 = name == "register"@ && error.code == "EMAIL_DELIVERY_UNAVAILABLE"@;
    let s4 = and_then_if(s3, c4, FailureView::SwitchAuth(3));
    calm_with_one_more(s3, c4, FailureView::SwitchAuth(3));
    let c5 = (name == "verification-resend"@ || name == "password-reset-request"@)
        && error.retry_after > 0;
    let s5 = and_then_if(s4, c5, FailureView::ResendSeconds(error.retry_after));
    calm_with_one_more(s4, c5, FailureView::ResendSeconds(error.retry_after));
    let c6 = (name == "quote"@ || name == "generate"@) && has_prefix(
        error.code,
        "GENERATION_ASSET_"@,
    );
    calm_with_one_more(s5, c6, FailureView::ExpireReferences);
}

proof fn plain_failures_are_calm(
    first: Seq<FailureView>,
    name: Seq<char>,
    error: ErrorView,
    signed_in: bool,
)
    requires
        is_calm(first),
    ensures
        is_calm(plain_failure(first, name, error, signed_in)),
{
    account_failures_are_calm(first, name, error);
    let s6 = account_failure(first, name, error);
    let s7 = match prefix_rest(name, "reference:"@) {
        Some(id) => s6.push(FailureView::ReferenceFailed(id, error.message)),
        None => s6,
    };
    assert(is_calm(s7));
    let s8 = match prefix_rest(name, "local-reference:"@) {
        Some(id) => s7.push(FailureView::ForgetTaskReference(id)),
        None => s7,
    };
    assert(is_calm(s8));
    let s9 = match prefix_rest(name, "local-cache:"@) {
        Some(id) => s8.push(FailureView::ForgetDownload(id)),
        None => s8,
    };
    assert(is_calm(s9));
    let s10 = match preview_job(name) {
        Some((id, token)) => s9.push(
            FailureView::PreviewFailed(id, token as u64, error.message),
        ),
        None => s9,
    };
    assert(is_calm(s10));
    let s11 = and_then_if(s10, name == "picker-batch"@, FailureView::DropPickerBatch);
    calm_with_one_more(s10, name == "picker-batch"@, FailureView::DropPickerBatch);
    calm_with_one_more(s11, name == "generate"@, FailureView::RefreshQuote);
    let s12 = and_then_if(s11, name == "generate"@, FailureView::RefreshQuote);
    assert(is_calm(s12.push(FailureView::ShowError(error.message))));
    assert(is_calm(s12.push(FailureView::ShowErrorIfQuiet(error.message))));
}

/// Only the last step after a failure ends the session.
proof fn sessions_end_last(name: Seq<char>, error: ErrorView, signed_in: bool)
    ensures
        failure_of(name, error, signed_in).0.len() > 0 ==> is_calm(
            failure_of(name, error, signed_in).0.drop_last(),
        ),
{
    let first = and_then_if(
        Seq::empty(),
        name == "export-copy"@,
        FailureView::ExportStopped("导出中断："@ + error.message),
    );
    assert(is_calm(first));
    plain_failures_are_calm(first, name, error, signed_in);
    assert(first.push(FailureView::SessionExpired).drop_last() =~= first);
    assert(first.push(FailureView::LoggedOut).drop_last() =~= first);
    let all = failure_of(name, error, signed_in).0;
    if all.len() > 0 {
        assert forall|k: int| 0 <= k < all.drop_last().len() implies !ends(
            #[trigger] all.drop_last()[k],
        ) by {
            assert(all.drop_last()[k] == all[k]);
        }
    }
}

/// What the failure of a job makes of the client, and whether the next waiting
/// job follows.
pub open spec fn job_lost(c: ClientView, name: Seq<char>, error: ErrorView) -> (
    ClientView,
    Seq<StepView>,
    bool,
) {
    let (steps, next) = failure_of(name, error, c.studio.signed_in);
    let (after, out) = failures_taken(c, steps);
    (after, out, next)
}

/// Takes the failure of a job. The result holds the steps to take, and says
/// whether the next waiting job follows.
pub fn fail_job(c: &mut Client, name: &str, error: &ClientError) -> (r: (
    Vec<Step>,
    bool,
))
    requires
        is_sound(old(c)@),
        old(c).queue.epoch < u64::MAX,
    ensures
        (final(c)@, step_views(r.0@), r.1) == job_lost(old(c)@, name@, error@),
        is_sound(final(c)@),
{
    let ghost start = c@;
    let (mut steps, next): (Vec<FailureStep>, bool) = job_failed(
        name,
        error,
        c.studio.signed_in,
    );
    let ghost all = failure_views(steps@);
    proof {
        sessions_end_last(name@, error@, start.studio.signed_in);
        assert(all.take(0) =~= Seq::empty());
        assert(all.skip(0) =~= all);
    }
    let mut out: Vec<Step> = none();
    let ghost mut i: int = 0;
    while steps.len() > 0
        invariant
            0 <= i <= all.len(),
            failure_views(steps@) == all.skip(i),
            is_sound(c@),
            all.len() > 0 ==> is_calm(all.drop_last()),
            i < all.len() ==> c.queue.epoch < u64::MAX,
            (c@, step_views(out@)) == failures_taken(start, all.take(i)),
        decreases steps.len(),
    {
        let ghost rest = steps@;
        let ghost here = c@;
        let ghost done = step_views(out@);
        let step: FailureStep = steps.remove(0);
        proof {
            assert(failure_views(rest).len() == rest.len());
            assert(all.skip(i).len() == all.len() - i);
            assert(failure_views(rest)[0] == step@);
            assert(all.skip(i)[0] == all[i]);
            assert(all.take(i + 1).drop_last() =~= all.take(i));
            assert(all.take(i + 1).last() == all[i]);
            assert forall|j: int| 0 <= j < steps@.len() implies (#[trigger] failure_views(
                steps@,
            )[j]) == all.skip(i + 1)[j] by {
                assert(failure_views(rest)[j + 1] == all.skip(i)[j + 1]);
            }
            assert(failure_views(steps@) =~= all.skip(i + 1));
            if i + 1 < all.len() {
                assert(all.drop_last()[i] == all[i]);
            }
        }
        let more: Vec<Step> = take_step(c, step);
        then_all(&mut out, more);
        proof {
            i = i + 1;
        }
    }
    proof {
        assert(all.skip(i).len() == 0);
        assert(all.take(i) =~= all);
    }
    (out, next)
}

/// What became of a job.
pub enum JobEnd {
    Answered(Json),
    Failed(ClientError),
}

/// What the end of a job makes of the client: an end that belongs to another
/// session is left alone.
pub open spec fn job_ended(
    c: ClientView,
    name: Seq<char>,
    epoch: u64,
    end: JobEnd,
    present: Set<Seq<char>>,
    sizes: Seq<u64>,
) -> (ClientView, Seq<StepView>, bool) {
    if c.queue.epoch != epoch {
        (c, Seq::empty(), false)
    } else {
        let idle = ClientView {
            queue: QueueView { busy: false, active_name: ""@, ..c.queue },
            ..c
        };
        match end {
            JobEnd::Answered(value) => {
                let (after, steps) = published(
                    idle,
                    name,
                    value@,
                    present,
                    sizes,
                    initial(c.auth.email),
                );
                (after, steps, true)
            },
            JobEnd::Failed(error) => job_lost(idle, name, error@),
        }
    }
}

/// Takes the end of a job of a session. The result holds the steps to take, and says whether the next waiting job
/// is started after them.
pub fn poll(
    c: &mut Client,
    name: &str,
    epoch: u64,
    end: JobEnd,
    world: &World,
) -> (r: (Vec<Step>, bool))
    requires
        is_sound(old(c)@),
        old(c).queue.epoch < u64::MAX,
        old(c).export matches Some(job) ==> world.sizes.len() == job.items.len(),
        has_prefix(name@, "reference:"@) && end is Answered ==> end->Answered_0@.settable(),
    ensures
        (final(c)@, step_views(r.0@), r.1) == job_ended(
            old(c)@,
            name@,
            epoch,
            end,
            world.present@,
            world.sizes@,
        ),
        is_sound(final(c)@),
{
    if !job_answered(&mut c.queue, epoch) {
        return (none(), false);
    }
    match end {
        JobEnd::Answered(value) => (publish(c, name, &value, world), true),
        JobEnd::Failed(error) => fail_job(c, name, &error),
    }
}

/// The end of a job of an earlier session changes nothing.
pub proof fn late_jobs_change_nothing(
    c: ClientView,
    name: Seq<char>,
    epoch: u64,
    end: JobEnd,
    present: Set<Seq<char>>,
    sizes: Seq<u64>,
)
    requires
        c.queue.epoch != epoch,
    ensures
        job_ended(c, name, epoch, end, present, sizes) == (c, Seq::<StepView>::empty(), false),
{
}

/// A job that fails because the session has ended leaves no session, asks the
/// user to sign in, and starts nothing else.
pub proof fn expired_sessions_ask_to_sign_in(
    c: ClientView,
    name: Seq<char>,
    error: ErrorView,
)
    requires
        c.studio.signed_in,
        ends_session(error),
        name != "logout"@,
        !auth_job(name),
        !has_prefix(name, "personal-dialog-"@),
    ensures
        ({
            let (after, steps, next) = job_lost(c, name, error);
            &&& !after.studio.signed_in
            &&& after.auth.open
            &&& after.queue.pending.len() == 0
            &&& steps.last() == StepView::Error("登录状态已失效，请重新登录"@)
            &&& !next
        }),
{
    let first = and_then_if(
        Seq::empty(),
        name == "export-copy"@,
        FailureView::ExportStopped("导出中断："@ + error.message),
    );
    let all = first.push(FailureView::SessionExpired);
    assert(all.drop_last() =~= first);
    assert(first.len() > 0 ==> first.drop_last() =~= Seq::empty());
    reveal_with_fuel(failures_taken, 3);
}

/// The name of a refresh that the client makes by itself.
pub open spec fn is_refresh(name: Seq<char>) -> bool {
    name == "tasks"@ || name == "wallet"@ || name == "models"@ || name == "teams"@ || name
        == "assets"@
}

proof fn refreshes_are_plain(name: Seq<char>)
    requires
        is_refresh(name),
    ensures
        background_job(name),
        !auth_job(name),
        name != "export-copy"@ && name != "logout"@ && name != "quote"@ && name != "generate"@
            && name != "picker-batch"@,
        prefix_rest(name, "local-cache:"@) is None,
        prefix_rest(name, "reference:"@) is None,
        prefix_rest(name, "local-reference:"@) is None,
        preview_job(name) is None,
        !has_prefix(name, "personal-dialog-"@),
{
    reveal_strlit("tasks");
    reveal_strlit("wallet");
    reveal_strlit("models");
    reveal_strlit("teams");
    reveal_strlit("assets");
    reveal_strlit("export-copy");
    reveal_strlit("logout");
    reveal_strlit("quote");
    reveal_strlit("generate");
    reveal_strlit("picker-batch");
    reveal_strlit("login");
    reveal_strlit("register");
    reveal_strlit("verify-email");
    reveal_strlit("verification-resend");
    reveal_strlit("password-reset-request");
    reveal_strlit("password-reset-confirm");
    reveal_strlit("local-cache:");
    reveal_strlit("reference:");
    reveal_strlit("local-reference:");
    reveal_strlit("media-preview:");
    reveal_strlit("personal-dialog-");
    assert(name.len() <= 6);
    assert("tasks"@[0] == 't' && "wallet"@[0] == 'w' && "models"@[0] == 'm' && "teams"@[0] == 't'
        && "assets"@[0] == 'a');
    assert("logout"@[0] == 'l' && "login"@[0] == 'l' && "quote"@[0] == 'q');
    assert("export-copy"@.len() == 11 && "generate"@.len() == 8 && "picker-batch"@.len() == 12);
    assert("register"@.len() == 8 && "verify-email"@.len() == 12);
    assert("verification-resend"@.len() == 19 && "password-reset-request"@.len() == 22
        && "password-reset-confirm"@.len() == 22);
    assert("local-cache:"@.len() == 12 && "reference:"@.len() == 10 && "local-reference:"@.len()
        == 16 && "media-preview:"@.len() == 14 && "personal-dialog-"@.len() == 16);
}

/// A refresh that fails says nothing and changes nothing where the sign-in form
/// is open or another error is shown, unless it ends the session.
pub proof fn refreshes_fail_quietly(
    c: ClientView,
    name: Seq<char>,
    error: ErrorView,
)
    requires
        is_refresh(name),
        !(c.studio.signed_in && ends_session(error)),
        c.auth.open || c.studio.form.error != ""@,
    ensures
        job_lost(c, name, error) == (c, Seq::<StepView>::empty(), true),
{
    refreshes_are_plain(name);
    reveal_strlit("login");
    reveal_strlit("register");
    let steps = failure_of(name, error, c.studio.signed_in).0;
    reveal_with_fuel(failures_taken, 2);
    if steps.len() > 0 {
        assert(steps =~= seq![FailureView::ShowErrorIfQuiet(error.message)]);
        assert(steps.drop_last() =~= Seq::empty());
    }
}

/// A reference that counts as expired is not ready.
proof fn stale_is_not_ready(reference: JsonModel)
    requires
        reference is Object,
    ensures
        stale(reference).text("status"@) != "ready"@,
{
    reveal_strlit("ready");
    reveal_strlit("expired");
    assert("ready"@.len() == 5 && "expired"@.len() == 7);
    crate::json::replaced_lookup(
        reference->Object_0,
        "status"@,
        JsonModel::Text("expired"@),
        "status"@,
    );
}

/// Where a quote is refused because of its references, the form warns of them,
/// and that is the error that is shown: the message of the service does not
/// take its place.
pub proof fn refused_references_are_told_once(c: ClientView, error: ErrorView)
    requires
        is_sound(c),
        c.studio.references.len() > 0,
        has_prefix(error.code, "GENERATION_ASSET_"@),
        !(c.studio.signed_in && ends_session(error)),
    ensures
        ({
            let (after, steps, next) = job_lost(c, "quote"@, error);
            &&& after == with_references(c, all_stale(c.studio.references))
            &&& after.studio.form.error == after.studio.form.recovery_warning
            &&& after.studio.form.error.len() > 0
            &&& steps == references_shown()
            &&& next
        }),
{
    let name = "quote"@;
    let references = all_stale(c.studio.references);
    let after = with_references(c, references);
    let last = c.studio.references.last();
    assert(c.studio.references[c.studio.references.len() - 1] is Object);
    stale_is_not_ready(last);
    let p = crate::lists::text_is_not("status"@, "ready"@);
    assert(references.last() == stale(last));
    assert(p(references.last()));
    assert(crate::lists::kept(references, p).len() > 0);
    reveal_strlit("项参考素材仍需处理：");
    assert(after.studio.form.error.len() > 0);
    reveal_strlit("quote");
    reveal_strlit("login");
    reveal_strlit("register");
    reveal_strlit("logout");
    reveal_strlit("generate");
    reveal_strlit("picker-batch");
    reveal_strlit("export-copy");
    reveal_strlit("verify-email");
    reveal_strlit("verification-resend");
    reveal_strlit("password-reset-request");
    reveal_strlit("password-reset-confirm");
    reveal_strlit("reference:");
    reveal_strlit("local-reference:");
    reveal_strlit("local-cache:");
    reveal_strlit("media-preview:");
    reveal_strlit("personal-dialog-");
    assert(name.len() == 5 && name[0] == 'q' && "login"@[0] == 'l');
    assert("logout"@.len() == 6 && "register"@.len() == 8 && "generate"@.len() == 8
        && "picker-batch"@.len() == 12 && "export-copy"@.len() == 11 && "verify-email"@.len() == 12
        && "verification-resend"@.len() == 19 && "password-reset-request"@.len() == 22
        && "password-reset-confirm"@.len() == 22);
    assert("reference:"@.len() == 10 && "local-reference:"@.len() == 16 && "local-cache:"@.len()
        == 12 && "media-preview:"@.len() == 14 && "personal-dialog-"@.len() == 16);
    let first = seq![FailureView::ExpireReferences];
    let steps = failure_of(name, error, c.studio.signed_in).0;
    reveal_with_fuel(failures_taken, 3);
    assert(first.drop_last() =~= Seq::empty());
    assert(Seq::<StepView>::empty() + references_shown() =~= references_shown());
    reveal_strlit("");
    assert(first.last() == FailureView::ExpireReferences);
    assert(failures_taken(c, first) == (after, references_shown()));
    if steps.len() == 1 {
        assert(steps =~= first);
    } else {
        assert(steps =~= first.push(FailureView::ShowErrorIfQuiet(error.message)));
        assert(steps.drop_last() =~= first);
        assert(after.studio.form.error != ""@);
        assert(failure_taken(after, steps.last()) == (after, Seq::<StepView>::empty()));
        assert(references_shown() + Seq::<StepView>::empty() =~= references_shown());
        assert(failures_taken(c, steps) == (after, references_shown()));
    }
}

} // verus!
