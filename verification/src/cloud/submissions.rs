//! Sending a generation, and what its tasks were made from.

use crate::cloud::configuration::{
    current_task_snapshot, saved_references, shown_parameters, SnapshotView, TaskInputSnapshot,
};
use crate::cloud::generation::{form_model, generation_body, generation_of, QuoteView};
use crate::cloud::references::{reference_validation, references_fault};
use crate::cloud::requests::{Request, RequestView};
use crate::cloud::steps::{
    fetch, fetching, none, one, step_if, step_views, then_do, Step, StepView,
};
use crate::cloud::studio::{PendingSubmission, Studio, StudioView, SubmissionView};
use crate::cloud::tasks::{TaskList, TaskListView};
use crate::ids::{fresh_id, is_uuid};
use crate::json::{models, Json, JsonModel};
use crate::text::{same, views};
use vstd::prelude::*;
use vstd::string::*;

verus! {

/// What the form would send now.
pub open spec fn body_of(studio: StudioView) -> JsonModel {
    generation_of(studio.form, studio.prompt.prompt, studio.catalog, studio.references)
}

/// What the form is made of now.
pub open spec fn snapshot_now(studio: StudioView) -> SnapshotView {
    SnapshotView {
        mode: studio.form.mode,
        prompt: studio.prompt.prompt,
        model_id: crate::cloud::catalog::selected_id(
            studio.form.mode,
            studio.form.model_index,
            studio.catalog,
        ),
        parameters: shown_parameters(studio.form, form_model(studio.form, studio.catalog)),
        references: saved_references(studio.references),
    }
}

/// Why the references of the form cannot be sent.
pub open spec fn fault_of(studio: StudioView) -> Seq<char> {
    references_fault(
        studio.form.mode,
        studio.form.model_index,
        studio.form.reference_max,
        studio.prompt.prompt,
        studio.catalog,
        studio.references,
    )
}

/// The idempotency key of a generation: that of the one before where the same
/// is sent again.
pub open spec fn key_for(studio: StudioView, fresh: Seq<char>) -> Seq<char> {
    match studio.submission {
        Some(s) => if s.body == body_of(studio) {
            s.key
        } else {
            fresh
        },
        None => fresh,
    }
}

/// The studio and the steps when a generation is asked for. It is sent only
/// for a quote of exactly what the form shows.
pub open spec fn generation_asked(studio: StudioView, fresh: Seq<char>) -> (
    StudioView,
    Seq<StepView>,
) {
    let body = body_of(studio);
    let key = key_for(studio, fresh);
    if !studio.signed_in {
        (studio, seq![StepView::ShowAuth(Some(1))])
    } else if fault_of(studio).len() > 0 {
        (studio, seq![StepView::Error(fault_of(studio))])
    } else if studio.quote.id.len() == 0 || body != studio.quote.body {
        (studio, seq![StepView::RefreshQuote])
    } else {
        (
            StudioView {
                submission: Some(SubmissionView { body, key, snapshot: snapshot_now(studio) }),
                ..studio
            },
            seq![
                StepView::Job(
                    "generate"@,
                    RequestView {
                        method: "POST"@,
                        path: if studio.form.mode == 0 {
                            "/api/generation/images"@
                        } else {
                            "/api/generation/videos"@
                        },
                        body: body.with("quote_id"@, JsonModel::Text(studio.quote.id)),
                        idem: Some(key),
                    },
                ),
            ],
        )
    }
}

/// Sends a generation; a new one gets the key `fresh`.
pub fn generate_with(studio: &mut Studio, fresh: &str) -> (r: Vec<Step>)
    ensures
        (final(studio)@, step_views(r@)) == generation_asked(old(studio)@, fresh@),
{
    if !studio.signed_in {
        return one(Step::ShowAuth(Some(1)));
    }
    let fault: String = reference_validation(
        studio.form.mode,
        studio.form.model_index,
        studio.form.reference_max,
        studio.prompt.prompt.as_str(),
        &studio.catalog,
        &studio.references,
    );
    if !fault.as_str().is_empty() {
        return one(Step::Error(fault));
    }
    let body: Json = generation_body(
        &studio.form,
        studio.prompt.prompt.as_str(),
        &studio.catalog,
        &studio.references,
    );
    if studio.quote.id.as_str().is_empty() || !body.same(&studio.quote.body) {
        return one(Step::RefreshQuote);
    }
    let key: String = match &studio.submission {
        Some(s) => if s.body.same(&body) {
            s.key.clone()
        } else {
            fresh.to_owned()
        },
        None => fresh.to_owned(),
    };
    let snapshot: TaskInputSnapshot = current_task_snapshot(
        &studio.form,
        studio.prompt.prompt.as_str(),
        &studio.catalog,
        &studio.references,
    );
    studio.submission = Some(
        PendingSubmission { body: body.copy(), key: key.clone(), snapshot },
    );
    let path: &'static str = if studio.form.mode == 0 {
        "/api/generation/images"
    } else {
        "/api/generation/videos"
    };
    let sent: Json = body.with("quote_id", Json::from_text(studio.quote.id.as_str()));
    one(
        Step::Job(
            "generate".to_owned(),
            Request { method: "POST".to_owned(), path: path.to_owned(), body: sent, idem: Some(key) },
        ),
    )
}

/// Sends a generation; a new one gets a key by chance.
pub fn generate(studio: &mut Studio) -> (r: Vec<Step>)
    ensures
        exists|fresh: Seq<char>|
            is_uuid(fresh) && (final(studio)@, step_views(r@)) == #[trigger] generation_asked(
                old(studio)@,
                fresh,
            ),
{
    let fresh: String = fresh_id();
    generate_with(studio, fresh.as_str())
}

/// The tasks that a generation has made.
pub open spec fn made_ids(value: JsonModel) -> Seq<Seq<char>> {
    match value.at("tasks"@).as_array() {
        Some(tasks) => Seq::new(tasks.len(), |i: int| tasks[i].text("id"@)),
        None => seq![value.text("id"@)],
    }
}

fn list_made(value: &Json) -> (r: Vec<String>)
    ensures
        views(r@) == made_ids(value@),
{
    let tasks: Json = value.at("tasks");
    match &tasks {
        Json::Array(list) => {
            let mut out: Vec<String> = Vec::new();
            let mut i: usize = 0;
            proof {
                assert(tasks@->Array_0 =~= models(list@));
            }
            while i < list.len()
                invariant
                    i <= list.len(),
                    out@.len() == i,
                    forall|j: int|
                        0 <= j < i ==> (#[trigger] out@[j])@ == models(list@)[j].text("id"@),
                decreases list.len() - i,
            {
                out.push(list[i].text("id"));
                i = i + 1;
            }
            proof {
                assert(views(out@) =~= made_ids(value@));
            }
            out
        },
        _ => {
            let mut out: Vec<String> = Vec::new();
            out.push(value.text("id"));
            proof {
                assert(views(out@) =~= made_ids(value@));
            }
            out
        },
    }
}

/// The notes of what tasks were made from, with those of these tasks.
pub open spec fn noted(
    snapshots: Map<Seq<char>, SnapshotView>,
    ids: Seq<Seq<char>>,
    snapshot: SnapshotView,
) -> Map<Seq<char>, SnapshotView>
    decreases ids.len(),
{
    if ids.len() == 0 {
        snapshots
    } else {
        let before = noted(snapshots, ids.drop_last(), snapshot);
        if ids.last().len() > 0 {
            before.insert(ids.last(), snapshot)
        } else {
            before
        }
    }
}

/// Whether one of the identities is not empty.
pub open spec fn any_named(ids: Seq<Seq<char>>) -> bool {
    exists|i: int| 0 <= i < ids.len() && (#[trigger] ids[i]).len() > 0
}

fn note_snapshots(list: &mut TaskList, ids: &Vec<String>, snapshot: &TaskInputSnapshot) -> (r: bool)
    ensures
        r == any_named(views(ids@)),
        final(list)@ == (TaskListView {
            snapshots: noted(old(list)@.snapshots, views(ids@), snapshot@),
            ..old(list)@
        }),
{
    let ghost before = list@;
    let ghost all = views(ids@);
    let mut named: bool = false;
    let mut i: usize = 0;
    proof {
        assert(all.take(0) =~= Seq::empty());
    }
    while i < ids.len()
        invariant
            i <= ids.len(),
            all == views(ids@),
            named == exists|j: int| 0 <= j < i && (#[trigger] all[j]).len() > 0,
            list@ == (TaskListView {
                snapshots: noted(before.snapshots, all.take(i as int), snapshot@),
                ..before
            }),
        decreases ids.len() - i,
    {
        proof {
            assert(all.take(i + 1).drop_last() =~= all.take(i as int));
            assert(all.take(i + 1).last() == ids@[i as int]@);
            assert(all[i as int] == ids@[i as int]@);
        }
        if !ids[i].as_str().is_empty() {
            named = true;
            list.snapshots.insert(ids[i].as_str(), snapshot.copy());
        }
        i = i + 1;
    }
    proof {
        assert(all.take(all.len() as int) =~= all);
    }
    named
}

/// The studio, the tasks and the steps when a generation has been answered.
pub open spec fn generation_answered(studio: StudioView, list: TaskListView, value: JsonModel) -> (
    StudioView,
    TaskListView,
    Seq<StepView>,
) {
    let ids = made_ids(value);
    let saved = studio.submission is Some && any_named(ids);
    (
        StudioView {
            submission: None,
            quote: QuoteView { id: ""@, can_generate: false, ..studio.quote },
            ..studio
        },
        TaskListView {
            snapshots: match studio.submission {
                Some(s) => noted(list.snapshots, ids, s.snapshot),
                None => list.snapshots,
            },
            selected_task: 0,
            ..list
        },
        step_if(Seq::empty(), saved, StepView::SaveSnapshots).push(
            StepView::Notice("任务已提交"@),
        ).push(fetch("tasks"@, "/api/generation/tasks"@)),
    )
}

/// Takes the answer to a generation.
pub fn generation_listed(studio: &mut Studio, list: &mut TaskList, value: &Json) -> (r: Vec<Step>)
    ensures
        (final(studio)@, final(list)@, step_views(r@)) == generation_answered(
            old(studio)@,
            old(list)@,
            value@,
        ),
{
    let mut steps: Vec<Step> = none();
    let mut sent: Option<PendingSubmission> = None;
    std::mem::swap(&mut sent, &mut studio.submission);
    if let Some(s) = sent {
        let ids: Vec<String> = list_made(value);
        if note_snapshots(list, &ids, &s.snapshot) {
            then_do(&mut steps, Step::SaveSnapshots);
        }
    }
    studio.quote.id = "".to_owned();
    studio.quote.can_generate = false;
    list.selected_task = 0;
    then_do(&mut steps, Step::Notice("任务已提交".to_owned()));
    then_do(&mut steps, fetching("tasks", "/api/generation/tasks"));
    steps
}

/// A generation is sent for the quote of what the form shows, and for no other.
pub proof fn generations_are_quoted(studio: StudioView, fresh: Seq<char>)
    requires
        generation_asked(studio, fresh).1.len() == 1,
        generation_asked(studio, fresh).1[0] is Job,
    ensures
        studio.quote.body == body_of(studio),
        studio.quote.id.len() > 0,
        studio.signed_in,
        fault_of(studio).len() == 0,
{
}

/// The same generation that is sent again has the same key, so that the
/// service makes it once.
pub proof fn repeated_generations_share_a_key(
    studio: StudioView,
    first: Seq<char>,
    second: Seq<char>,
)
    requires
        generation_asked(studio, first).0.submission is Some,
        generation_asked(studio, first).1.len() == 1,
        generation_asked(studio, first).1[0] is Job,
    ensures
        key_for(generation_asked(studio, first).0, second) == key_for(studio, first),
{
}

} // verus!
