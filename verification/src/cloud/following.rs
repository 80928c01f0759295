//! How generations are sent, followed and used, seen from outside.

use crate::cloud::results::{
    chosen_tasks, files_of, out_of_reach, plain_imports, results_continued, results_refused,
    task_fetched,
};
use crate::cloud::picker::{is_here, FactsView};
use crate::cloud::requests::items_of;
use crate::cloud::steps::StepView;
use crate::cloud::studio::StudioView;
use crate::cloud::submissions::{body_of, fault_of, generation_answered, generation_asked};
use crate::cloud::tasks::{
    batch_key, batch_keys, batch_members, batch_of, batch_summary, batches_of, caching, count_of,
    is_done, is_failed, item_of, label_of_stamp, member_keys, ordered_members, task_rows,
    tasks_answered, LocalStamp, ResultBatchView, TaskListView,
};
use crate::cloud::rows::ItemRow;
use crate::json::{set_members_are_found, JsonModel};
use crate::lists::{any, kept_satisfies, text_is, text_is_not};
use crate::sort::{order_of, orders_exist, row_less};
use crate::text::{decimal, minutes_and_seconds, two_digits};
use vstd::prelude::*;

verus! {

/// The states of a task are told apart.
pub(crate) proof fn states_differ()
    ensures
        "queued"@.len() == 6 && "queued"@[0] == 'q',
        "failed"@.len() == 6 && "failed"@[0] == 'f',
        "expired"@.len() == 7,
        "succeeded"@.len() == 9,
        "submitting"@.len() == 10 && "submitting"@[0] == 's',
        "processing"@.len() == 10 && "processing"@[0] == 'p',
        "validating"@.len() == 10 && "validating"@[0] == 'v',
        "provider_accepted"@.len() == 17,
{
    reveal_strlit("queued");
    reveal_strlit("submitting");
    reveal_strlit("provider_accepted");
    reveal_strlit("processing");
    reveal_strlit("validating");
    reveal_strlit("succeeded");
    reveal_strlit("failed");
    reveal_strlit("expired");
}

/// What results are wanted for is told apart.
pub(crate) proof fn purposes_differ()
    ensures
        "clip"@.len() == 4,
        "cache"@.len() == 5,
        "import"@.len() == 6 && "import"@[0] == 'i',
        "canvas"@.len() == 6 && "canvas"@[0] == 'c',
        "export"@.len() == 6 && "export"@[0] == 'e',
        "preview"@.len() == 7,
        "download"@.len() == 8,
        "reference"@.len() == 9 && "reference"@[0] == 'r',
        "save-team"@.len() == 9 && "save-team"@[0] == 's',
        "batch-output"@.len() == 12,
        "media-preview"@.len() == 13,
{
    reveal_strlit("media-preview");
    reveal_strlit("batch-output");
    reveal_strlit("preview");
    reveal_strlit("import");
    reveal_strlit("reference");
    reveal_strlit("canvas");
    reveal_strlit("download");
    reveal_strlit("save-team");
    reveal_strlit("cache");
    reveal_strlit("clip");
    reveal_strlit("export");
}

/// A generation that is sent goes to the place of its kind, pictures to that of
/// pictures and videos to that of videos, with the quote that was accepted for
/// exactly this request. What is missing is asked for instead: signing in,
/// references that are in order, or a quote.
pub proof fn generations_go_to_their_kind(studio: StudioView, fresh: Seq<char>)
    ensures
        ({
            let (now, steps) = generation_asked(studio, fresh);
            let body = body_of(studio);
            &&& steps.len() == 1
            &&& !studio.signed_in ==> steps[0] is ShowAuth
            &&& studio.signed_in && fault_of(studio).len() > 0 ==> steps[0] == StepView::Error(
                fault_of(studio),
            )
            &&& studio.signed_in && fault_of(studio).len() == 0 && (studio.quote.id.len() == 0
                || studio.quote.body != body) ==> steps[0] is RefreshQuote
            &&& studio.signed_in && fault_of(studio).len() == 0 && studio.quote.id.len() > 0
                && studio.quote.body == body ==> (steps[0] matches StepView::Job(name, request)
                && name == "generate"@ && request.method == "POST"@ && request.path == (
            if studio.form.mode == 0 {
                "/api/generation/images"@
            } else {
                "/api/generation/videos"@
            }) && request.body.at("quote_id"@) == JsonModel::Text(studio.quote.id)
                && request.idem is Some && now.submission is Some && Some(now.submission->0.key)
                == request.idem && now.submission->0.body == body)
            &&& !(steps[0] is Job) ==> now == studio
        }),
{
    let body = body_of(studio);
    crate::cloud::generation::request_is_object(
        studio.form,
        studio.prompt.prompt,
        studio.catalog,
        studio.references,
    );
    set_members_are_found(body, "quote_id"@, JsonModel::Text(studio.quote.id));
}

/// The same generation that is sent again carries the same key, so that the
/// service makes it once; another one carries a fresh key.
pub proof fn generations_are_sent_once(studio: StudioView, fresh: Seq<char>)
    requires
        generation_asked(studio, fresh).1[0] is Job,
    ensures
        ({
            let key = generation_asked(studio, fresh).1[0]->Job_1.idem;
            &&& studio.submission matches Some(last) ==> (last.body == body_of(studio) ==> key
                == Some(last.key)) && (last.body != body_of(studio) ==> key == Some(fresh))
            &&& studio.submission is None ==> key == Some(fresh)
        }),
{
}

/// A generation that was taken is settled: nothing is pending, its quote is
/// spent, and the tasks are asked for.
pub proof fn taken_generations_are_settled(studio: StudioView, list: TaskListView, value: JsonModel)
    ensures
        ({
            let (now, tasks, steps) = generation_answered(studio, list, value);
            &&& now.submission is None
            &&& now.quote.id.len() == 0 && !now.quote.can_generate
            &&& now.form == studio.form && now.prompt == studio.prompt && now.references
                == studio.references
            &&& tasks.selected_task == 0
            &&& tasks.tasks == list.tasks
            &&& steps.last() matches StepView::Job(name, request) && name == "tasks"@
                && request.path == "/api/generation/tasks"@ && request.method == "GET"@
        }),
{
    reveal_strlit("");
}

/// A task is shown ready where it succeeded or its file is here, failed where
/// it failed; the words say how far it is.
pub proof fn tasks_are_shown_as_they_are(list: TaskListView, present: Set<Seq<char>>, i: int)
    requires
        0 <= i < list.tasks.len(),
    ensures
        ({
            let v = list.tasks[i];
            let row = task_rows(list, present)[i];
            let status = v.text("status"@);
            let here = is_here(list.local, present, v.text("id"@));
            &&& task_rows(list, present).len() == list.tasks.len()
            &&& row.id == v.text("id"@) && row.name == v.text("prompt"@) && row.kind == v.text(
                "kind"@,
            )
            &&& row.ready <==> status == "succeeded"@ || here
            &&& row.failed <==> status == "failed"@
            &&& row.local == here
            &&& row.selected == list.selected.contains(v.text("id"@))
            &&& status == "queued"@ ==> row.status == "排队中"@
            &&& status == "submitting"@ || status == "provider_accepted"@ || status
                == "processing"@ ==> row.status == "生成中"@
            &&& status == "validating"@ ==> row.status == "保存结果"@
            &&& status == "failed"@ ==> row.status == "生成失败"@
            &&& status == "expired"@ && here ==> row.status == "已保存到本机"@
            &&& status == "expired"@ && !here ==> row.status == "待核实"@
        }),
{
    states_differ();
}

/// A video that is finished is shown with its length and its resolution, a
/// picture with its size.
pub proof fn finished_tasks_show_their_measure(v: JsonModel, seconds: u64)
    requires
        v.text("status"@) == "succeeded"@,
    ensures
        ({
            let request = v.at("request"@);
            let row = item_of(v);
            &&& v.text("kind"@) == "video"@ && request.at("duration"@).as_u64() == Some(seconds)
                && request.text("resolution"@).len() > 0 ==> row.status == minutes_and_seconds(
                seconds as nat,
            ) + " · "@ + request.text("resolution"@)
            &&& v.text("kind"@) == "video"@ && request.at("duration"@).as_u64() is None
                && request.text("resolution"@).len() > 0 ==> row.status == request.text(
                "resolution"@,
            )
            &&& v.text("kind"@) == "image"@ && request.text("size"@).len() == 0 ==> row.status
                == "已完成"@
        }),
{
    states_differ();
    crate::cloud::asking::media_differ();
}

/// The tasks of one order are shown in the order of their numbers in it, each
/// once, and no others.
pub proof fn batches_are_in_their_order(tasks: Seq<JsonModel>, key: Seq<char>, i: int, j: int)
    requires
        tasks.len() <= usize::MAX,
        0 <= i < j < ordered_members(tasks, key).len(),
    ensures
        ({
            let members = ordered_members(tasks, key);
            let a = tasks[members[i] as int];
            let b = tasks[members[j] as int];
            &&& members[i] != members[j]
            &&& members[i] < tasks.len() && members[j] < tasks.len()
            &&& batch_key(a) == key && batch_key(b) == key
            &&& (match a.at("batch_index"@).as_i64() {
                Some(n) => n as int,
                None => 0,
            }) <= (match b.at("batch_index"@).as_i64() {
                Some(n) => n as int,
                None => 0,
            })
        }),
{
    members_have_the_key(tasks, key);
    let members = batch_members(tasks, key);
    let keys = member_keys(tasks, members);
    orders_exist(keys);
    let order = order_of(keys);
    assert(row_less(keys, order[i] as int, order[j] as int));
    if order[i] == order[j] {
        crate::sort::text_less_total(keys[order[i] as int].id, keys[order[i] as int].id);
        crate::sort::text_less_total(keys[order[i] as int].name, keys[order[i] as int].name);
    }
    assert(order[i] < keys.len() && order[j] < keys.len());
    if order[i] < order[j] {
        assert(members[order[i] as int] < members[order[j] as int]);
    } else {
        assert(members[order[j] as int] < members[order[i] as int]);
    }
}

proof fn members_have_the_key(tasks: Seq<JsonModel>, key: Seq<char>)
    requires
        tasks.len() <= usize::MAX,
    ensures
        batch_members(tasks, key).len() <= tasks.len(),
        forall|k: int|
            0 <= k < batch_members(tasks, key).len() ==> #[trigger] batch_members(tasks, key)[k]
                < tasks.len() && batch_key(tasks[batch_members(tasks, key)[k] as int]) == key,
        forall|a: int, b: int|
            0 <= a < b < batch_members(tasks, key).len() ==> #[trigger] batch_members(tasks, key)[a]
                < #[trigger] batch_members(tasks, key)[b],
    decreases tasks.len(),
{
    if tasks.len() > 0 {
        let fewer = tasks.drop_last();
        members_have_the_key(fewer, key);
        let before = batch_members(fewer, key);
        let now = batch_members(tasks, key);
        assert forall|k: int| 0 <= k < now.len() implies #[trigger] now[k] < tasks.len()
            && batch_key(tasks[now[k] as int]) == key by {
            if k < before.len() {
                assert(now[k] == before[k]);
                assert(tasks[now[k] as int] == fewer[now[k] as int]);
            }
        }
    }
}

/// The words under an order say how many are made and how many failed, counted
/// in videos or in pictures; while some are under way they say so.
pub proof fn summaries_count_what_is_there(first: JsonModel, n: nat, done: nat, failed: nat)
    requires
        done + failed <= n,
        failed > 0 || done < n,
    ensures
        ({
            let unit = if first.text("kind"@) == "video"@ {
                "条"@
            } else {
                "张"@
            };
            let text = batch_summary(first, n, done, failed);
            &&& done + failed == n ==> text == "完成 "@ + decimal(done) + "/"@ + decimal(n)
                + " · "@ + decimal(failed) + " "@ + unit + "失败"@
            &&& done + failed < n ==> text == decimal(n) + " "@ + unit + " · 生成中"@
        }),
{
}

/// A time of today is shown as the hour and the minute, an earlier one with
/// the month and the day before them.
pub proof fn stamps_are_read_from_large_to_small(t: LocalStamp)
    ensures
        t.today ==> label_of_stamp(Some(t)) == "今天 "@ + (two_digits(t.hour as nat) + ":"@
            + two_digits(t.minute as nat)),
        !t.today ==> label_of_stamp(Some(t)) == two_digits(t.month as nat) + "-"@ + two_digits(
            t.day as nat,
        ) + " "@ + (two_digits(t.hour as nat) + ":"@ + two_digits(t.minute as nat)),
{
}

/// Results that succeeded are fetched by themselves, where they are not here
/// and were not tried before; nothing else is, and what is tried is remembered.
pub proof fn finished_results_are_fetched_once(
    list: TaskListView,
    value: JsonModel,
    present: Set<Seq<char>>,
    i: int,
)
    requires
        0 <= i < items_of(value).len(),
    ensures
        ({
            let (now, steps) = tasks_answered(list, value, present);
            let task = items_of(value)[i];
            let id = task.text("id"@);
            &&& now.tasks == items_of(value)
            &&& task.text("status"@) == "succeeded"@ && !is_here(list.local, present, id)
                ==> now.attempts.contains(id)
            &&& task.text("status"@) == "succeeded"@ && !is_here(list.local, present, id)
                && !list.attempts.contains(id) ==> steps.contains(
                StepView::DownloadTask(id, "cache"@, ""@),
            )
            &&& forall|k: int|
                0 <= k < steps.len() ==> ((#[trigger] steps[k]) matches StepView::DownloadTask(
                    x,
                    _,
                    _,
                ) ==> !list.attempts.contains(x) && !is_here(list.local, present, x))
        }),
{
    let tasks = items_of(value);
    let drawn = seq![StepView::Draw(crate::cloud::steps::Panel::Tasks)];
    let refreshed = if list.tasks != tasks {
        drawn.push(crate::cloud::steps::fetch("wallet"@, "/api/wallet"@)).push(
            StepView::RefreshQuote,
        )
    } else {
        drawn
    };
    fetched_so_far(tasks, list.local, present, refreshed, list.attempts, tasks.len(), i);
}

proof fn fetched_so_far(
    tasks: Seq<JsonModel>,
    local: Map<Seq<char>, Seq<char>>,
    present: Set<Seq<char>>,
    first: Seq<StepView>,
    tried: Set<Seq<char>>,
    n: nat,
    i: int,
)
    requires
        n <= tasks.len(),
        0 <= i < tasks.len(),
        forall|k: int| 0 <= k < first.len() ==> !((#[trigger] first[k]) is DownloadTask),
    ensures
        ({
            let (steps, attempts) = caching(tasks, local, present, (first, tried), n);
            let id = tasks[i].text("id"@);
            let due = tasks[i].text("status"@) == "succeeded"@ && !is_here(local, present, id);
            &&& forall|x: Seq<char>| tried.contains(x) ==> #[trigger] attempts.contains(x)
            &&& i < n && due ==> attempts.contains(id)
            &&& forall|x: Seq<char>| #[trigger]
                attempts.contains(x) && !tried.contains(x) ==> steps.contains(
                    StepView::DownloadTask(x, "cache"@, ""@),
                )
            &&& forall|k: int|
                0 <= k < steps.len() ==> ((#[trigger] steps[k]) matches StepView::DownloadTask(
                    x,
                    _,
                    _,
                ) ==> !tried.contains(x) && !is_here(local, present, x))
        }),
    decreases n,
{
    if n > 0 {
        fetched_so_far(tasks, local, present, first, tried, (n - 1) as nat, i);
        let (before, attempts) = caching(tasks, local, present, (first, tried), (n - 1) as nat);
        let (steps, now) = caching(tasks, local, present, (first, tried), n);
        let id = tasks[n - 1].text("id"@);
        assert forall|x: Seq<char>| #[trigger] now.contains(x) && !tried.contains(
            x,
        ) implies steps.contains(StepView::DownloadTask(x, "cache"@, ""@)) by {
            let step = StepView::DownloadTask(x, "cache"@, ""@);
            if attempts.contains(x) {
                let k = choose|k: int| 0 <= k < before.len() && before[k] == step;
                assert(steps[k] == step);
            } else {
                assert(steps.last() == step);
            }
        }
    }
}

/// What was marked stays marked as long as it is there.
pub proof fn marks_follow_the_tasks(
    list: TaskListView,
    value: JsonModel,
    present: Set<Seq<char>>,
    id: Seq<char>,
)
    ensures
        tasks_answered(list, value, present).0.selected.contains(id) <==> list.selected.contains(id)
            && exists|i: int|
            0 <= i < items_of(value).len() && (#[trigger] items_of(value)[i]).text("id"@) == id,
{
    let tasks = items_of(value);
    let p = text_is("id"@, id);
    if any(tasks, p) {
        let i = choose|i: int| 0 <= i < tasks.len() && p(#[trigger] tasks[i]);
        assert(tasks[i].text("id"@) == id);
    }
    if exists|i: int| 0 <= i < tasks.len() && (#[trigger] tasks[i]).text("id"@) == id {
        let i = choose|i: int| 0 <= i < tasks.len() && (#[trigger] tasks[i]).text("id"@) == id;
        assert(p(tasks[i]));
    }
}

/// Results are refused together where one of them does not fit what they are
/// wanted for, or cannot be had: a canvas takes pictures only, and so does a
/// picture model.
pub proof fn unfit_results_are_refused(
    list: TaskListView,
    facts: FactsView,
    intent: Seq<char>,
    i: int,
)
    requires
        0 <= i < chosen_tasks(list).len(),
    ensures
        ({
            let task = chosen_tasks(list)[i];
            let id = task.text("id"@);
            &&& list.selected.contains(id)
            &&& intent == "canvas"@ && task.text("kind"@) != "image"@ ==> results_refused(
                list,
                facts,
                intent,
            ) is Some
            &&& intent == "reference"@ && facts.mode == 0 && task.text("kind"@) != "image"@
                ==> results_refused(list, facts, intent) is Some
            &&& !is_here(list.local, facts.present, id) && task.text("status"@) != "succeeded"@
                ==> results_refused(list, facts, intent) is Some
        }),
{
    let tasks = chosen_tasks(list);
    let chosen = crate::cloud::results::is_chosen(list.selected);
    kept_satisfies(list.tasks, chosen);
    assert(chosen(tasks[i]));
    let other = text_is_not("kind"@, "image"@);
    let far = out_of_reach(list.local, facts.present);
    if tasks[i].text("kind"@) != "image"@ {
        assert(other(tasks[i]));
        assert(any(tasks, other));
    }
    if far(tasks[i]) {
        assert(any(tasks, far));
    }
}

/// A single result goes where it is wanted: it is shown, sent on to the
/// timeline or to a canvas, taken as a reference, kept, or given to the team.
pub proof fn results_go_where_they_are_wanted(
    list: TaskListView,
    present: Set<Seq<char>>,
    id: Seq<char>,
    team: Seq<char>,
    token: Option<u64>,
)
    requires
        is_here(list.local, present, id),
    ensures
        ({
            let path = list.local[id];
            let one = plain_imports(seq![path]);
            &&& one.len() == 1 && one[0].path == path
            &&& task_fetched(list, present, id, "preview"@, team, token) == seq![
                StepView::OpenFile(path),
            ]
            &&& task_fetched(list, present, id, "import"@, team, token) == seq![
                StepView::Handoff("clip"@, one),
            ]
            &&& task_fetched(list, present, id, "canvas"@, team, token) == seq![
                StepView::Handoff("canvas"@, one),
            ]
            &&& task_fetched(list, present, id, "reference"@, team, token) == seq![
                StepView::Upload(path, "generation_input"@),
            ]
            &&& task_fetched(list, present, id, "save-team"@, team, token) == seq![
                StepView::UploadForTeam(path, "team_asset"@, team),
            ]
            &&& task_fetched(list, present, id, "media-preview"@, team, token) == seq![
                StepView::FinishPreview(id, path, token),
            ]
            &&& task_fetched(list, present, id, "cache"@, team, token).len() == 0
        }),
{
    purposes_differ();
    let path = list.local[id];
    assert(plain_imports(seq![path])[0].path == path);
}

/// Results that are used together go all at once, in the order in which they
/// were chosen, and only when every file is here; a file that is missing is
/// fetched first, once.
pub proof fn results_are_used_all_at_once(
    list: TaskListView,
    facts: FactsView,
    batch: ResultBatchView,
)
    requires
        list.batch == Some(batch),
    ensures
        ({
            let (now, steps) = results_continued(list, facts);
            let all_here = forall|i: int|
                0 <= i < batch.ids.len() ==> is_here(
                    list.local,
                    facts.present,
                    #[trigger] batch.ids[i],
                );
            let paths = files_of(batch.ids, list.local);
            &&& all_here ==> now.batch is None
            &&& !all_here ==> now.batch == Some(batch) && steps.len() <= 1 && (steps.len() == 1
                ==> (steps[0] matches StepView::DownloadTask(id, purpose, _) && purpose
                == "batch-output"@ && batch.ids.contains(id) && !list.attempts.contains(id)
                && now.attempts.contains(id)))
            &&& all_here && batch.intent == "canvas"@ ==> steps == seq![
                StepView::Handoff("canvas"@, plain_imports(paths)),
            ]
            &&& all_here && batch.intent == "clip"@ ==> steps == seq![
                StepView::Handoff("clip"@, plain_imports(paths)),
            ]
            &&& paths.len() == batch.ids.len()
        }),
{
    first_missing(batch.ids, list.local, facts.present, 0);
    purposes_differ();
    if let Some(i) = crate::cloud::results::missing_from(batch.ids, list.local, facts.present, 0) {
        assert(batch.ids.contains(batch.ids[i]));
    }
}

proof fn first_missing(
    ids: Seq<Seq<char>>,
    local: Map<Seq<char>, Seq<char>>,
    present: Set<Seq<char>>,
    from: int,
)
    requires
        0 <= from <= ids.len(),
    ensures
        match crate::cloud::results::missing_from(ids, local, present, from) {
            Some(i) => from <= i < ids.len() && !is_here(local, present, ids[i]),
            None => forall|i: int|
                from <= i < ids.len() ==> is_here(local, present, #[trigger] ids[i]),
        },
    decreases ids.len() - from,
{
    if from < ids.len() && is_here(local, present, ids[from]) {
        first_missing(ids, local, present, from + 1);
    }
}

proof fn keys_are_listed_once(tasks: Seq<JsonModel>)
    ensures
        forall|i: int|
            0 <= i < tasks.len() ==> batch_keys(tasks).contains(batch_key(#[trigger] tasks[i])),
        forall|a: int, b: int|
            0 <= a < b < batch_keys(tasks).len() ==> #[trigger] batch_keys(tasks)[a]
                != #[trigger] batch_keys(tasks)[b],
    decreases tasks.len(),
{
    if tasks.len() > 0 {
        let fewer = tasks.drop_last();
        keys_are_listed_once(fewer);
        let before = batch_keys(fewer);
        let now = batch_keys(tasks);
        assert forall|i: int| 0 <= i < tasks.len() implies now.contains(
            batch_key(#[trigger] tasks[i]),
        ) by {
            if i < fewer.len() {
                assert(fewer[i] == tasks[i]);
                assert(before.contains(batch_key(fewer[i])));
                let k = choose|k: int| 0 <= k < before.len() && before[k] == batch_key(fewer[i]);
                assert(now[k] == before[k]);
            } else if !before.contains(batch_key(tasks.last())) {
                assert(now[before.len() as int] == batch_key(tasks.last()));
            }
        }
        assert forall|a: int, b: int| 0 <= a < b < now.len() implies #[trigger] now[a]
            != #[trigger] now[b] by {
            if b == before.len() {
                assert(now[a] == before[a]);
                assert(before.contains(before[a]));
            }
        }
    }
}

proof fn member_is_listed(tasks: Seq<JsonModel>, key: Seq<char>, i: int) -> (at: int)
    requires
        0 <= i < tasks.len() <= usize::MAX,
        batch_key(tasks[i]) == key,
    ensures
        0 <= at < batch_members(tasks, key).len(),
        batch_members(tasks, key)[at] == i,
    decreases tasks.len(),
{
    let fewer = tasks.drop_last();
    if i == tasks.len() - 1 {
        batch_members(fewer, key).len() as int
    } else {
        assert(fewer[i] == tasks[i]);
        member_is_listed(fewer, key, i)
    }
}

/// Every task is shown in one batch: the one of its order, or its own where it
/// has none.
pub proof fn every_task_is_in_one_batch(tasks: Seq<JsonModel>, rows: Seq<ItemRow>, i: int) -> (at: (
    int,
    int,
))
    requires
        0 <= i < tasks.len() <= usize::MAX,
    ensures
        ({
            let batches = batches_of(tasks, rows);
            let order = tasks[i].text("batch_id"@);
            let (k, j) = at;
            &&& 0 <= k < batches.len()
            &&& order.len() > 0 ==> batches[k].id == order
            &&& order.len() == 0 ==> batches[k].id == tasks[i].text("id"@)
            &&& 0 <= j < batches[k].items.len() && batches[k].items[j] == rows[i]
            &&& forall|other: int|
                0 <= other < batches.len() && other != k ==> (#[trigger] batches[other]).id
                    != batches[k].id
        }),
{
    keys_are_listed_once(tasks);
    let keys = batch_keys(tasks);
    let key = batch_key(tasks[i]);
    let k = choose|k: int| 0 <= k < keys.len() && keys[k] == key;
    let batches = batches_of(tasks, rows);
    assert forall|other: int| 0 <= other < batches.len() && other != k implies (
    #[trigger] batches[other]).id != batches[k].id by {
        assert(batches[other].id == keys[other]);
    }
    members_have_the_key(tasks, key);
    let m = member_is_listed(tasks, key, i);
    let members = batch_members(tasks, key);
    orders_exist(member_keys(tasks, members));
    let order = order_of(member_keys(tasks, members));
    let j = crate::sort::order_onto(order, member_keys(tasks, members), m as usize);
    assert(ordered_members(tasks, key)[j] == i);
    (k, j)
}

proof fn all_or_none_count(members: Seq<usize>, p: spec_fn(usize) -> bool)
    ensures
        (forall|k: int| 0 <= k < members.len() ==> p(#[trigger] members[k])) ==> count_of(
            members,
            p,
        ) == members.len(),
        (forall|k: int| 0 <= k < members.len() ==> !p(#[trigger] members[k])) ==> count_of(
            members,
            p,
        ) == 0,
    decreases members.len(),
{
    if members.len() > 0 {
        let front = members.drop_last();
        all_or_none_count(front, p);
        assert(members[members.len() - 1] == members.last());
        assert(forall|k: int| 0 <= k < front.len() ==> #[trigger] front[k] == members[k]);
    }
}

/// A batch of which every task failed says so, with none done; one of which
/// none is done or failed is under way.
pub proof fn batches_say_how_far_they_are(
    tasks: Seq<JsonModel>,
    rows: Seq<ItemRow>,
    key: Seq<char>,
)
    requires
        0 < ordered_members(tasks, key).len(),
    ensures
        ({
            let members = ordered_members(tasks, key);
            let n = members.len();
            let batch = batch_of(tasks, rows, key);
            let unit = if tasks[members[0] as int].text("kind"@) == "video"@ {
                "条"@
            } else {
                "张"@
            };
            let pending = forall|k: int|
                0 <= k < n ==> !rows[#[trigger] members[k] as int].ready
                    && tasks[members[k] as int].text(
                    "status"@,
                ) == "queued"@;
            let failed = forall|k: int|
                0 <= k < n ==> !rows[#[trigger] members[k] as int].ready
                    && tasks[members[k] as int].text(
                    "status"@,
                ) == "failed"@;
            &&& batch.id == key && batch.items.len() == n
            &&& failed ==> batch.summary == "完成 "@ + decimal(0) + "/"@ + decimal(n) + " · "@
                + decimal(n) + " "@ + unit + "失败"@
            &&& pending ==> batch.summary == decimal(n) + " "@ + unit + " · 生成中"@
        }),
{
    states_differ();
    let members = ordered_members(tasks, key);
    all_or_none_count(members, is_done(tasks, rows));
    all_or_none_count(members, is_failed(tasks));
}

} // verus!
